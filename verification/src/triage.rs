//! Deciding which issues have gone without attention since a reference day,
//! the yardstick, with as few remote calls as the activity cache allows.
//!
//! The issues arrive page by page and the comments of an issue arrive on
//! request. Fetching is not done here: a [`TriageRun`] says what it needs
//! next and is fed what was fetched. Everything it decides is a function of
//! what it was fed, of the cache and of the instants it was given.

use vstd::prelude::*;
use crate::error::Error;
use crate::model::{Comment, Dated, Issue};
use crate::time::{lemma_date_by_day, Date, Instant, Ttl};
use crate::triage_cache::{lookup, Activity, CacheResult, TriageCache, TriageCacheLine};

verus! {

/// How long a cached fact is trusted while triaging: one day, in seconds.
pub const TRIAGE_TTL_SECS: i64 = 86_400;

/// The greatest number of comments that one page holds. A page this full may
/// have more comments behind it.
pub const COMMENTS_PER_PAGE: usize = 100;

/// The first page of the issue listing.
pub const FIRST_ISSUE_PAGE: u32 = 1;

/// The time to live with which the cache is consulted while triaging.
pub open spec fn triage_ttl() -> Option<Ttl> {
    Some(Ttl { secs: TRIAGE_TTL_SECS })
}

/// What is known of an issue before any comment is fetched.
#[derive(Clone, Copy, Debug, PartialEq, Eq, Structural)]
pub enum Verdict {
    /// Nothing has happened on the issue since the yardstick: report it.
    Untriaged,
    /// The issue was created or commented on recently enough: pass over it.
    Triaged,
    /// The cache cannot tell: the comments must be fetched.
    MustFetch,
}

/// The verdict on `issue` given what the cache answered for it, against the
/// yardstick day numbered `yardstick`.
///
/// An issue without comments is judged by its creation day alone. Otherwise
/// a fresh last-comment day decides either way; a fresh lower bound decides
/// only if it lies at or before the yardstick; a stale last-comment day
/// decides only if it lies after the yardstick, since nothing newer can move
/// it back; and everything else needs a fetch.
pub open spec fn verdict(issue: Issue, cached: CacheResult, yardstick: int) -> Verdict {
    if issue.comments == 0 {
        if issue.day() < yardstick {
            Verdict::Untriaged
        } else {
            Verdict::Triaged
        }
    } else {
        match cached {
            CacheResult::Fresh(Activity::LastCommentedOn(day)) => if day@ < yardstick {
                Verdict::Untriaged
            } else {
                Verdict::Triaged
            },
            CacheResult::Fresh(Activity::NoActivitySince(day)) => if day@ <= yardstick {
                Verdict::Untriaged
            } else {
                Verdict::MustFetch
            },
            CacheResult::Stale(Activity::LastCommentedOn(day)) => if day@ > yardstick {
                Verdict::Triaged
            } else {
                Verdict::MustFetch
            },
            _ => Verdict::MustFetch,
        }
    }
}

/// Judges `issue` from what the cache answered for it.
pub fn assess(issue: &Issue, cached: CacheResult, yardstick: &Date) -> (result: Verdict)
    ensures
        result == verdict(*issue, cached, yardstick@),
{
    if issue.comments == 0 {
        if issue.date().is_before(yardstick) {
            Verdict::Untriaged
        } else {
            Verdict::Triaged
        }
    } else {
        match cached {
            CacheResult::Fresh(Activity::LastCommentedOn(day)) => {
                if day.is_before(yardstick) {
                    Verdict::Untriaged
                } else {
                    Verdict::Triaged
                }
            },
            CacheResult::Fresh(Activity::NoActivitySince(day)) => {
                if day.is_after(yardstick) {
                    Verdict::MustFetch
                } else {
                    Verdict::Untriaged
                }
            },
            CacheResult::Stale(Activity::LastCommentedOn(day)) => {
                if day.is_after(yardstick) {
                    Verdict::Triaged
                } else {
                    Verdict::MustFetch
                }
            },
            _ => Verdict::MustFetch,
        }
    }
}

/// Whether `day` is the day of the latest of `comments`: the day of one of
/// them, and of none a later one.
pub open spec fn is_latest_day(comments: Seq<Comment>, day: int) -> bool {
    &&& exists|i: int| 0 <= i < comments.len() && #[trigger] comments[i].day() == day
    &&& forall|i: int| 0 <= i < comments.len() ==> #[trigger] comments[i].day() <= day
}

/// The day of the latest of `comments`, if there is any comment.
pub fn latest_comment_date(comments: &Vec<Comment>) -> (latest: Option<Date>)
    ensures
        latest is None <==> comments@.len() == 0,
        latest matches Some(day) ==> is_latest_day(comments@, day@),
{
    if comments.len() == 0 {
        return None;
    }
    let mut latest: Date = comments[0].date();
    let mut i: usize = 1;
    while i < comments.len()
        invariant
            1 <= i <= comments.len(),
            exists|k: int| 0 <= k < i && #[trigger] comments@[k].day() == latest@,
            forall|k: int| 0 <= k < i ==> #[trigger] comments@[k].day() <= latest@,
        decreases comments.len() - i,
    {
        let day = comments[i].date();
        if day.is_after(&latest) {
            latest = day;
        }
        i += 1;
    }
    Some(latest)
}

/// What a page of comments made since the yardstick tells about an issue.
#[derive(Clone, Copy, Debug, PartialEq, Eq)]
pub enum Finding {
    /// There are none: nothing happened since the yardstick.
    Quiet,
    /// There are some, the latest of them on the given day.
    Commented(Date),
    /// The page is full, so there may be more comments behind it and the
    /// latest is not known.
    Overflow,
}

/// Whether `finding` is what `comments` tell.
pub open spec fn is_finding(comments: Seq<Comment>, finding: Finding) -> bool {
    match finding {
        Finding::Quiet => comments.len() == 0,
        Finding::Commented(day) => 0 < comments.len() < COMMENTS_PER_PAGE && is_latest_day(
            comments,
            day@,
        ),
        Finding::Overflow => comments.len() >= COMMENTS_PER_PAGE,
    }
}

/// A page of comments tells one thing only.
pub proof fn lemma_finding_is_unique(comments: Seq<Comment>, one: Finding, other: Finding)
    requires
        is_finding(comments, one),
        is_finding(comments, other),
    ensures
        one == other,
{
    if let Finding::Commented(day) = one {
        if let Finding::Commented(also) = other {
            let i = choose|i: int| 0 <= i < comments.len() && #[trigger] comments[i].day() == day@;
            let j = choose|j: int| 0 <= j < comments.len() && #[trigger] comments[j].day() == also@;
            assert(comments[i].day() <= also@);
            assert(comments[j].day() <= day@);
            lemma_date_by_day(day, also);
        }
    }
}

/// Reads a fetched page of comments.
pub fn examine_comments(comments: &Vec<Comment>) -> (finding: Finding)
    ensures
        is_finding(comments@, finding),
{
    if comments.len() >= COMMENTS_PER_PAGE {
        Finding::Overflow
    } else {
        match latest_comment_date(comments) {
            Some(day) => Finding::Commented(day),
            None => Finding::Quiet,
        }
    }
}

/// The fact that a finding adds to the cache, if it adds one.
pub open spec fn fact_of(finding: Finding, yardstick: Date) -> Option<Activity> {
    match finding {
        Finding::Quiet => Some(Activity::NoActivitySince(yardstick)),
        Finding::Commented(day) => Some(Activity::LastCommentedOn(day)),
        Finding::Overflow => None,
    }
}

/// Records in the cache what the fetched comments of an issue tell, as
/// confirmed at `now`, and says whether the issue is untriaged.
///
/// No comment since the yardstick: the issue is untriaged, and the cache
/// learns that nothing happened since the yardstick. Less than a page of
/// comments: the issue is not untriaged, and the cache learns the day of the
/// latest. A full page is refused with [`Error::UnsupportedPagingDepth`] and
/// the cache is left as it was, since a truncated list would put a wrong
/// fact into it.
pub fn record_finding(
    cache: &mut TriageCache,
    issue_number: u32,
    finding: Finding,
    yardstick: &Date,
    now: Instant,
) -> (untriaged: Result<bool, Error>)
    ensures
        match fact_of(finding, *yardstick) {
            Some(activity) => {
                &&& untriaged == Ok::<bool, Error>(finding == Finding::Quiet)
                &&& final(cache)@ == old(cache)@.insert(
                    issue_number,
                    TriageCacheLine { activity, last_checked: now },
                )
            },
            None => {
                &&& untriaged == Err::<bool, Error>(Error::UnsupportedPagingDepth)
                &&& final(cache)@ == old(cache)@
            },
        },
{
    match finding {
        Finding::Quiet => {
            cache.insert_at(issue_number, Activity::NoActivitySince(*yardstick), now);
            Ok(true)
        },
        Finding::Commented(day) => {
            cache.insert_at(issue_number, Activity::LastCommentedOn(day), now);
            Ok(false)
        },
        Finding::Overflow => Err(Error::UnsupportedPagingDepth),
    }
}

/// The verdict on `issue` by a cache that holds `entries`, consulted at
/// second `now`.
pub open spec fn verdict_on(
    issue: Issue,
    entries: Map<u32, TriageCacheLine>,
    yardstick: int,
    now: int,
) -> Verdict {
    verdict(issue, lookup(entries, issue.number, triage_ttl(), now), yardstick)
}

/// The index of the first of `issues`, from `from` on, whose comments must
/// be fetched; the number of issues if there is none.
pub open spec fn first_unsettled(
    issues: Seq<Issue>,
    from: int,
    entries: Map<u32, TriageCacheLine>,
    yardstick: int,
    now: int,
) -> int
    decreases issues.len() - from,
{
    if from < 0 || from >= issues.len() {
        issues.len() as int
    } else if verdict_on(issues[from], entries, yardstick, now) == Verdict::MustFetch {
        from
    } else {
        first_unsettled(issues, from + 1, entries, yardstick, now)
    }
}

/// Those of `issues` that the cache alone shows to be untriaged, in their
/// order.
pub open spec fn untriaged_among(
    issues: Seq<Issue>,
    entries: Map<u32, TriageCacheLine>,
    yardstick: int,
    now: int,
) -> Seq<Issue> {
    issues.filter(|issue: Issue| verdict_on(issue, entries, yardstick, now) == Verdict::Untriaged)
}

/// Where a run stands.
#[derive(Clone, Copy, Debug, PartialEq, Eq, Structural)]
pub enum TriagePhase {
    /// It waits for the page of the issue listing numbered by its `page`.
    AwaitingIssues,
    /// It waits for the comments of the pending issue under its `cursor`.
    AwaitingComments,
    /// The listing is exhausted.
    Finished,
}

/// What a run needs next.
#[derive(Clone, Copy, Debug, PartialEq, Eq)]
pub enum TriageAction {
    /// The page `page` of the issue listing, sorted by number of comments,
    /// fewest first.
    FetchIssues { page: u32 },
    /// The first page of the comments made on the issue since the day
    /// `since`.
    FetchComments { issue_number: u32, since: Date },
    /// Nothing: the run is over.
    Done,
}

/// The state of a run as a plain value.
pub struct TriageState {
    pub yardstick: Date,
    pub page: u32,
    pub pending: Seq<Issue>,
    pub cursor: int,
    pub untriaged: Seq<Issue>,
    pub phase: TriagePhase,
}

impl TriageState {
    /// The cursor lies within the pending issues, and on one of them while
    /// its comments are awaited.
    pub open spec fn wf(self) -> bool {
        &&& 0 <= self.cursor <= self.pending.len()
        &&& self.phase == TriagePhase::AwaitingComments ==> self.cursor < self.pending.len()
    }

    /// The state after the pending issues from the cursor on have been
    /// judged by the cache as far as it can tell: up to the first that needs
    /// a fetch, or through to the end of the page, after which the next page
    /// is awaited.
    pub open spec fn settle(self, entries: Map<u32, TriageCacheLine>, now: int) -> TriageState {
        let stop = first_unsettled(self.pending, self.cursor, entries, self.yardstick@, now);
        let found = self.untriaged + untriaged_among(
            self.pending.subrange(self.cursor, stop),
            entries,
            self.yardstick@,
            now,
        );
        if stop < self.pending.len() {
            TriageState {
                cursor: stop,
                untriaged: found,
                phase: TriagePhase::AwaitingComments,
                ..self
            }
        } else if self.page == u32::MAX {
            TriageState {
                pending: Seq::empty(),
                cursor: 0,
                untriaged: found,
                phase: TriagePhase::Finished,
                ..self
            }
        } else {
            TriageState {
                page: (self.page + 1) as u32,
                pending: Seq::empty(),
                cursor: 0,
                untriaged: found,
                phase: TriagePhase::AwaitingIssues,
                ..self
            }
        }
    }

    /// The state after the awaited page of issues has arrived: an empty page
    /// ends the run, any other is settled from its first issue.
    pub open spec fn with_issues(
        self,
        issues: Seq<Issue>,
        entries: Map<u32, TriageCacheLine>,
        now: int,
    ) -> TriageState {
        if issues.len() == 0 {
            TriageState { phase: TriagePhase::Finished, ..self }
        } else {
            TriageState { pending: issues, cursor: 0, ..self }.settle(entries, now)
        }
    }

    /// The state after the awaited comments have told `finding` and the
    /// cache, now holding `entries`, has learned of it: the issue under the
    /// cursor is reported if nothing happened on it, and the issues after it
    /// are settled.
    pub open spec fn with_finding(
        self,
        finding: Finding,
        entries: Map<u32, TriageCacheLine>,
        now: int,
    ) -> TriageState {
        let found = if finding == Finding::Quiet {
            self.untriaged.push(self.pending[self.cursor])
        } else {
            self.untriaged
        };
        TriageState { cursor: self.cursor + 1, untriaged: found, ..self }.settle(entries, now)
    }
}

/// Whether a run in state `before`, over a cache holding `entries_before`,
/// that is told `finding` at the instant `now` ends in state `after` over a
/// cache holding `entries_after`, with `result`.
///
/// A finding that carries a fact is recorded for the issue under the cursor
/// and the run goes on. A full page of comments stops the run where it is
/// with [`Error::UnsupportedPagingDepth`], the cache untouched.
pub open spec fn told(
    before: TriageState,
    entries_before: Map<u32, TriageCacheLine>,
    finding: Finding,
    now: Instant,
    after: TriageState,
    entries_after: Map<u32, TriageCacheLine>,
    result: Result<(), Error>,
) -> bool {
    match fact_of(finding, before.yardstick) {
        Some(activity) => {
            &&& result == Ok::<(), Error>(())
            &&& entries_after == entries_before.insert(
                before.pending[before.cursor].number,
                TriageCacheLine { activity, last_checked: now },
            )
            &&& after == before.with_finding(finding, entries_after, now@)
        },
        None => {
            &&& result == Err::<(), Error>(Error::UnsupportedPagingDepth)
            &&& entries_after == entries_before
            &&& after == before
        },
    }
}

/// What a finished or abandoned run has to show.
#[derive(Debug, PartialEq, Eq)]
pub struct TriageReport {
    /// The issues found untriaged, in the order of the listing.
    pub untriaged: Vec<Issue>,
    /// Whether the remote source cut the run short, so that the list may be
    /// incomplete.
    pub rate_limited: bool,
}

/// One pass over the issue listing.
pub struct TriageRun {
    yardstick: Date,
    page: u32,
    pending: Vec<Issue>,
    cursor: usize,
    untriaged: Vec<Issue>,
    phase: TriagePhase,
}

impl View for TriageRun {
    type V = TriageState;

    closed spec fn view(&self) -> TriageState {
        TriageState {
            yardstick: self.yardstick,
            page: self.page,
            pending: self.pending@,
            cursor: self.cursor as int,
            untriaged: self.untriaged@,
            phase: self.phase,
        }
    }
}

impl TriageRun {
    #[verifier::type_invariant]
    spec fn cursor_in_range(self) -> bool {
        self@.wf()
    }

    /// A run against the yardstick that has seen nothing yet and waits for
    /// the first page of the listing.
    pub fn new(yardstick: Date) -> (run: TriageRun)
        ensures
            run@ == (TriageState {
                yardstick,
                page: FIRST_ISSUE_PAGE,
                pending: Seq::empty(),
                cursor: 0,
                untriaged: Seq::empty(),
                phase: TriagePhase::AwaitingIssues,
            }),
    {
        TriageRun {
            yardstick,
            page: FIRST_ISSUE_PAGE,
            pending: Vec::new(),
            cursor: 0,
            untriaged: Vec::new(),
            phase: TriagePhase::AwaitingIssues,
        }
    }

    /// Where the run stands.
    pub fn phase(&self) -> (phase: TriagePhase)
        ensures
            phase == self@.phase,
            self@.wf(),
    {
        proof {
            use_type_invariant(self);
        }
        self.phase
    }

    /// The issues found untriaged so far.
    pub fn untriaged(&self) -> (found: &Vec<Issue>)
        ensures
            found@ == self@.untriaged,
    {
        &self.untriaged
    }

    /// What the run needs next.
    pub fn next_action(&self) -> (action: TriageAction)
        ensures
            action == match self@.phase {
                TriagePhase::AwaitingIssues => TriageAction::FetchIssues { page: self@.page },
                TriagePhase::AwaitingComments => TriageAction::FetchComments {
                    issue_number: self@.pending[self@.cursor].number,
                    since: self@.yardstick,
                },
                TriagePhase::Finished => TriageAction::Done,
            },
    {
        proof {
            use_type_invariant(self);
        }
        match self.phase {
            TriagePhase::AwaitingIssues => TriageAction::FetchIssues { page: self.page },
            TriagePhase::AwaitingComments => TriageAction::FetchComments {
                issue_number: self.pending[self.cursor].number,
                since: self.yardstick,
            },
            TriagePhase::Finished => TriageAction::Done,
        }
    }

    /// Judges the pending issues from the cursor on by the cache.
    fn settle(self, cache: &TriageCache, now: &Instant) -> (next: TriageRun)
        requires
            self@.phase != TriagePhase::AwaitingComments,
        ensures
            next@ == self@.settle(cache@, now@),
    {
        proof {
            use_type_invariant(&self);
        }
        let TriageRun { yardstick, page, pending, cursor, untriaged, phase } = self;
        let ghost start = cursor as int;
        let ghost seen = untriaged@;
        let mut cursor = cursor;
        let mut untriaged = untriaged;
        let ttl = Some(Ttl { secs: TRIAGE_TTL_SECS });
        let mut must_fetch = false;
        while cursor < pending.len() && !must_fetch
            invariant
                0 <= start <= cursor <= pending@.len(),
                ttl == triage_ttl(),
                must_fetch ==> cursor < pending@.len() && verdict_on(
                    pending@[cursor as int],
                    cache@,
                    yardstick@,
                    now@,
                ) == Verdict::MustFetch,
                first_unsettled(pending@, start, cache@, yardstick@, now@) == first_unsettled(
                    pending@,
                    cursor as int,
                    cache@,
                    yardstick@,
                    now@,
                ),
                untriaged@ == seen + untriaged_among(
                    pending@.subrange(start, cursor as int),
                    cache@,
                    yardstick@,
                    now@,
                ),
            decreases 2 * (pending@.len() - cursor) + (if must_fetch { 0int } else { 1int }),
        {
            let cached = cache.get_at(&pending[cursor].number, ttl, now);
            let found = assess(&pending[cursor], cached, &yardstick);
            match found {
                Verdict::MustFetch => {
                    must_fetch = true;
                },
                _ => {
                    proof {
                        let judged = |issue: Issue|
                            verdict_on(issue, cache@, yardstick@, now@) == Verdict::Untriaged;
                        let upto = pending@.subrange(start, cursor as int);
                        let next = pending@.subrange(start, cursor + 1);
                        assert(next.drop_last() == upto);
                        assert(next.last() == pending@[cursor as int]);
                        reveal_with_fuel(Seq::filter, 2);
                        assert(next.filter(judged) == if judged(pending@[cursor as int]) {
                            upto.filter(judged).push(pending@[cursor as int])
                        } else {
                            upto.filter(judged)
                        });
                    }
                    if let Verdict::Untriaged = found {
                        untriaged.push(pending[cursor].clone());
                    }
                    cursor += 1;
                },
            }
        }
        if must_fetch {
            TriageRun {
                yardstick,
                page,
                pending,
                cursor,
                untriaged,
                phase: TriagePhase::AwaitingComments,
            }
        } else if page == u32::MAX {
            TriageRun {
                yardstick,
                page,
                pending: Vec::new(),
                cursor: 0,
                untriaged,
                phase: TriagePhase::Finished,
            }
        } else {
            TriageRun {
                yardstick,
                page: page + 1,
                pending: Vec::new(),
                cursor: 0,
                untriaged,
                phase: TriagePhase::AwaitingIssues,
            }
        }
    }

    /// Takes the page of issues that the run was waiting for. The cache is
    /// consulted as of `now`.
    pub fn accept_issues(self, issues: Vec<Issue>, cache: &TriageCache, now: &Instant) -> (next:
        TriageRun)
        requires
            self@.phase == TriagePhase::AwaitingIssues,
        ensures
            next@ == self@.with_issues(issues@, cache@, now@),
    {
        proof {
            use_type_invariant(&self);
        }
        let TriageRun { yardstick, page, pending, cursor, untriaged, phase } = self;
        if issues.len() == 0 {
            TriageRun { yardstick, page, pending, cursor, untriaged, phase: TriagePhase::Finished }
        } else {
            let run = TriageRun { yardstick, page, pending: issues, cursor: 0, untriaged, phase };
            run.settle(cache, now)
        }
    }

    /// Takes what the comments that the run was waiting for have told,
    /// records it in the cache as confirmed at `now`, and goes on.
    pub fn accept_finding(
        self,
        finding: Finding,
        cache: &mut TriageCache,
        now: Instant,
    ) -> (next: (TriageRun, Result<(), Error>))
        requires
            self@.phase == TriagePhase::AwaitingComments,
        ensures
            told(self@, old(cache)@, finding, now, next.0@, final(cache)@, next.1),
    {
        proof {
            use_type_invariant(&self);
        }
        let number = self.pending[self.cursor].number;
        match record_finding(cache, number, finding, &self.yardstick, now) {
            Ok(quiet) => {
                let TriageRun { yardstick, page, pending, cursor, untriaged, phase } = self;
                let mut untriaged = untriaged;
                if quiet {
                    untriaged.push(pending[cursor].clone());
                }
                assert(cursor < pending.len());
                let run = TriageRun {
                    yardstick,
                    page,
                    pending,
                    cursor: cursor + 1,
                    untriaged,
                    phase: TriagePhase::AwaitingIssues,
                };
                (run.settle(cache, &now), Ok(()))
            },
            Err(error) => (self, Err(error)),
        }
    }

    /// Takes the page of comments that the run was waiting for: reads it
    /// with [`examine_comments`] and goes on as [`TriageRun::accept_finding`]
    /// does.
    pub fn accept_comments(
        self,
        comments: &Vec<Comment>,
        cache: &mut TriageCache,
        now: Instant,
    ) -> (next: (TriageRun, Result<(), Error>))
        requires
            self@.phase == TriagePhase::AwaitingComments,
        ensures
            exists|finding: Finding|
                is_finding(comments@, finding) && #[trigger] told(
                    self@,
                    old(cache)@,
                    finding,
                    now,
                    next.0@,
                    final(cache)@,
                    next.1,
                ),
    {
        let finding = examine_comments(comments);
        self.accept_finding(finding, cache, now)
    }

    /// Ends the run, however it went. A run that came to its end reports
    /// what it found. A run that the remote source cut short with its
    /// rate-limit signal reports what it had found until then, marked as
    /// incomplete. Any other failure is handed on and nothing is reported.
    pub fn finish(self, outcome: Result<(), Error>) -> (report: Result<TriageReport, Error>)
        ensures
            match outcome {
                Ok(_) => report matches Ok(r) && r.untriaged@ == self@.untriaged
                    && !r.rate_limited,
                Err(Error::RateLimited) => report matches Ok(r) && r.untriaged@
                    == self@.untriaged && r.rate_limited,
                Err(error) => report == Err::<TriageReport, Error>(error),
            },
    {
        match outcome {
            Ok(_) => Ok(TriageReport { untriaged: self.untriaged, rate_limited: false }),
            Err(Error::RateLimited) => Ok(
                TriageReport { untriaged: self.untriaged, rate_limited: true },
            ),
            Err(error) => Err(error),
        }
    }
}

/// Where the judging of issues by the cache stops: at or after where it
/// started, past none that needs a fetch, and on one that does unless the
/// issues ran out.
pub proof fn lemma_first_unsettled(
    issues: Seq<Issue>,
    from: int,
    entries: Map<u32, TriageCacheLine>,
    yardstick: int,
    now: int,
)
    requires
        0 <= from <= issues.len(),
    ensures
        from <= first_unsettled(issues, from, entries, yardstick, now) <= issues.len(),
        forall|i: int|
            from <= i < first_unsettled(issues, from, entries, yardstick, now) ==> verdict_on(
                #[trigger] issues[i],
                entries,
                yardstick,
                now,
            ) != Verdict::MustFetch,
        first_unsettled(issues, from, entries, yardstick, now) < issues.len() ==> verdict_on(
            issues[first_unsettled(issues, from, entries, yardstick, now)],
            entries,
            yardstick,
            now,
        ) == Verdict::MustFetch,
    decreases issues.len() - from,
{
    if from < issues.len() && verdict_on(issues[from], entries, yardstick, now)
        != Verdict::MustFetch {
        lemma_first_unsettled(issues, from + 1, entries, yardstick, now);
    }
}

/// A run asks for the comments of an issue only where the cache cannot tell:
/// the issue that it waits on after judging by the cache needs a fetch, and
/// it has passed over no issue for which the cache could not tell.
pub proof fn lemma_run_fetches_only_when_needed(
    state: TriageState,
    entries: Map<u32, TriageCacheLine>,
    now: int,
)
    requires
        state.wf(),
    ensures
        state.settle(entries, now).wf(),
        state.settle(entries, now).phase == TriagePhase::AwaitingComments ==> {
            let next = state.settle(entries, now);
            &&& next.pending == state.pending
            &&& state.cursor <= next.cursor
            &&& verdict_on(next.pending[next.cursor], entries, state.yardstick@, now)
                == Verdict::MustFetch
            &&& forall|i: int|
                state.cursor <= i < next.cursor ==> verdict_on(
                    #[trigger] state.pending[i],
                    entries,
                    state.yardstick@,
                    now,
                ) != Verdict::MustFetch
        },
{
    lemma_first_unsettled(state.pending, state.cursor, entries, state.yardstick@, now);
}

/// An issue without comments that was created before the yardstick is
/// untriaged whatever the cache holds, and an issue whose last comment is
/// freshly known to lie after the yardstick is triaged: neither needs its
/// comments fetched.
pub proof fn lemma_cache_short_circuit(issue: Issue, cached: CacheResult, day: Date, yardstick: int)
    ensures
        issue.comments == 0 && issue.day() < yardstick ==> verdict(issue, cached, yardstick)
            == Verdict::Untriaged,
        issue.comments != 0 && day@ > yardstick ==> verdict(
            issue,
            CacheResult::Fresh(Activity::LastCommentedOn(day)),
            yardstick,
        ) == Verdict::Triaged,
{
}

/// A fetch is asked for only when the issue has comments and the cache holds
/// nothing conclusive: nothing at all, a stale fact other than a last
/// comment after the yardstick, or a fresh lower bound after the yardstick.
pub proof fn lemma_fetch_only_when_inconclusive(issue: Issue, cached: CacheResult, yardstick: int)
    ensures
        verdict(issue, cached, yardstick) == Verdict::MustFetch <==> issue.comments != 0 && (
        match cached {
            CacheResult::NotFound => true,
            CacheResult::Fresh(Activity::LastCommentedOn(_)) => false,
            CacheResult::Fresh(Activity::NoActivitySince(day)) => day@ > yardstick,
            CacheResult::Stale(Activity::LastCommentedOn(day)) => day@ <= yardstick,
            CacheResult::Stale(Activity::NoActivitySince(_)) => true,
        }),
{
}

} // verus!
