//! What is known of each issue's last activity, and how far it can be
//! trusted.
//!
//! The cache maps an issue's number to one fact about its activity and to the
//! instant at which the fact was confirmed. A fact is never merged with an
//! older one: the newest check overwrites. Whether a fact is still fresh is
//! decided against a time to live that the caller supplies.

use std::collections::HashMap;
use vstd::prelude::*;
use vstd::std_specs::iter::IteratorSpec;
use crate::error::Error;
use crate::storage::Stored;
use crate::time::{Date, Instant, Ttl};

verus! {

broadcast use vstd::std_specs::hash::group_hash_axioms;

/// What is known about the activity on an issue.
#[derive(Clone, Copy, Debug, PartialEq, Eq)]
pub enum Activity {
    /// No activity has been seen since the given day. There may be some
    /// before it: this is a lower bound only.
    NoActivitySince(Date),
    /// The last comment was made on the given day.
    LastCommentedOn(Date),
}

/// A fact together with the instant at which it was confirmed.
#[derive(Clone, Copy, Debug, PartialEq, Eq)]
pub struct TriageCacheLine {
    pub activity: Activity,
    pub last_checked: Instant,
}

/// The result of looking up an issue in the cache.
#[derive(Clone, Copy, Debug, PartialEq, Eq)]
pub enum CacheResult {
    /// The fact was confirmed less than the time to live ago.
    Fresh(Activity),
    /// The fact is older than that. It is handed out all the same: some
    /// facts stay conclusive whatever has happened since.
    Stale(Activity),
    /// Nothing was ever recorded for the issue.
    NotFound,
}

/// Whether a fact confirmed at second `last_checked` has outlived `ttl` at
/// second `now`. Without a time to live nothing ever does.
pub open spec fn is_stale(last_checked: int, ttl: Option<Ttl>, now: int) -> bool {
    ttl matches Some(span) && now - last_checked >= span.secs
}

/// What a cache holding `entries` answers at second `now` when asked for
/// `issue_number` with the time to live `ttl`.
pub open spec fn lookup(
    entries: Map<u32, TriageCacheLine>,
    issue_number: u32,
    ttl: Option<Ttl>,
    now: int,
) -> CacheResult {
    if entries.contains_key(issue_number) {
        let line = entries[issue_number];
        if is_stale(line.last_checked@, ttl, now) {
            CacheResult::Stale(line.activity)
        } else {
            CacheResult::Fresh(line.activity)
        }
    } else {
        CacheResult::NotFound
    }
}

/// The entries that result from recording each pair of `lines` in turn, a
/// later pair replacing an earlier one for the same issue.
pub open spec fn recorded(lines: Seq<(u32, TriageCacheLine)>) -> Map<u32, TriageCacheLine>
    decreases lines.len(),
{
    if lines.len() == 0 {
        Map::empty()
    } else {
        recorded(lines.drop_last()).insert(lines.last().0, lines.last().1)
    }
}

/// The activity cache.
pub struct TriageCache {
    internal: HashMap<u32, TriageCacheLine>,
}

impl View for TriageCache {
    type V = Map<u32, TriageCacheLine>;

    /// The recorded line of each issue that has one.
    closed spec fn view(&self) -> Map<u32, TriageCacheLine> {
        self.internal@
    }
}

impl TriageCache {
    /// A cache that knows nothing.
    pub fn new() -> (cache: TriageCache)
        ensures
            cache@ == Map::<u32, TriageCacheLine>::empty(),
    {
        TriageCache { internal: HashMap::new() }
    }

    /// A cache that holds the given lines, recorded in their order.
    pub fn from_entries(lines: Vec<(u32, TriageCacheLine)>) -> (cache: TriageCache)
        ensures
            cache@ == recorded(lines@),
    {
        let mut internal: HashMap<u32, TriageCacheLine> = HashMap::new();
        let mut i: usize = 0;
        while i < lines.len()
            invariant
                i <= lines.len(),
                internal@ == recorded(lines@.take(i as int)),
            decreases lines.len() - i,
        {
            let (number, line) = lines[i];
            internal.insert(number, line);
            proof {
                assert(lines@.take(i + 1).drop_last() == lines@.take(i as int));
            }
            i += 1;
        }
        proof {
            assert(lines@.take(i as int) == lines@);
        }
        TriageCache { internal }
    }

    /// The cache to work with, given what reading the stored lines came to.
    /// Where nothing was stored, or what was stored does not decode, the
    /// cache starts out empty and the blob is to be written anew. Only a
    /// store that fails to hand out a blob that is there is an error.
    pub fn restore(stored: Stored<Vec<(u32, TriageCacheLine)>>) -> (restored: Result<
        (TriageCache, bool),
        Error,
    >)
        ensures
            match stored {
                Stored::Missing | Stored::Corrupt => restored matches Ok(pair) && pair.0@
                    == Map::<u32, TriageCacheLine>::empty() && pair.1,
                Stored::Unreadable(message) => restored == Err::<(TriageCache, bool), Error>(
                    Error::Transport(message),
                ),
                Stored::Decoded(lines) => restored matches Ok(pair) && pair.0@ == recorded(lines@)
                    && !pair.1,
            },
    {
        match stored {
            Stored::Missing => Ok((TriageCache::new(), true)),
            Stored::Corrupt => Ok((TriageCache::new(), true)),
            Stored::Unreadable(message) => Err(Error::Transport(message)),
            Stored::Decoded(lines) => Ok((TriageCache::from_entries(lines), false)),
        }
    }

    /// The lines of the cache, one for each issue, in no particular order.
    pub fn entries(&self) -> (lines: Vec<(u32, TriageCacheLine)>)
        ensures
            lines@.len() == self@.len(),
            forall|i: int|
                0 <= i < lines@.len() ==> self@.contains_key((#[trigger] lines@[i]).0)
                    && self@[lines@[i].0] == lines@[i].1,
            forall|number: u32| #[trigger]
                self@.contains_key(number) ==> lines@.contains((number, self@[number])),
    {
        let mut lines: Vec<(u32, TriageCacheLine)> = Vec::new();
        let walk = self.internal.iter();
        let ghost all = walk.remaining();
        for pair in it: walk
            invariant
                it.seq() == all,
                lines@.len() == it.index(),
                forall|i: int|
                    0 <= i < lines@.len() ==> (#[trigger] lines@[i]) == (*all[i].0, *all[i].1),
        {
            lines.push((*pair.0, *pair.1));
        }
        proof {
            assert forall|number: u32| #[trigger] self@.contains_key(number) implies lines@.contains(
                (number, self@[number]),
            ) by {
                assert(all.contains((&number, &self@[number])));
                let i = choose|i: int| 0 <= i < all.len() && all[i] == (&number, &self@[number]);
                assert(lines@[i] == (number, self@[number]));
            }
        }
        lines
    }

    /// How many issues have a line.
    pub fn len(&self) -> (count: usize)
        ensures
            count == self@.len(),
    {
        self.internal.len()
    }

    /// Whether a line is recorded for the issue.
    pub fn contains(&self, issue_number: u32) -> (found: bool)
        ensures
            found == self@.contains_key(issue_number),
    {
        self.internal.contains_key(&issue_number)
    }

    /// Looks the issue up as of the instant `now`.
    pub fn get_at(&self, issue_number: &u32, ttl: Option<Ttl>, now: &Instant) -> (result:
        CacheResult)
        ensures
            result == lookup(self@, *issue_number, ttl, now@),
    {
        match self.internal.get(issue_number) {
            Some(line) => {
                let stale = match ttl {
                    Some(span) => now.seconds_since(&line.last_checked) >= span.secs,
                    None => false,
                };
                if stale {
                    CacheResult::Stale(line.activity)
                } else {
                    CacheResult::Fresh(line.activity)
                }
            },
            None => CacheResult::NotFound,
        }
    }

    /// Looks the issue up as of now, by the system clock. Whatever the clock
    /// says, an issue without a line is not found, an issue with a line
    /// yields that line's fact, and without a time to live the fact is fresh.
    pub fn get(&self, issue_number: &u32, ttl: Option<Ttl>) -> (result: CacheResult)
        ensures
            exists|now: int| now >= 0 && result == lookup(self@, *issue_number, ttl, now),
            result == CacheResult::NotFound <==> !self@.contains_key(*issue_number),
            self@.contains_key(*issue_number) && ttl is None ==> result == CacheResult::Fresh(
                self@[*issue_number].activity,
            ),
    {
        let now = Instant::now();
        let result = self.get_at(issue_number, ttl, &now);
        assert(result == lookup(self@, *issue_number, ttl, now@));
        result
    }

    /// Records `activity` for the issue as confirmed at the instant `now`,
    /// in place of whatever was recorded for it.
    pub fn insert_at(&mut self, issue_number: u32, activity: Activity, now: Instant)
        ensures
            final(self)@ == old(self)@.insert(
                issue_number,
                TriageCacheLine { activity, last_checked: now },
            ),
    {
        self.internal.insert(issue_number, TriageCacheLine { activity, last_checked: now });
    }

    /// Records `activity` for the issue as confirmed now, by the system
    /// clock, in place of whatever was recorded for it. The lines of other
    /// issues stay as they are.
    pub fn insert(&mut self, issue_number: u32, activity: Activity)
        ensures
            final(self)@.contains_key(issue_number),
            final(self)@[issue_number].activity == activity,
            final(self)@[issue_number].last_checked@ >= 0,
            final(self)@ == old(self)@.insert(issue_number, final(self)@[issue_number]),
    {
        let now = Instant::now();
        self.insert_at(issue_number, activity, now);
    }
}

/// After a fact is recorded for an issue, a lookup without a time to live
/// answers with exactly that fact as fresh, at whatever instants the two took
/// place and whatever was recorded before.
pub proof fn lemma_insert_then_get_is_fresh(
    entries: Map<u32, TriageCacheLine>,
    issue_number: u32,
    activity: Activity,
    inserted_at: Instant,
    now: int,
)
    ensures
        lookup(
            entries.insert(issue_number, TriageCacheLine { activity, last_checked: inserted_at }),
            issue_number,
            None,
            now,
        ) == CacheResult::Fresh(activity),
{
}

/// A lookup with a time to live finds a recorded fact stale exactly when at
/// least that time has passed since it was confirmed, and fresh otherwise;
/// it finds nothing exactly when nothing was recorded for the issue.
pub proof fn lemma_staleness(
    entries: Map<u32, TriageCacheLine>,
    issue_number: u32,
    ttl: Ttl,
    now: int,
)
    ensures
        lookup(entries, issue_number, Some(ttl), now) == CacheResult::NotFound
            <==> !entries.contains_key(issue_number),
        entries.contains_key(issue_number) ==> (lookup(entries, issue_number, Some(ttl), now)
            == CacheResult::Stale(entries[issue_number].activity) <==> now
            - entries[issue_number].last_checked@ >= ttl.secs),
        entries.contains_key(issue_number) ==> (lookup(entries, issue_number, Some(ttl), now)
            == CacheResult::Fresh(entries[issue_number].activity) <==> now
            - entries[issue_number].last_checked@ < ttl.secs),
{
}

/// Recording a fact for one issue changes the answer for no other.
pub proof fn lemma_insert_leaves_others(
    entries: Map<u32, TriageCacheLine>,
    issue_number: u32,
    line: TriageCacheLine,
    other: u32,
    ttl: Option<Ttl>,
    now: int,
)
    requires
        other != issue_number,
    ensures
        lookup(entries.insert(issue_number, line), other, ttl, now) == lookup(
            entries,
            other,
            ttl,
            now,
        ),
{
}

/// What recording lines that all come from one map leads to: a line for
/// each issue that the lines name, and for each the line that the map has.
proof fn lemma_recorded_from_map(
    lines: Seq<(u32, TriageCacheLine)>,
    entries: Map<u32, TriageCacheLine>,
)
    requires
        forall|i: int|
            0 <= i < lines.len() ==> entries.contains_key((#[trigger] lines[i]).0)
                && entries[lines[i].0] == lines[i].1,
    ensures
        forall|number: u32| #[trigger]
            recorded(lines).contains_key(number) <==> exists|i: int|
                0 <= i < lines.len() && (#[trigger] lines[i]).0 == number,
        forall|number: u32| #[trigger]
            recorded(lines).contains_key(number) ==> recorded(lines)[number] == entries[number],
    decreases lines.len(),
{
    if lines.len() > 0 {
        let rest = lines.drop_last();
        let last = lines.last();
        assert forall|i: int| 0 <= i < rest.len() implies entries.contains_key(
            (#[trigger] rest[i]).0,
        ) && entries[rest[i].0] == rest[i].1 by {
            assert(rest[i] == lines[i]);
        }
        lemma_recorded_from_map(rest, entries);
        assert(lines[lines.len() - 1] == last);
        assert forall|number: u32| #[trigger]
            recorded(lines).contains_key(number) <==> exists|i: int|
                0 <= i < lines.len() && (#[trigger] lines[i]).0 == number by {
            if recorded(lines).contains_key(number) {
                if number != last.0 {
                    assert(recorded(rest).contains_key(number));
                    let i = choose|i: int| 0 <= i < rest.len() && (#[trigger] rest[i]).0 == number;
                    assert(lines[i].0 == number);
                }
            }
            if exists|i: int| 0 <= i < lines.len() && (#[trigger] lines[i]).0 == number {
                let i = choose|i: int| 0 <= i < lines.len() && (#[trigger] lines[i]).0 == number;
                if i < rest.len() {
                    assert(rest[i].0 == number);
                    assert(recorded(rest).contains_key(number));
                }
            }
        }
        assert forall|number: u32| #[trigger] recorded(lines).contains_key(number) implies recorded(
            lines,
        )[number] == entries[number] by {
            if number != last.0 {
                assert(recorded(rest).contains_key(number));
                assert(recorded(lines)[number] == recorded(rest)[number]);
            } else {
                assert(recorded(lines)[number] == last.1);
            }
        }
    }
}

/// A cache that is restored from the lines that another handed out holds
/// what that other held: nothing is lost and nothing is changed on the way
/// through the store.
pub proof fn lemma_entries_restore(
    lines: Seq<(u32, TriageCacheLine)>,
    entries: Map<u32, TriageCacheLine>,
)
    requires
        forall|i: int|
            0 <= i < lines.len() ==> entries.contains_key((#[trigger] lines[i]).0)
                && entries[lines[i].0] == lines[i].1,
        forall|number: u32| #[trigger]
            entries.contains_key(number) ==> lines.contains((number, entries[number])),
    ensures
        recorded(lines) == entries,
{
    lemma_recorded_from_map(lines, entries);
    assert forall|number: u32| recorded(lines).contains_key(number) <==> entries.contains_key(
        number,
    ) by {
        if entries.contains_key(number) {
            assert(lines.contains((number, entries[number])));
            let i = choose|i: int| 0 <= i < lines.len() && lines[i] == (number, entries[number]);
            assert(lines[i].0 == number);
        }
        if recorded(lines).contains_key(number) {
            let i = choose|i: int| 0 <= i < lines.len() && (#[trigger] lines[i]).0 == number;
        }
    }
    assert(recorded(lines) =~= entries);
}

} // verus!
