//! Finding the pages of a remote collection that hold the items of one day.
//!
//! The collection is sorted newest first and can only be read page by page,
//! so page 0 is the page nearest to now and later pages lie further in the
//! past. A [`Locator`] starts from a guessed page and is fed the pages it
//! asks for. While it has not met the day it jumps by the days it missed
//! times the pages it assumes a day to fill, assuming more after every miss
//! so as not to swing around the day for ever. Once it has met the day it
//! walks page by page, first toward now and then away from it, until the day
//! is bounded on both sides, and gathers the day's items in the order of the
//! collection. Each page is gathered once, whatever the order of the visits.
//!
//! Fetching is not done here: the locator says which page it needs, and
//! what it makes of the page is a function of its state and the page alone.
//! Of each step it keeps a record, for those who watch a scan.

use vstd::prelude::*;
use crate::error::Error;
use crate::model::{Dated, Paged};
use crate::time::Date;

verus! {

/// Where a scan stands.
#[derive(Clone, Copy, Debug, PartialEq, Eq, Structural)]
pub enum Phase {
    /// No page fetched so far held an item of the day.
    Searching,
    /// A page held items of the day and the day is not yet bounded on both
    /// sides.
    Extracting,
    /// The scan is over: the day is bounded on both sides, or it has no
    /// items.
    Done,
    /// The scan is over: the remote source returned an empty page, which is
    /// the end of its history.
    Exhausted,
}

/// The pages `first` to `last` of the collection, from which the items of
/// the day have been gathered.
#[derive(Clone, Copy, Debug, PartialEq, Eq, Structural)]
pub struct PageWindow {
    pub first: u32,
    pub last: u32,
}

/// Whether some item of `page` is dated to the day numbered `day`.
pub open spec fn has_item_on<T: Dated>(page: Seq<T>, day: int) -> bool {
    exists|i: int| 0 <= i < page.len() && #[trigger] page[i].day() == day
}

/// The items of `page` that count for the day numbered `day`, in their
/// order.
pub open spec fn items_on<T: Dated>(page: Seq<T>, day: int) -> Seq<T> {
    page.filter(|item: T| item.counts_on(day))
}

/// The pages by which to move after missing the day by `days` days: the days
/// times the assumed pages per day, held to what a page index can be.
pub open spec fn pages_missed(days: int, pages_per_day: u32) -> u32 {
    if days * pages_per_day > u32::MAX {
        u32::MAX
    } else {
        (days * pages_per_day) as u32
    }
}

/// The page `pages` pages further from now than `page`, held to the last
/// page index there is.
pub open spec fn advanced(page: u32, pages: u32) -> u32 {
    if page + pages > u32::MAX {
        u32::MAX
    } else {
        (page + pages) as u32
    }
}

/// The page `pages` pages nearer to now than `page`; where that would lie
/// before page 0, the page one nearer to now than `page` instead.
pub open spec fn retreated(page: u32, pages: u32) -> u32
    recommends
        page > 0,
{
    if pages <= page {
        (page - pages) as u32
    } else {
        (page - 1) as u32
    }
}

/// The assumed pages per day after one more miss.
pub open spec fn raised(pages_per_day: u32) -> u32 {
    if pages_per_day == u32::MAX {
        u32::MAX
    } else {
        (pages_per_day + 1) as u32
    }
}

/// What a scan made of a page.
#[derive(Clone, Copy, Debug, PartialEq, Eq, Structural)]
pub enum Decision {
    /// The page was empty, which is the end of the collection's history: the
    /// scan is over.
    RanOut,
    /// Nothing on the page was of the day and all of it was more recent: the
    /// search goes `pages` pages away from now, or as far as page indices
    /// go.
    MovedOn { pages: u32 },
    /// Nothing on the page was of the day and all of it was older: the
    /// search goes `pages` pages toward now.
    MovedBack { pages: u32 },
    /// Nothing on the page was of the day, and the page shows that nothing
    /// is: the scan is over.
    NothingThatDay,
    /// The day may start on the page before: the scan steps back toward
    /// now.
    SteppedBack,
    /// The near side of the day is found and the far side is still open: the
    /// scan turns to the page after those it has gathered from.
    Turned,
    /// The day may go on on the next page: the scan goes there.
    WentOn,
    /// The day is bounded on both sides: the scan is over.
    Completed,
}

/// How much a decision matters to someone who watches a scan.
#[derive(Clone, Copy, Debug, PartialEq, Eq, Structural)]
pub enum Level {
    /// One step among many.
    Debug,
    /// The end of a scan.
    Info,
}

/// A record of one step of a scan: the day looked for, the page that was
/// fetched, and what the scan made of it.
#[derive(Clone, Copy, Debug, PartialEq, Eq)]
pub struct Observation {
    pub target: Date,
    pub page: u32,
    pub decision: Decision,
}

impl Observation {
    /// How much the record matters: the decisions that end a scan more than
    /// the others.
    pub open spec fn spec_level(self) -> Level {
        match self.decision {
            Decision::RanOut | Decision::NothingThatDay | Decision::Completed => Level::Info,
            _ => Level::Debug,
        }
    }

    /// How much the record matters.
    pub fn level(&self) -> (level: Level)
        ensures
            level == self.spec_level(),
    {
        match self.decision {
            Decision::RanOut => Level::Info,
            Decision::NothingThatDay => Level::Info,
            Decision::Completed => Level::Info,
            _ => Level::Debug,
        }
    }
}

/// The state of a scan as a plain value.
pub struct LocatorState<T> {
    /// The day whose items are wanted.
    pub target: Date,
    /// The page to fetch next, while the scan is not over.
    pub page_number: u32,
    /// How many pages a day is assumed to fill.
    pub pages_per_day: u32,
    /// How many items a page holds when it is full. A shorter page is the
    /// last of the collection.
    pub page_size: usize,
    pub phase: Phase,
    /// The pages gathered from, once there are any.
    pub window: Option<PageWindow>,
    /// Whether the day may go on beyond the last page of the window.
    pub far_open: bool,
    /// The items gathered, in the order of the collection.
    pub items: Seq<T>,
    /// How often the scan stepped back toward now.
    pub retries: u32,
    /// What the scan made of the page it took last, once it has taken one.
    pub last: Option<Observation>,
}

impl<T> LocatorState<T> {
    /// Whether the scan is over.
    pub open spec fn is_terminal(self) -> bool {
        self.phase == Phase::Done || self.phase == Phase::Exhausted
    }

    /// What the parts of a state have to do with each other: a search has
    /// no window yet, and without a window nothing is gathered; an
    /// extraction has a window and stands on the page before it or on the
    /// page after it; and the far side is only open where there is a page
    /// after the window.
    pub open spec fn wf(self) -> bool {
        &&& self.phase == Phase::Searching ==> self.window is None
        &&& self.window is None ==> self.items.len() == 0
        &&& self.window matches Some(w) ==> w.first <= w.last
        &&& self.far_open ==> (self.window matches Some(w) && w.last < u32::MAX)
        &&& self.phase == Phase::Extracting ==> (self.window matches Some(w) && (self.page_number
            + 1 == w.first || (self.page_number == w.last + 1 && self.far_open)))
    }

    /// Whether an extraction is walking toward now.
    pub open spec fn walks_back(self) -> bool {
        self.window matches Some(w) && self.page_number < w.first
    }
}

impl<T: Dated> LocatorState<T> {
    /// The state from which a scan for `target` starts on `page`.
    pub open spec fn initial(target: Date, page: u32, pages_per_day: u32, page_size: usize) -> Self {
        LocatorState {
            target,
            page_number: page,
            pages_per_day,
            page_size,
            phase: Phase::Searching,
            window: None,
            far_open: false,
            items: Seq::empty(),
            retries: 0,
            last: None,
        }
    }

    /// Whether the items of the day go on to the far end of `page`, so that
    /// the next page may hold more of them: the last item is of the day and
    /// the page is full.
    pub open spec fn goes_beyond(self, page: Seq<T>) -> bool {
        &&& page.len() > 0
        &&& page.last().day() == self.target@
        &&& page.len() >= self.page_size
        &&& self.page_number < u32::MAX
    }

    /// Whether the items of the day start at the near end of `page`, so that
    /// the page before may hold more of them.
    pub open spec fn goes_before(self, page: Seq<T>) -> bool {
        &&& page.len() > 0
        &&& page.first().day() == self.target@
        &&& self.page_number > 0
    }

    /// The state after a search has fetched a page without an item of the
    /// day. Where the whole page is more recent than the day, the search
    /// moves away from now; where it is older, toward now; in both cases by
    /// the days missed times the assumed pages per day, and assuming one
    /// page per day more from then on. Where the page lies around the day,
    /// or is page 0 and older than the day, the day has no items.
    pub open spec fn after_miss(self, page: Seq<T>) -> Self {
        let day = self.target@;
        let nearest = page.first().day();
        let farthest = page.last().day();
        if farthest > day {
            LocatorState {
                page_number: advanced(
                    self.page_number,
                    pages_missed(farthest - day, self.pages_per_day),
                ),
                pages_per_day: raised(self.pages_per_day),
                ..self
            }
        } else if nearest < day && self.page_number > 0 {
            LocatorState {
                page_number: retreated(
                    self.page_number,
                    pages_missed(day - nearest, self.pages_per_day),
                ),
                pages_per_day: raised(self.pages_per_day),
                ..self
            }
        } else {
            LocatorState { phase: Phase::Done, ..self }
        }
    }

    /// The state after a search has fetched a page with items of the day:
    /// the page becomes the window. Where the day starts at the near end of
    /// the page the scan steps back toward now; else, where the day goes on
    /// to the far end, it moves on; else the whole day was on this page.
    pub open spec fn after_first_find(self, page: Seq<T>) -> Self {
        let found = LocatorState {
            window: Some(PageWindow { first: self.page_number, last: self.page_number }),
            far_open: self.goes_beyond(page),
            items: items_on(page, self.target@),
            ..self
        };
        if self.goes_before(page) {
            LocatorState {
                phase: Phase::Extracting,
                page_number: (self.page_number - 1) as u32,
                retries: raised(self.retries),
                ..found
            }
        } else if self.goes_beyond(page) {
            LocatorState {
                phase: Phase::Extracting,
                page_number: (self.page_number + 1) as u32,
                ..found
            }
        } else {
            LocatorState { phase: Phase::Done, ..found }
        }
    }

    /// The state after an extraction that walks toward now has found the
    /// near side of the day: it turns to the page after the window where the
    /// far side is open, and is done where it is not.
    pub open spec fn after_near_side(self) -> Self {
        if self.far_open && self.window is Some {
            LocatorState { page_number: (self.window->0.last + 1) as u32, ..self }
        } else {
            LocatorState { phase: Phase::Done, ..self }
        }
    }

    /// The state after an extraction has fetched the page before its
    /// window. Items of the day on it are put before those gathered, and
    /// where they start at the near end of the page the scan steps back once
    /// more. Otherwise the near side of the day is found.
    pub open spec fn after_step_back(self, page: Seq<T>) -> Self {
        if has_item_on(page, self.target@) {
            let found = LocatorState {
                window: Some(
                    PageWindow { first: self.page_number, last: self.window->0.last },
                ),
                items: items_on(page, self.target@) + self.items,
                ..self
            };
            if self.goes_before(page) {
                LocatorState {
                    page_number: (self.page_number - 1) as u32,
                    retries: raised(self.retries),
                    ..found
                }
            } else {
                found.after_near_side()
            }
        } else {
            self.after_near_side()
        }
    }

    /// The state after an extraction has fetched the page after its window.
    /// Items of the day on it are put behind those gathered, and where they
    /// go on to the far end of the page the scan moves on. Otherwise the far
    /// side of the day is found and the scan is done.
    pub open spec fn after_step_on(self, page: Seq<T>) -> Self {
        if has_item_on(page, self.target@) {
            let found = LocatorState {
                window: Some(
                    PageWindow { first: self.window->0.first, last: self.page_number },
                ),
                far_open: self.goes_beyond(page),
                items: self.items + items_on(page, self.target@),
                ..self
            };
            if self.goes_beyond(page) {
                LocatorState { page_number: (self.page_number + 1) as u32, ..found }
            } else {
                LocatorState { phase: Phase::Done, ..found }
            }
        } else {
            LocatorState { phase: Phase::Done, far_open: false, ..self }
        }
    }

    /// Where the page asked for leads a scan that is not over. An empty page
    /// ends any scan.
    pub open spec fn advance(self, page: Seq<T>) -> Self {
        if page.len() == 0 {
            LocatorState { phase: Phase::Exhausted, ..self }
        } else if self.phase == Phase::Searching {
            if has_item_on(page, self.target@) {
                self.after_first_find(page)
            } else {
                self.after_miss(page)
            }
        } else if self.walks_back() {
            self.after_step_back(page)
        } else {
            self.after_step_on(page)
        }
    }

    /// What a scan that is not over makes of the page asked for.
    pub open spec fn decision(self, page: Seq<T>) -> Decision {
        let day = self.target@;
        let next = self.advance(page);
        if page.len() == 0 {
            Decision::RanOut
        } else if self.phase == Phase::Searching && !has_item_on(page, day) {
            if page.last().day() > day {
                Decision::MovedOn { pages: pages_missed(page.last().day() - day, self.pages_per_day) }
            } else if page.first().day() < day && self.page_number > 0 {
                Decision::MovedBack { pages: (self.page_number - next.page_number) as u32 }
            } else {
                Decision::NothingThatDay
            }
        } else if next.phase == Phase::Done {
            Decision::Completed
        } else if next.page_number < self.page_number {
            Decision::SteppedBack
        } else if self.walks_back() {
            Decision::Turned
        } else {
            Decision::WentOn
        }
    }

    /// The state after the page asked for has arrived, with a record of
    /// what was made of the page. A scan that is over takes no more pages.
    pub open spec fn step(self, page: Seq<T>) -> Self {
        if self.is_terminal() {
            self
        } else {
            LocatorState {
                last: Some(
                    Observation {
                        target: self.target,
                        page: self.page_number,
                        decision: self.decision(page),
                    },
                ),
                ..self.advance(page)
            }
        }
    }
}

/// A scan for the items of one day.
pub struct Locator<T> {
    target: Date,
    page_number: u32,
    pages_per_day: u32,
    page_size: usize,
    phase: Phase,
    window: Option<PageWindow>,
    far_open: bool,
    items: Vec<T>,
    retries: u32,
    last: Option<Observation>,
}

impl<T> View for Locator<T> {
    type V = LocatorState<T>;

    closed spec fn view(&self) -> LocatorState<T> {
        LocatorState {
            target: self.target,
            page_number: self.page_number,
            pages_per_day: self.pages_per_day,
            page_size: self.page_size,
            phase: self.phase,
            window: self.window,
            far_open: self.far_open,
            items: self.items@,
            retries: self.retries,
            last: self.last,
        }
    }
}

/// Splits a fetched page into what counts for the day, in the page's order,
/// and says whether any item of the page is dated to the day at all.
fn gather<T: Dated>(page: Vec<T>, target: &Date) -> (found: (Vec<T>, bool))
    ensures
        found.0@ == items_on(page@, target@),
        found.1 == has_item_on(page@, target@),
{
    let ghost all = page@;
    let ghost counts = |item: T| item.counts_on(target@);
    let mut kept: Vec<T> = Vec::new();
    let mut any = false;
    for item in it: page
        invariant
            it.seq() == all,
            counts == (|item: T| item.counts_on(target@)),
            kept@ == all.take(it.index() as int).filter(counts),
            any == has_item_on(all.take(it.index() as int), target@),
    {
        proof {
            let seen = all.take(it.index() as int);
            let more = all.take(it.index() + 1);
            assert(more.drop_last() == seen);
            assert(more.last() == item);
            reveal_with_fuel(Seq::filter, 2);
            assert(more.filter(counts) == if counts(item) {
                seen.filter(counts).push(item)
            } else {
                seen.filter(counts)
            });
            if has_item_on(seen, target@) {
                let i = choose|i: int| 0 <= i < seen.len() && #[trigger] seen[i].day() == target@;
                assert(more[i].day() == target@);
            }
            if has_item_on(more, target@) && item.day() != target@ {
                let i = choose|i: int| 0 <= i < more.len() && #[trigger] more[i].day() == target@;
                assert(seen[i].day() == target@);
            }
        }
        if item.date().same_day(target) {
            any = true;
        }
        if item.is_relevant_for_date(target) {
            kept.push(item);
        }
    }
    proof {
        assert(all.take(all.len() as int) == all);
    }
    (kept, any)
}

impl<T> Locator<T> {
    #[verifier::type_invariant]
    spec fn parts_agree(self) -> bool {
        self@.wf()
    }
}

impl<T: Dated> Locator<T> {
    /// A scan for the items of `target` that starts on `page`, assumes a day
    /// to fill `pages_per_day` pages and expects full pages to hold
    /// `page_size` items. A page with fewer items is taken to be the last of
    /// the collection; with a `page_size` of 0 no page ever is.
    pub fn start_at(target: Date, page: u32, pages_per_day: u32, page_size: usize) -> (locator:
        Locator<T>)
        ensures
            locator@ == LocatorState::<T>::initial(target, page, pages_per_day, page_size),
    {
        Locator {
            target,
            page_number: page,
            pages_per_day,
            page_size,
            phase: Phase::Searching,
            window: None,
            far_open: false,
            items: Vec::new(),
            retries: 0,
            last: None,
        }
    }

    /// Where the scan stands.
    pub fn phase(&self) -> (phase: Phase)
        ensures
            phase == self@.phase,
    {
        self.phase
    }

    /// Whether the scan is over.
    pub fn is_terminal(&self) -> (over: bool)
        ensures
            over == self@.is_terminal(),
    {
        match self.phase {
            Phase::Done => true,
            Phase::Exhausted => true,
            _ => false,
        }
    }

    /// The page that the scan needs next; none once it is over.
    pub fn next_page(&self) -> (page: Option<u32>)
        ensures
            page == if self@.is_terminal() {
                None
            } else {
                Some(self@.page_number)
            },
    {
        if self.is_terminal() {
            None
        } else {
            Some(self.page_number)
        }
    }

    /// How often the scan stepped back toward now.
    pub fn retries(&self) -> (count: u32)
        ensures
            count == self@.retries,
    {
        self.retries
    }

    /// What the scan made of the page it took last, once it has taken one.
    pub fn last_observation(&self) -> (seen: Option<Observation>)
        ensures
            seen == self@.last,
    {
        self.last
    }

    /// How many pages a day is assumed to fill by now.
    pub fn pages_per_day(&self) -> (pages: u32)
        ensures
            pages == self@.pages_per_day,
    {
        self.pages_per_day
    }

    /// The pages gathered from, once there are any.
    pub fn window(&self) -> (window: Option<PageWindow>)
        ensures
            window == self@.window,
    {
        self.window
    }

    /// The items gathered so far.
    pub fn items(&self) -> (items: &Vec<T>)
        ensures
            items@ == self@.items,
    {
        &self.items
    }

    /// Gives up the scan for the items gathered so far.
    pub fn into_items(self) -> (items: Vec<T>)
        ensures
            items@ == self@.items,
    {
        self.items
    }

    /// Takes the page that the scan asked for.
    pub fn step(self, page: Vec<T>) -> (next: Locator<T>)
        ensures
            next@ == self@.step(page@),
    {
        proof {
            use_type_invariant(&self);
        }
        if self.is_terminal() {
            return self;
        }
        let Locator {
            target,
            page_number,
            pages_per_day,
            page_size,
            phase,
            window,
            far_open,
            items,
            retries,
            last,
        } = self;
        let count = page.len();
        let mut items = items;
        let mut next_phase = phase;
        let mut next_page = page_number;
        let mut next_rate = pages_per_day;
        let mut next_window = window;
        let mut next_far = far_open;
        let mut next_retries = retries;
        let mut decision = Decision::RanOut;
        if count == 0 {
            next_phase = Phase::Exhausted;
        } else {
            let nearest = page[0].date();
            let farthest = page[count - 1].date();
            let before = nearest.same_day(&target) && page_number > 0;
            let beyond = farthest.same_day(&target) && count >= page_size && page_number
                < u32::MAX;
            let (mut kept, any) = gather(page, &target);
            match window {
                None => {
                    if any {
                        next_window = Some(PageWindow { first: page_number, last: page_number });
                        next_far = beyond;
                        items = kept;
                        if before {
                            next_phase = Phase::Extracting;
                            next_page = page_number - 1;
                            next_retries = retries.saturating_add(1);
                            decision = Decision::SteppedBack;
                        } else if beyond {
                            next_phase = Phase::Extracting;
                            next_page = page_number + 1;
                            decision = Decision::WentOn;
                        } else {
                            next_phase = Phase::Done;
                            decision = Decision::Completed;
                        }
                    } else if farthest.is_after(&target) {
                        let pages = scaled(&farthest, &target, pages_per_day);
                        next_page = page_number.saturating_add(pages);
                        next_rate = pages_per_day.saturating_add(1);
                        decision = Decision::MovedOn { pages };
                    } else if nearest.is_before(&target) && page_number > 0 {
                        let pages = scaled(&target, &nearest, pages_per_day);
                        next_page = if pages <= page_number {
                            page_number - pages
                        } else {
                            page_number - 1
                        };
                        next_rate = pages_per_day.saturating_add(1);
                        decision = Decision::MovedBack { pages: page_number - next_page };
                    } else {
                        next_phase = Phase::Done;
                        decision = Decision::NothingThatDay;
                    }
                },
                Some(gathered) => {
                    if page_number < gathered.first {
                        let mut back = false;
                        if any {
                            next_window = Some(
                                PageWindow { first: page_number, last: gathered.last },
                            );
                            kept.append(&mut items);
                            items = kept;
                            back = before;
                        }
                        if back {
                            next_page = page_number - 1;
                            next_retries = retries.saturating_add(1);
                            decision = Decision::SteppedBack;
                        } else if far_open {
                            next_page = gathered.last + 1;
                            decision = Decision::Turned;
                        } else {
                            next_phase = Phase::Done;
                            decision = Decision::Completed;
                        }
                    } else if any {
                        items.append(&mut kept);
                        next_window = Some(
                            PageWindow { first: gathered.first, last: page_number },
                        );
                        next_far = beyond;
                        if beyond {
                            next_page = page_number + 1;
                            decision = Decision::WentOn;
                        } else {
                            next_phase = Phase::Done;
                            decision = Decision::Completed;
                        }
                    } else {
                        next_phase = Phase::Done;
                        next_far = false;
                        decision = Decision::Completed;
                    }
                },
            }
        }
        Locator {
            target,
            page_number: next_page,
            pages_per_day: next_rate,
            page_size,
            phase: next_phase,
            window: next_window,
            far_open: next_far,
            items,
            retries: next_retries,
            last: Some(Observation { target, page: page_number, decision }),
        }
    }

    /// Takes what fetching the page asked for has come to. A failure of the
    /// remote source, its rate-limit signal above all, ends the scan at
    /// once: the error is handed on and what was gathered is dropped, so
    /// that nothing incomplete can be kept.
    pub fn accept(self, fetched: Result<Vec<T>, Error>) -> (next: Result<Locator<T>, Error>)
        ensures
            match fetched {
                Ok(page) => next matches Ok(locator) && locator@ == self@.step(page@),
                Err(error) => next == Err::<Locator<T>, Error>(error),
            },
    {
        match fetched {
            Ok(page) => Ok(self.step(page)),
            Err(error) => Err(error),
        }
    }
}

impl<T: Dated + Paged> Locator<T> {
    /// A scan for the items of `target`, which must not lie after `today`,
    /// that starts on the page guessed for this kind of item and expects
    /// full pages to hold `page_size` items.
    pub fn start(target: Date, today: &Date, page_size: usize) -> (locator: Locator<T>)
        requires
            target@ <= today@,
        ensures
            locator@ == LocatorState::<T>::initial(
                target,
                crate::estimator::start_page(today@ - target@, T::page_hint()) as u32,
                T::pages_per_day(),
                page_size,
            ),
    {
        let page = T::page_for_date(&target, today);
        Locator::start_at(target, page, T::estimated_pages_per_day(), page_size)
    }
}

/// The pages by which to move after missing the day by as many days as
/// `later` lies after `earlier`.
fn scaled(later: &Date, earlier: &Date, pages_per_day: u32) -> (pages: u32)
    requires
        later@ > earlier@,
    ensures
        pages == pages_missed(later@ - earlier@, pages_per_day),
{
    let days: i64 = later.days() as i64 - earlier.days() as i64;
    assert(days * pages_per_day <= 0x1000_0000 * 0x1_0000_0000) by (nonlinear_arith)
        requires
            0 < days <= 0x1000_0000,
            0 <= pages_per_day <= 0x1_0000_0000,
    ;
    let pages: u64 = days as u64 * pages_per_day as u64;
    if pages > u32::MAX as u64 {
        u32::MAX
    } else {
        pages as u32
    }
}

/// Every step leads from a well-formed state to a well-formed state.
pub proof fn lemma_step_keeps_wf<T: Dated>(state: LocatorState<T>, page: Seq<T>)
    requires
        state.wf(),
    ensures
        state.step(page).wf(),
{
}

} // verus!
