//! What a scan gathers from a collection that is laid out as the locator
//! expects: exactly the items of the day, in the order of the collection,
//! on whatever page the scan starts and whatever it assumes of the pages a
//! day fills.
//!
//! The collection is modelled as the sequence of its pages. Nothing here is
//! executable: these are statements about [`LocatorState::step`].

use vstd::prelude::*;
use crate::locator::{has_item_on, items_on, LocatorState, Phase};
use crate::model::Dated;
use crate::time::Date;

verus! {

/// What fetching page `number` of the collection `pages` returns: the page,
/// or an empty page beyond the last.
pub open spec fn page_of<T>(pages: Seq<Seq<T>>, number: int) -> Seq<T> {
    if 0 <= number < pages.len() {
        pages[number]
    } else {
        Seq::empty()
    }
}

/// Whether the items become no more recent along the collection, within each
/// page and from each page to the next.
pub open spec fn newest_first<T: Dated>(pages: Seq<Seq<T>>) -> bool {
    forall|p: int, i: int, q: int, j: int|
        0 <= p < pages.len() && 0 <= i < pages[p].len() && 0 <= q < pages.len() && 0 <= j
            < pages[q].len() && (p < q || (p == q && i <= j)) ==> (#[trigger] pages[p][i]).day()
            >= (#[trigger] pages[q][j]).day()
}

/// Whether the collection is laid out as a scan expects: its pages can be
/// numbered, none of them is empty, all but the last are full, and the items
/// are sorted newest first.
pub open spec fn well_paged<T: Dated>(pages: Seq<Seq<T>>, page_size: usize) -> bool {
    &&& pages.len() <= u32::MAX + 1
    &&& forall|p: int| 0 <= p < pages.len() ==> (#[trigger] pages[p]).len() > 0
    &&& forall|p: int| 0 <= p < pages.len() - 1 ==> (#[trigger] pages[p]).len() >= page_size
    &&& newest_first(pages)
}

/// The state of a scan after `steps` pages of the collection `pages` have
/// been fetched for it, each the page it asked for.
pub open spec fn run<T: Dated>(state: LocatorState<T>, pages: Seq<Seq<T>>, steps: nat)
    -> LocatorState<T>
    decreases steps,
{
    if steps == 0 {
        state
    } else {
        run(state.step(page_of(pages, state.page_number as int)), pages, (steps - 1) as nat)
    }
}

/// The items that count for the day numbered `day` on the pages `from` up to
/// but not including `to`, in the order of the collection.
pub open spec fn gathered<T: Dated>(pages: Seq<Seq<T>>, from: int, to: int, day: int) -> Seq<T>
    decreases to - from,
{
    if to <= from {
        Seq::empty()
    } else {
        gathered(pages, from, to - 1, day) + items_on(pages[to - 1], day)
    }
}

/// Whether no item on the pages `from` up to but not including `to` is dated
/// to the day numbered `day`.
pub open spec fn none_on<T: Dated>(pages: Seq<Seq<T>>, from: int, to: int, day: int) -> bool {
    forall|p: int, i: int|
        from <= p < to && 0 <= p < pages.len() && 0 <= i < pages[p].len() ==> (
        #[trigger] pages[p][i]).day() != day
}

/// Whether the state holds exactly the items of its day.
pub open spec fn is_exact<T: Dated>(state: LocatorState<T>, pages: Seq<Seq<T>>) -> bool {
    state.items == gathered(pages, 0, pages.len() as int, state.target@)
}

/// What holds of every state that a scan of `pages` goes through: while
/// extracting, the items gathered are those of the window, both ends of the
/// window hold items of the day, and the side the scan has turned away from
/// holds none; once over, the items gathered are those of the day, unless the
/// scan ran out of pages before it ever met the day.
pub open spec fn on_track<T: Dated>(state: LocatorState<T>, pages: Seq<Seq<T>>) -> bool {
    let day = state.target@;
    &&& state.wf()
    &&& match state.phase {
        Phase::Searching => true,
        Phase::Extracting => {
            let w = state.window->0;
            &&& w.last < pages.len()
            &&& state.items == gathered(pages, w.first as int, w.last + 1, day)
            &&& has_item_on(pages[w.first as int], day)
            &&& has_item_on(pages[w.last as int], day)
            &&& !state.far_open ==> none_on(pages, w.last + 1, pages.len() as int, day)
            &&& !state.walks_back() ==> none_on(pages, 0, w.first as int, day)
        },
        Phase::Done => is_exact(state, pages),
        Phase::Exhausted => state.window is Some ==> is_exact(state, pages),
    }
}

/// A page without an item of the day holds nothing that counts for the day.
pub proof fn lemma_nothing_counts_without_item<T: Dated>(page: Seq<T>, day: int)
    requires
        !has_item_on(page, day),
    ensures
        items_on(page, day) == Seq::<T>::empty(),
    decreases page.len(),
{
    reveal(Seq::filter);
    if page.len() > 0 {
        let rest = page.drop_last();
        if has_item_on(rest, day) {
            let i = choose|i: int| 0 <= i < rest.len() && #[trigger] rest[i].day() == day;
            assert(page[i].day() == day);
        }
        lemma_nothing_counts_without_item(rest, day);
        page.last().lemma_counts_on_own_day(day);
        assert(page[page.len() - 1].day() != day);
    }
}

/// Pages without an item of the day add nothing to what is gathered.
pub proof fn lemma_gathered_nothing<T: Dated>(pages: Seq<Seq<T>>, from: int, to: int, day: int)
    requires
        0 <= from,
        to <= pages.len(),
        none_on(pages, from, to, day),
    ensures
        gathered(pages, from, to, day) == Seq::<T>::empty(),
    decreases to - from,
{
    if to > from {
        lemma_gathered_nothing(pages, from, to - 1, day);
        let page = pages[to - 1];
        if has_item_on(page, day) {
            let i = choose|i: int| 0 <= i < page.len() && #[trigger] page[i].day() == day;
            assert(pages[to - 1][i].day() == day);
        }
        lemma_nothing_counts_without_item(page, day);
    }
}

/// What is gathered from a run of pages is what is gathered from its first
/// part followed by what is gathered from the rest.
pub proof fn lemma_gathered_split<T: Dated>(
    pages: Seq<Seq<T>>,
    from: int,
    mid: int,
    to: int,
    day: int,
)
    requires
        from <= mid <= to,
    ensures
        gathered(pages, from, to, day) == gathered(pages, from, mid, day) + gathered(
            pages,
            mid,
            to,
            day,
        ),
    decreases to - mid,
{
    if to > mid {
        lemma_gathered_split(pages, from, mid, to - 1, day);
        assert(gathered(pages, from, to, day) == gathered(pages, from, to - 1, day) + items_on(
            pages[to - 1],
            day,
        ));
        assert(gathered(pages, mid, to, day) == gathered(pages, mid, to - 1, day) + items_on(
            pages[to - 1],
            day,
        ));
        assert(gathered(pages, from, mid, day) + gathered(pages, mid, to - 1, day) + items_on(
            pages[to - 1],
            day,
        ) == gathered(pages, from, mid, day) + (gathered(pages, mid, to - 1, day) + items_on(
            pages[to - 1],
            day,
        )));
    } else {
        assert(gathered(pages, mid, to, day) == Seq::<T>::empty());
        assert(gathered(pages, from, mid, day) + Seq::<T>::empty() == gathered(
            pages,
            from,
            mid,
            day,
        ));
    }
}

/// What is gathered from a single page is what counts on it.
pub proof fn lemma_gathered_one<T: Dated>(pages: Seq<Seq<T>>, page: int, day: int)
    ensures
        gathered(pages, page, page + 1, day) == items_on(pages[page], day),
{
    assert(gathered(pages, page, page, day) == Seq::<T>::empty());
    assert(Seq::<T>::empty() + items_on(pages[page], day) == items_on(pages[page], day));
}

/// What is gathered from all pages is what counts in the collection read as
/// one sequence.
pub proof fn lemma_gathered_is_filter_of_all<T: Dated>(pages: Seq<Seq<T>>, day: int)
    ensures
        gathered(pages, 0, pages.len() as int, day) == items_on(pages.flatten(), day),
    decreases pages.len(),
{
    pages.lemma_flatten_and_flatten_alt_are_equivalent();
    if pages.len() == 0 {
        reveal(Seq::filter);
    } else {
        let counts = |item: T| item.counts_on(day);
        let rest = pages.drop_last();
        lemma_gathered_is_filter_of_all(rest, day);
        rest.lemma_flatten_and_flatten_alt_are_equivalent();
        lemma_gathered_same_pages(pages, rest, 0, rest.len() as int, day);
        Seq::filter_distributes_over_add(rest.flatten_alt(), pages.last(), counts);
    }
}

/// What is gathered from a run of pages depends on those pages alone.
pub proof fn lemma_gathered_same_pages<T: Dated>(
    pages: Seq<Seq<T>>,
    other: Seq<Seq<T>>,
    from: int,
    to: int,
    day: int,
)
    requires
        forall|p: int| from <= p < to ==> pages[p] == other[p],
    ensures
        gathered(pages, from, to, day) == gathered(other, from, to, day),
    decreases to - from,
{
    if to > from {
        lemma_gathered_same_pages(pages, other, from, to - 1, day);
    }
}

/// On a collection sorted newest first, no page after one that ends before
/// the day holds an item of the day.
pub proof fn lemma_none_after_older<T: Dated>(pages: Seq<Seq<T>>, page: int, day: int)
    requires
        newest_first(pages),
        0 <= page < pages.len(),
        pages[page].len() > 0,
        pages[page].last().day() < day,
    ensures
        none_on(pages, page + 1, pages.len() as int, day),
{
    let last = pages[page].len() - 1;
    assert forall|p: int, i: int|
        page + 1 <= p < pages.len() && 0 <= i < pages[p].len() implies (#[trigger] pages[p][i]).day()
        != day by {
        assert(pages[page][last].day() >= pages[p][i].day());
    }
}

/// On a collection sorted newest first, no page before one that starts after
/// the day holds an item of the day.
pub proof fn lemma_none_before_newer<T: Dated>(pages: Seq<Seq<T>>, page: int, day: int)
    requires
        newest_first(pages),
        0 <= page < pages.len(),
        pages[page].len() > 0,
        pages[page].first().day() > day,
    ensures
        none_on(pages, 0, page, day),
{
    assert forall|p: int, i: int| 0 <= p < page && 0 <= i < pages[p].len() implies (
    #[trigger] pages[p][i]).day() != day by {
        assert(pages[p][i].day() >= pages[page][0].day());
    }
}

/// Where a page holds items of the day and the day does not go on beyond it,
/// no later page holds an item of the day.
pub proof fn lemma_far_side_found<T: Dated>(
    state: LocatorState<T>,
    pages: Seq<Seq<T>>,
    page: int,
)
    requires
        well_paged(pages, state.page_size),
        0 <= page < pages.len(),
        page == state.page_number,
        has_item_on(pages[page], state.target@),
        !state.goes_beyond(pages[page]),
    ensures
        none_on(pages, page + 1, pages.len() as int, state.target@),
{
    let day = state.target@;
    let found = pages[page];
    if found.last().day() != day {
        let i = choose|i: int| 0 <= i < found.len() && #[trigger] found[i].day() == day;
        assert(pages[page][i].day() >= pages[page][found.len() - 1].day());
        lemma_none_after_older(pages, page, day);
    } else {
        assert(page == pages.len() - 1);
    }
}

/// Where a page holds items of the day and the day does not start before
/// it, no earlier page holds an item of the day.
pub proof fn lemma_near_side_found<T: Dated>(
    state: LocatorState<T>,
    pages: Seq<Seq<T>>,
    page: int,
)
    requires
        well_paged(pages, state.page_size),
        0 <= page < pages.len(),
        page == state.page_number,
        has_item_on(pages[page], state.target@),
        !state.goes_before(pages[page]),
    ensures
        none_on(pages, 0, page, state.target@),
{
    let day = state.target@;
    let found = pages[page];
    if page > 0 {
        let i = choose|i: int| 0 <= i < found.len() && #[trigger] found[i].day() == day;
        assert(pages[page][0].day() >= pages[page][i].day());
        lemma_none_before_newer(pages, page, day);
    }
}

/// Where no page before or after a window holds an item of the day, what is
/// gathered from the window is what is gathered from the whole collection.
pub proof fn lemma_window_holds_all<T: Dated>(
    pages: Seq<Seq<T>>,
    first: int,
    last: int,
    day: int,
)
    requires
        0 <= first <= last < pages.len(),
        none_on(pages, 0, first, day),
        none_on(pages, last + 1, pages.len() as int, day),
    ensures
        gathered(pages, 0, pages.len() as int, day) == gathered(pages, first, last + 1, day),
{
    let all = pages.len() as int;
    lemma_gathered_split(pages, 0, first, all, day);
    lemma_gathered_split(pages, first, last + 1, all, day);
    lemma_gathered_nothing(pages, 0, first, day);
    lemma_gathered_nothing(pages, last + 1, all, day);
    assert(Seq::<T>::empty() + (gathered(pages, first, last + 1, day) + Seq::<T>::empty())
        == gathered(pages, first, last + 1, day));
}

/// A page next to one that holds items of the day, and itself without any,
/// bounds the day on its side.
pub proof fn lemma_day_ends_at_gap<T: Dated>(pages: Seq<Seq<T>>, held: int, gap: int, day: int)
    requires
        newest_first(pages),
        0 <= held < pages.len(),
        0 <= gap < pages.len(),
        gap == held - 1 || gap == held + 1,
        pages[gap].len() > 0,
        has_item_on(pages[held], day),
        !has_item_on(pages[gap], day),
    ensures
        gap < held ==> none_on(pages, 0, held, day),
        gap > held ==> none_on(pages, held + 1, pages.len() as int, day),
{
    let i = choose|i: int| 0 <= i < pages[held].len() && #[trigger] pages[held][i].day() == day;
    let bare = pages[gap];
    let last = bare.len() - 1;
    assert(bare[0].day() != day);
    assert(bare[last].day() != day);
    if gap < held {
        assert(pages[gap][0].day() >= pages[held][i].day());
        assert forall|p: int, j: int| 0 <= p < held && 0 <= j < pages[p].len() implies (
        #[trigger] pages[p][j]).day() != day by {
            if p < gap {
                assert(pages[p][j].day() >= pages[gap][0].day());
            } else {
                assert(bare[j].day() != day);
            }
        }
    } else {
        assert(pages[held][i].day() >= pages[gap][last].day());
        assert forall|p: int, j: int|
            held + 1 <= p < pages.len() && 0 <= j < pages[p].len() implies (
        #[trigger] pages[p][j]).day() != day by {
            if p > gap {
                assert(pages[gap][last].day() >= pages[p][j].day());
            } else {
                assert(bare[j].day() != day);
            }
        }
    }
}

/// Fetching the page it asked for keeps a scan on track.
pub proof fn lemma_step_stays_on_track<T: Dated>(state: LocatorState<T>, pages: Seq<Seq<T>>)
    requires
        well_paged(pages, state.page_size),
        on_track(state, pages),
    ensures
        on_track(state.step(page_of(pages, state.page_number as int)), pages),
{
    let day = state.target@;
    let number = state.page_number as int;
    let page = page_of(pages, number);
    let next = state.step(page);
    let all = pages.len() as int;
    crate::locator::lemma_step_keeps_wf(state, page);
    if state.is_terminal() {
    } else if page.len() == 0 {
        assert(number >= all);
        if state.window is Some {
            let w = state.window->0;
            assert(w.last == all - 1);
            lemma_window_holds_all(pages, w.first as int, w.last as int, day);
        }
    } else if state.phase == Phase::Searching {
        assert(page == pages[number]);
        if has_item_on(page, day) {
            lemma_gathered_one(pages, number, day);
            if !state.goes_beyond(page) {
                lemma_far_side_found(state, pages, number);
            }
            if !state.goes_before(page) {
                lemma_near_side_found(state, pages, number);
            }
            if next.phase == Phase::Done {
                lemma_window_holds_all(pages, number, number, day);
            }
        } else if next.phase == Phase::Done {
            let last = page.len() - 1;
            assert(page[last].day() != day);
            assert(page[0].day() != day);
            lemma_none_after_older(pages, number, day);
            if page[0].day() > day {
                lemma_none_before_newer(pages, number, day);
            }
            assert forall|p: int, i: int|
                0 <= p < all && 0 <= i < pages[p].len() implies (#[trigger] pages[p][i]).day()
                != day by {
                if p == number {
                    assert(page[i].day() != day);
                }
            }
            lemma_gathered_nothing(pages, 0, all, day);
            assert(state.items == Seq::<T>::empty());
        }
    } else {
        let w = state.window->0;
        assert(page == pages[number]);
        if state.walks_back() {
            assert(number == w.first - 1);
            if has_item_on(page, day) {
                lemma_gathered_one(pages, number, day);
                lemma_gathered_split(pages, number, w.first as int, w.last + 1, day);
                if !state.goes_before(page) {
                    lemma_near_side_found(state, pages, number);
                    if !state.far_open {
                        lemma_window_holds_all(pages, number, w.last as int, day);
                    }
                }
            } else {
                lemma_day_ends_at_gap(pages, w.first as int, number, day);
                if !state.far_open {
                    lemma_window_holds_all(pages, w.first as int, w.last as int, day);
                }
            }
        } else {
            assert(number == w.last + 1);
            if has_item_on(page, day) {
                if !state.goes_beyond(page) {
                    lemma_far_side_found(state, pages, number);
                    lemma_window_holds_all(pages, w.first as int, number, day);
                }
            } else {
                lemma_day_ends_at_gap(pages, w.last as int, number, day);
                lemma_window_holds_all(pages, w.first as int, w.last as int, day);
            }
        }
    }
}

/// However many pages it fetches, a scan stays on track.
pub proof fn lemma_run_stays_on_track<T: Dated>(
    state: LocatorState<T>,
    pages: Seq<Seq<T>>,
    steps: nat,
)
    requires
        well_paged(pages, state.page_size),
        on_track(state, pages),
    ensures
        on_track(run(state, pages, steps), pages),
        run(state, pages, steps).page_size == state.page_size,
    decreases steps,
{
    if steps > 0 {
        let next = state.step(page_of(pages, state.page_number as int));
        lemma_step_stays_on_track(state, pages);
        lemma_step_keeps_target(state, page_of(pages, state.page_number as int));
        lemma_run_stays_on_track(next, pages, (steps - 1) as nat);
    }
}

/// A step changes neither the day that is looked for nor the size of a full
/// page.
pub proof fn lemma_step_keeps_target<T: Dated>(state: LocatorState<T>, page: Seq<T>)
    ensures
        state.step(page).target == state.target,
        state.step(page).page_size == state.page_size,
{
}

/// On a collection that is sorted newest first and whose pages are full but
/// for the last, a scan that comes to an end after having met the day, or
/// that ends as done, has gathered exactly the items that count for the day,
/// in the order of the collection: on whatever page it started, and whatever
/// it assumed of the pages that a day fills. A scan that has not met the day
/// has gathered nothing.
pub proof fn lemma_scan_is_exact<T: Dated>(
    pages: Seq<Seq<T>>,
    target: Date,
    start_page: u32,
    pages_per_day: u32,
    page_size: usize,
    steps: nat,
)
    requires
        well_paged(pages, page_size),
    ensures
        ({
            let end = run(
                LocatorState::<T>::initial(target, start_page, pages_per_day, page_size),
                pages,
                steps,
            );
            &&& end.phase == Phase::Done || (end.phase == Phase::Exhausted && end.window is Some)
                ==> end.items == items_on(pages.flatten(), target@)
            &&& end.window is None ==> end.items == Seq::<T>::empty()
        }),
{
    let start = LocatorState::<T>::initial(target, start_page, pages_per_day, page_size);
    lemma_run_stays_on_track(start, pages, steps);
    lemma_run_keeps_target(start, pages, steps);
    lemma_gathered_is_filter_of_all(pages, target@);
}

/// A scan looks for the same day from its first step to its last.
pub proof fn lemma_run_keeps_target<T: Dated>(
    state: LocatorState<T>,
    pages: Seq<Seq<T>>,
    steps: nat,
)
    ensures
        run(state, pages, steps).target == state.target,
    decreases steps,
{
    if steps > 0 {
        let page = page_of(pages, state.page_number as int);
        lemma_step_keeps_target(state, page);
        lemma_run_keeps_target(state.step(page), pages, (steps - 1) as nat);
    }
}

/// The most pages that an extraction still has to fetch: those before its
/// window while it walks toward now, and those after its window.
pub open spec fn pages_left<T: Dated>(state: LocatorState<T>, pages: Seq<Seq<T>>) -> int {
    match state.window {
        Some(w) => if state.walks_back() {
            state.page_number + 1 + (pages.len() - w.last)
        } else {
            pages.len() - w.last
        },
        None => 0,
    }
}

/// A scan that is over stays as it is, whatever is fetched for it.
pub proof fn lemma_run_rests<T: Dated>(state: LocatorState<T>, pages: Seq<Seq<T>>, steps: nat)
    requires
        state.is_terminal(),
    ensures
        run(state, pages, steps) == state,
    decreases steps,
{
    if steps > 0 {
        lemma_run_rests(state, pages, (steps - 1) as nat);
    }
}

/// Once a scan has met the day it comes to an end: an extraction fetches no
/// page twice and is over after at most as many pages as lie before and
/// after its window.
pub proof fn lemma_extraction_ends<T: Dated>(
    state: LocatorState<T>,
    pages: Seq<Seq<T>>,
    steps: nat,
)
    requires
        well_paged(pages, state.page_size),
        on_track(state, pages),
        state.phase == Phase::Extracting,
        steps >= pages_left(state, pages),
    ensures
        run(state, pages, steps).is_terminal(),
    decreases steps,
{
    let number = state.page_number as int;
    let page = page_of(pages, number);
    let next = state.step(page);
    let w = state.window->0;
    assert(pages_left(state, pages) >= 1);
    lemma_step_stays_on_track(state, pages);
    lemma_step_keeps_target(state, page);
    if next.is_terminal() {
        lemma_run_rests(next, pages, (steps - 1) as nat);
    } else {
        assert(page.len() > 0);
        assert(next.phase == Phase::Extracting);
        assert(pages_left(next, pages) < pages_left(state, pages));
        lemma_extraction_ends(next, pages, (steps - 1) as nat);
    }
}

} // verus!
