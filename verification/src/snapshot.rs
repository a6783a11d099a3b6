//! The snapshot of a day: what happened to which issue, each issue once.
//!
//! A snapshot is put together from the events of the day and from the issues
//! created on it. Pull requests are left out, and so are events that say
//! nothing about an issue's state. Where several entries are about the same
//! issue, the first stands for it, events coming before issues: an event on an
//! issue tells more than the issue's creation does.

use vstd::prelude::*;
use crate::model::{Event, EventId, Issue, IssueOrEvent, StateChange};

verus! {

/// Whether a snapshot keeps `entry`: it is not about a pull request and it
/// tells how its issue changed.
pub open spec fn is_kept(entry: IssueOrEvent) -> bool {
    !entry.spec_issue().spec_is_pull_request() && entry.is_state_change()
}

/// The entries that the events and issues of a day make, in the order in
/// which a snapshot considers them: the events that are kept, then the issues
/// that are kept.
pub open spec fn entries_of(events: Seq<Event>, issues: Seq<Issue>) -> Seq<IssueOrEvent> {
    events.map_values(|event: Event| IssueOrEvent::Event(event)).filter(
        |entry: IssueOrEvent| is_kept(entry),
    ) + issues.map_values(|issue: Issue| IssueOrEvent::Issue(issue)).filter(
        |entry: IssueOrEvent| is_kept(entry),
    )
}

/// Whether the entry at `index` is the first of `entries` about its issue.
pub open spec fn is_first_about(entries: Seq<IssueOrEvent>, index: int) -> bool {
    &&& 0 <= index < entries.len()
    &&& forall|j: int| 0 <= j < index ==> (#[trigger] entries[j]).number() != entries[index].number()
}

/// Whether the numbers of `items` go strictly up.
pub open spec fn ascending(items: Seq<IssueOrEvent>) -> bool {
    forall|a: int, b: int|
        0 <= a < b < items.len() ==> (#[trigger] items[a]).number() < (#[trigger] items[b]).number()
}

/// Whether `item` is the first of `entries` about its issue.
pub open spec fn stands_first(entries: Seq<IssueOrEvent>, item: IssueOrEvent) -> bool {
    exists|j: int| #[trigger] is_first_about(entries, j) && entries[j] == item
}

/// Whether some item of `items` is about the issue `number`.
pub open spec fn has_number(items: Seq<IssueOrEvent>, number: u32) -> bool {
    exists|k: int| 0 <= k < items.len() && (#[trigger] items[k]).number() == number
}

/// Whether `items` is the snapshot that `entries` make: sorted by issue
/// number, each of its items the first entry about its issue, and every
/// issue of the entries present.
pub open spec fn is_snapshot_of(items: Seq<IssueOrEvent>, entries: Seq<IssueOrEvent>) -> bool {
    &&& ascending(items)
    &&& forall|k: int| 0 <= k < items.len() ==> #[trigger] stands_first(entries, items[k])
    &&& forall|j: int| 0 <= j < entries.len() ==> #[trigger] has_number(items, entries[j].number())
}

/// The issues of those of `items` that changed their issue as `change`
/// says, in the order of the items.
pub open spec fn issues_changed(items: Seq<IssueOrEvent>, change: StateChange) -> Seq<Issue> {
    items.filter(|entry: IssueOrEvent| entry.spec_state_change() == change).map_values(
        |entry: IssueOrEvent| entry.spec_issue(),
    )
}

/// What is known of a day.
pub struct Issues {
    items: Vec<IssueOrEvent>,
}

impl View for Issues {
    type V = Seq<IssueOrEvent>;

    /// The items, sorted by issue number.
    closed spec fn view(&self) -> Seq<IssueOrEvent> {
        self.items@
    }
}

/// Whether `items` can be the items of a snapshot: sorted by issue number
/// without a number occurring twice, none about a pull request, and each
/// telling how its issue changed.
pub open spec fn is_day_snapshot(items: Seq<IssueOrEvent>) -> bool {
    &&& ascending(items)
    &&& forall|k: int| 0 <= k < items.len() ==> is_kept(#[trigger] items[k])
}

/// An entry that is the first about its issue stays so when another entry
/// is considered after it.
proof fn lemma_first_stays_first(entries: Seq<IssueOrEvent>, entry: IssueOrEvent, item: IssueOrEvent)
    requires
        stands_first(entries, item),
    ensures
        stands_first(entries.push(entry), item),
{
    let longer = entries.push(entry);
    let j = choose|j: int| #[trigger] is_first_about(entries, j) && entries[j] == item;
    assert forall|i: int| 0 <= i < j implies (#[trigger] longer[i]).number() != longer[j].number() by {
        assert(longer[i] == entries[i]);
    }
    assert(is_first_about(longer, j) && longer[j] == item);
}

/// A snapshot stays the snapshot when an entry is considered whose issue it
/// already holds.
proof fn lemma_snapshot_skips(items: Seq<IssueOrEvent>, entries: Seq<IssueOrEvent>, entry: IssueOrEvent)
    requires
        is_snapshot_of(items, entries),
        has_number(items, entry.number()),
    ensures
        is_snapshot_of(items, entries.push(entry)),
{
    let longer = entries.push(entry);
    assert forall|k: int| 0 <= k < items.len() implies #[trigger] stands_first(longer, items[k]) by {
        assert(stands_first(entries, items[k]));
        lemma_first_stays_first(entries, entry, items[k]);
    }
    assert forall|j: int| 0 <= j < longer.len() implies #[trigger] has_number(
        items,
        longer[j].number(),
    ) by {
        if j < entries.len() {
            assert(longer[j] == entries[j]);
            assert(has_number(items, entries[j].number()));
        }
    }
}

/// Putting an entry about a new issue at its place in a snapshot gives the
/// snapshot of the entries with that entry considered last.
proof fn lemma_snapshot_takes(
    items: Seq<IssueOrEvent>,
    entries: Seq<IssueOrEvent>,
    entry: IssueOrEvent,
    at: int,
)
    requires
        is_kept(entry),
        is_day_snapshot(items),
        is_snapshot_of(items, entries),
        0 <= at <= items.len(),
        forall|k: int| 0 <= k < at ==> (#[trigger] items[k]).number() < entry.number(),
        forall|k: int| at <= k < items.len() ==> (#[trigger] items[k]).number() > entry.number(),
    ensures
        is_day_snapshot(items.insert(at, entry)),
        is_snapshot_of(items.insert(at, entry), entries.push(entry)),
{
    let longer = entries.push(entry);
    let after = items.insert(at, entry);
    let last = entries.len() as int;
    assert forall|i: int| 0 <= i < last implies (#[trigger] longer[i]).number() != entry.number() by {
        assert(longer[i] == entries[i]);
        assert(has_number(items, entries[i].number()));
    }
    assert(is_first_about(longer, last) && longer[last] == entry);
    assert forall|k: int| 0 <= k < after.len() implies #[trigger] stands_first(longer, after[k])
        && is_kept(after[k]) by {
        if k == at {
            assert(after[k] == entry);
        } else {
            let k0 = if k < at { k } else { k - 1 };
            assert(after[k] == items[k0]);
            assert(stands_first(entries, items[k0]));
            lemma_first_stays_first(entries, entry, items[k0]);
        }
    }
    assert forall|a: int, b: int| 0 <= a < b < after.len() implies (#[trigger] after[a]).number() < (
    #[trigger] after[b]).number() by {
        let a0 = if a < at { a } else { a - 1 };
        let b0 = if b < at { b } else { b - 1 };
        if a != at {
            assert(after[a] == items[a0]);
        }
        if b != at {
            assert(after[b] == items[b0]);
        }
    }
    assert forall|j: int| 0 <= j < longer.len() implies #[trigger] has_number(
        after,
        longer[j].number(),
    ) by {
        if j < last {
            assert(longer[j] == entries[j]);
            assert(has_number(items, entries[j].number()));
            let k0 = choose|k: int|
                0 <= k < items.len() && (#[trigger] items[k]).number() == entries[j].number();
            let k = if k0 < at { k0 } else { k0 + 1 };
            assert(after[k] == items[k0]);
        } else {
            assert(after[at] == entry);
        }
    }
}

/// Puts `entry` into `items` at the place that its issue number gives it,
/// unless an item about that issue is there already.
fn place(items: &mut Vec<IssueOrEvent>, entry: IssueOrEvent, Ghost(entries): Ghost<Seq<IssueOrEvent>>)
    requires
        is_kept(entry),
        is_day_snapshot(old(items)@),
        is_snapshot_of(old(items)@, entries),
    ensures
        is_day_snapshot(final(items)@),
        is_snapshot_of(final(items)@, entries.push(entry)),
{
    let number = entry.issue().number;
    let mut at: usize = 0;
    while at < items.len() && items[at].issue().number < number
        invariant
            at <= items@.len(),
            items@ == old(items)@,
            forall|k: int| 0 <= k < at ==> (#[trigger] items@[k]).number() < number,
        decreases items@.len() - at,
    {
        at += 1;
    }
    if at < items.len() && items[at].issue().number == number {
        proof {
            assert(items@[at as int].number() == entry.number());
            lemma_snapshot_skips(items@, entries, entry);
        }
    } else {
        proof {
            assert forall|k: int| at <= k < items@.len() implies (#[trigger] items@[k]).number()
                > number by {
                if k > at {
                    assert(items@[at as int].number() < items@[k].number());
                }
            }
            lemma_snapshot_takes(items@, entries, entry, at as int);
        }
        items.insert(at, entry);
    }
}

/// In a sequence whose numbers go strictly up, the number at each place is
/// at least the place, so there are no more items than issue numbers.
proof fn lemma_ascending_is_bounded(items: Seq<IssueOrEvent>, k: int)
    requires
        ascending(items),
        0 <= k < items.len(),
    ensures
        items[k].number() >= k,
    decreases k,
{
    if k > 0 {
        lemma_ascending_is_bounded(items, k - 1);
        assert(items[k - 1].number() < items[k].number());
    }
}

/// In a snapshot no two items are about the same issue, and no item is about
/// a pull request.
pub proof fn lemma_snapshot_holds_each_issue_once(items: Seq<IssueOrEvent>)
    requires
        is_day_snapshot(items),
    ensures
        forall|a: int, b: int|
            0 <= a < items.len() && 0 <= b < items.len() && a != b ==> (#[trigger] items[a]).number()
                != (#[trigger] items[b]).number(),
        forall|k: int|
            0 <= k < items.len() ==> !(#[trigger] items[k]).spec_issue().spec_is_pull_request(),
{
    assert forall|a: int, b: int|
        0 <= a < items.len() && 0 <= b < items.len() && a != b implies (#[trigger] items[a]).number()
        != (#[trigger] items[b]).number() by {
        if a < b {
            assert(items[a].number() < items[b].number());
        } else {
            assert(items[b].number() < items[a].number());
        }
    }
    assert forall|k: int| 0 <= k < items.len() implies !(
    #[trigger] items[k]).spec_issue().spec_is_pull_request() by {
        assert(is_kept(items[k]));
    }
}

/// Entries have one snapshot only.
pub proof fn lemma_snapshot_is_unique(
    one: Seq<IssueOrEvent>,
    other: Seq<IssueOrEvent>,
    entries: Seq<IssueOrEvent>,
)
    requires
        is_snapshot_of(one, entries),
        is_snapshot_of(other, entries),
    ensures
        one == other,
{
    lemma_snapshot_prefix_agrees(one, other, entries, one.len() as int);
    lemma_snapshot_prefix_agrees(other, one, entries, other.len() as int);
    if one.len() < other.len() {
        lemma_snapshot_prefix_agrees(other, one, entries, one.len() as int + 1);
    }
    if other.len() < one.len() {
        lemma_snapshot_prefix_agrees(one, other, entries, other.len() as int + 1);
    }
    assert(one =~= other);
}

/// Two snapshots of the same entries agree on their first `count` items, as
/// far as the first of them has that many.
proof fn lemma_snapshot_prefix_agrees(
    one: Seq<IssueOrEvent>,
    other: Seq<IssueOrEvent>,
    entries: Seq<IssueOrEvent>,
    count: int,
)
    requires
        is_snapshot_of(one, entries),
        is_snapshot_of(other, entries),
        0 <= count <= one.len(),
    ensures
        count <= other.len(),
        forall|k: int| 0 <= k < count ==> one[k] == other[k],
    decreases count,
{
    if count > 0 {
        lemma_snapshot_prefix_agrees(one, other, entries, count - 1);
        let k = count - 1;
        // the item of `one` at k stands first among the entries, so `other`
        // holds an item with its number, at a place m
        assert(stands_first(entries, one[k]));
        let j = choose|j: int| #[trigger] is_first_about(entries, j) && entries[j] == one[k];
        assert(has_number(other, entries[j].number()));
        let m = choose|m: int|
            0 <= m < other.len() && (#[trigger] other[m]).number() == entries[j].number();
        if m < k {
            assert(one[m] == other[m]);
            assert(one[m].number() < one[k].number());
        }
        if m > k {
            // then the item of `other` at k has a smaller number, which `one`
            // must hold too, at a place before k, where both agree
            assert(other[k].number() < other[m].number());
            assert(stands_first(entries, other[k]));
            let i = choose|i: int| #[trigger] is_first_about(entries, i) && entries[i] == other[k];
            assert(has_number(one, entries[i].number()));
            let n = choose|n: int|
                0 <= n < one.len() && (#[trigger] one[n]).number() == entries[i].number();
            if n < k {
                assert(one[n] == other[n]);
                assert(other[n].number() < other[k].number());
            } else if n > k {
                assert(one[k].number() < one[n].number());
            }
        }
        assert(m == k);
        // both items are the first entry with their number
        assert(stands_first(entries, other[k]));
        let i = choose|i: int| #[trigger] is_first_about(entries, i) && entries[i] == other[k];
        if i < j {
            assert(entries[i].number() != entries[j].number());
        }
        if j < i {
            assert(entries[j].number() != entries[i].number());
        }
    }
}

impl Issues {
    #[verifier::type_invariant]
    spec fn sorted_and_kept(self) -> bool {
        is_day_snapshot(self.items@)
    }

    /// The snapshot that the events and the issues of a day make.
    pub fn merge(events: Vec<Event>, issues: Vec<Issue>) -> (snapshot: Issues)
        ensures
            is_day_snapshot(snapshot@),
            is_snapshot_of(snapshot@, entries_of(events@, issues@)),
    {
        let ghost all_events = events@;
        let ghost all_issues = issues@;
        let ghost from_event = |event: Event| IssueOrEvent::Event(event);
        let ghost from_issue = |issue: Issue| IssueOrEvent::Issue(issue);
        let ghost kept = |entry: IssueOrEvent| is_kept(entry);
        let mut items: Vec<IssueOrEvent> = Vec::new();
        let ghost mut done: Seq<IssueOrEvent> = Seq::empty();
        proof {
            reveal(Seq::filter);
            assert(all_events.take(0).map_values(from_event) == Seq::<IssueOrEvent>::empty());
        }
        for event in it: events
            invariant
                it.seq() == all_events,
                from_event == (|event: Event| IssueOrEvent::Event(event)),
                kept == (|entry: IssueOrEvent| is_kept(entry)),
                is_day_snapshot(items@),
                is_snapshot_of(items@, done),
                done == all_events.take(it.index() as int).map_values(from_event).filter(kept),
        {
            let entry = IssueOrEvent::Event(event);
            proof {
                let seen = all_events.take(it.index() as int).map_values(from_event);
                let more = all_events.take(it.index() + 1).map_values(from_event);
                assert(more.drop_last() == seen);
                assert(more.last() == entry);
                reveal_with_fuel(Seq::filter, 2);
                assert(more.filter(kept) == if kept(entry) {
                    seen.filter(kept).push(entry)
                } else {
                    seen.filter(kept)
                });
            }
            if !entry.issue().is_pull_request() && entry.has_state_change() {
                place(&mut items, entry, Ghost(done));
                proof {
                    done = done.push(entry);
                }
            }
        }
        let ghost from_events = done;
        proof {
            assert(all_events.take(all_events.len() as int) == all_events);
            reveal(Seq::filter);
            assert(all_issues.take(0).map_values(from_issue) == Seq::<IssueOrEvent>::empty());
            assert(from_events + Seq::<IssueOrEvent>::empty() == from_events);
        }
        for issue in it: issues
            invariant
                it.seq() == all_issues,
                from_issue == (|issue: Issue| IssueOrEvent::Issue(issue)),
                kept == (|entry: IssueOrEvent| is_kept(entry)),
                is_day_snapshot(items@),
                is_snapshot_of(items@, done),
                done == from_events + all_issues.take(it.index() as int).map_values(
                    from_issue,
                ).filter(kept),
        {
            let entry = IssueOrEvent::Issue(issue);
            proof {
                let seen = all_issues.take(it.index() as int).map_values(from_issue);
                let more = all_issues.take(it.index() + 1).map_values(from_issue);
                assert(more.drop_last() == seen);
                assert(more.last() == entry);
                reveal_with_fuel(Seq::filter, 2);
                assert(more.filter(kept) == if kept(entry) {
                    seen.filter(kept).push(entry)
                } else {
                    seen.filter(kept)
                });
                assert((from_events + seen.filter(kept)).push(entry) == from_events
                    + seen.filter(kept).push(entry));
            }
            if !entry.issue().is_pull_request() {
                place(&mut items, entry, Ghost(done));
                proof {
                    done = done.push(entry);
                }
            }
        }
        proof {
            assert(all_issues.take(all_issues.len() as int) == all_issues);
        }
        Issues { items }
    }

    /// The items of the snapshot, sorted by issue number.
    pub fn items(&self) -> (items: &Vec<IssueOrEvent>)
        ensures
            items@ == self@,
            is_day_snapshot(self@),
    {
        proof {
            use_type_invariant(self);
        }
        &self.items
    }

    /// How many items the snapshot holds: one for each issue, so no more
    /// than there are issue numbers.
    pub fn len(&self) -> (count: usize)
        ensures
            count == self@.len(),
            count <= 0x1_0000_0000,
    {
        proof {
            use_type_invariant(self);
            if self.items@.len() > 0 {
                lemma_ascending_is_bounded(self.items@, self.items@.len() - 1);
            }
        }
        self.items.len()
    }

    /// The issues of the items that changed their issue as `change` says.
    fn changed(&self, change: StateChange) -> (issues: Vec<&Issue>)
        ensures
            issues@.map_values(|issue: &Issue| *issue) == issues_changed(self@, change),
    {
        proof {
            use_type_invariant(self);
        }
        let ghost same = |entry: IssueOrEvent| entry.spec_state_change() == change;
        let ghost about = |entry: IssueOrEvent| entry.spec_issue();
        let ghost held = |issue: &Issue| *issue;
        let mut issues: Vec<&Issue> = Vec::new();
        let mut i: usize = 0;
        proof {
            reveal(Seq::filter);
            assert(self.items@.take(0).filter(same).map_values(about) == Seq::<Issue>::empty());
            assert(issues@.map_values(held) == Seq::<Issue>::empty());
        }
        while i < self.items.len()
            invariant
                i <= self.items@.len(),
                is_day_snapshot(self.items@),
                same == (|entry: IssueOrEvent| entry.spec_state_change() == change),
                about == (|entry: IssueOrEvent| entry.spec_issue()),
                held == (|issue: &Issue| *issue),
                issues@.map_values(held) == self.items@.take(i as int).filter(same).map_values(
                    about,
                ),
            decreases self.items@.len() - i,
        {
            let entry = &self.items[i];
            proof {
                let seen = self.items@.take(i as int);
                let more = self.items@.take(i + 1);
                assert(more.drop_last() == seen);
                assert(more.last() == *entry);
                reveal_with_fuel(Seq::filter, 2);
                assert(more.filter(same) == if same(*entry) {
                    seen.filter(same).push(*entry)
                } else {
                    seen.filter(same)
                });
                assert(seen.filter(same).push(*entry).map_values(about) == seen.filter(
                    same,
                ).map_values(about).push(entry.spec_issue()));
                assert(is_kept(self.items@[i as int]));
            }
            if entry.state_change() == change {
                let ghost before = issues@;
                issues.push(entry.issue());
                proof {
                    assert(issues@.map_values(held) == before.map_values(held).push(
                        entry.spec_issue(),
                    ));
                }
            }
            i += 1;
        }
        proof {
            assert(self.items@.take(i as int) == self.items@);
        }
        issues
    }

    /// The issues that were opened or reopened on the day.
    pub fn opened(&self) -> (issues: Vec<&Issue>)
        ensures
            issues@.map_values(|issue: &Issue| *issue) == issues_changed(
                self@,
                StateChange::Opened,
            ),
    {
        self.changed(StateChange::Opened)
    }

    /// The issues that were closed on the day.
    pub fn closed(&self) -> (issues: Vec<&Issue>)
        ensures
            issues@.map_values(|issue: &Issue| *issue) == issues_changed(
                self@,
                StateChange::Closed,
            ),
    {
        self.changed(StateChange::Closed)
    }

    /// By how many the open issues grew on the day: the issues opened less
    /// the issues closed.
    pub fn diff(&self) -> (net: i64)
        ensures
            net == issues_changed(self@, StateChange::Opened).len() - issues_changed(
                self@,
                StateChange::Closed,
            ).len(),
            -0x1_0000_0000 <= net <= 0x1_0000_0000,
    {
        let opened = self.opened();
        let closed = self.closed();
        proof {
            use_type_invariant(self);
            let open_entries = self.items@.filter(
                |entry: IssueOrEvent| entry.spec_state_change() == StateChange::Opened,
            );
            let closed_entries = self.items@.filter(
                |entry: IssueOrEvent| entry.spec_state_change() == StateChange::Closed,
            );
            self.items@.lemma_filter_len(
                |entry: IssueOrEvent| entry.spec_state_change() == StateChange::Opened,
            );
            self.items@.lemma_filter_len(
                |entry: IssueOrEvent| entry.spec_state_change() == StateChange::Closed,
            );
            if self.items@.len() > 0 {
                lemma_ascending_is_bounded(self.items@, self.items@.len() - 1);
            }
            assert(opened@.len() == opened@.map_values(|issue: &Issue| *issue).len());
            assert(closed@.len() == closed@.map_values(|issue: &Issue| *issue).len());
            assert(opened@.len() <= 0x1_0000_0000);
            assert(closed@.len() <= 0x1_0000_0000);
        }
        opened.len() as i64 - closed.len() as i64
    }
}

} // verus!
