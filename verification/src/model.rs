//! The items of the remote collection: issues, the events that open and
//! close them, and comments.

use vstd::prelude::*;
use vstd::string::StringExecFns;
use crate::estimator::{estimate_start_page, start_page, PageHint};
use crate::text::{decimal, decimal_text};
use crate::time::{day_of_second, Date, Instant};

verus! {

/// An item that belongs to a calendar day.
pub trait Dated {
    /// The day number of the day the item is dated to.
    spec fn day(&self) -> int;

    /// Whether the item counts among the items of the day numbered `day`.
    spec fn counts_on(&self, day: int) -> bool;

    /// An item counts on no day but its own.
    proof fn lemma_counts_on_own_day(&self, day: int)
        ensures
            self.counts_on(day) ==> self.day() == day,
    ;

    /// The day the item is dated to.
    fn date(&self) -> (date: Date)
        ensures
            date@ == self.day(),
    ;

    /// Whether the item counts among the items of `date`.
    fn is_relevant_for_date(&self, date: &Date) -> (relevant: bool)
        ensures
            relevant == self.counts_on(date@),
    ;
}

/// A kind of item whose feed fills pages at a known average rate.
pub trait Paged {
    /// The pages that a day of the feed is first assumed to fill.
    spec fn pages_per_day() -> u32;

    /// The rate from which a starting page is guessed.
    spec fn page_hint() -> PageHint;

    /// The rate is counted over at least one day.
    proof fn lemma_page_hint_wf()
        ensures
            Self::page_hint().wf(),
    ;

    /// The pages that a day of the feed is first assumed to fill.
    fn estimated_pages_per_day() -> (pages: u32)
        ensures
            pages == Self::pages_per_day(),
    ;

    /// The best guess at the page on which the items of `date` start, seen
    /// from `today`.
    fn page_for_date(date: &Date, today: &Date) -> (page: u32)
        ensures
            page == start_page(today@ - date@, Self::page_hint()),
    ;
}

/// Marks an issue as a pull request.
#[derive(Clone, Copy, Debug, PartialEq, Eq, Structural)]
pub struct PullRequest {}

/// A trackable unit of the remote collection.
#[derive(Debug, PartialEq, Eq)]
pub struct Issue {
    /// The identifier: unique and stable.
    pub number: u32,
    pub title: String,
    /// How many comments the issue has.
    pub comments: u32,
    /// Present when the issue is a pull request.
    pub pull_request: Option<PullRequest>,
    pub created_at: Instant,
}

impl Clone for Issue {
    fn clone(&self) -> (copy: Self)
        ensures
            copy == *self,
    {
        Issue {
            number: self.number,
            title: self.title.clone(),
            comments: self.comments,
            pull_request: self.pull_request,
            created_at: self.created_at,
        }
    }
}

impl Issue {
    /// Whether the issue is a pull request.
    pub open spec fn spec_is_pull_request(&self) -> bool {
        self.pull_request is Some
    }

    /// Whether the issue is a pull request.
    #[verifier::when_used_as_spec(spec_is_pull_request)]
    pub fn is_pull_request(&self) -> (pull: bool)
        ensures
            pull == self.spec_is_pull_request(),
    {
        self.pull_request.is_some()
    }
}

impl Issue {
    /// The issue as it is listed: a hash sign, its number, a colon and its
    /// title.
    pub open spec fn label_text(&self) -> Seq<char> {
        "#"@ + decimal(self.number as nat) + ": "@ + self.title@
    }

    /// The issue as it is listed.
    pub fn label(&self) -> (text: String)
        ensures
            text@ == self.label_text(),
    {
        let mut text = "#".to_owned();
        text.append(decimal_text(self.number as u128).as_str());
        text.append(": ");
        text.append(self.title.as_str());
        text
    }
}

impl Dated for Issue {
    open spec fn day(&self) -> int {
        day_of_second(self.created_at@)
    }

    open spec fn counts_on(&self, day: int) -> bool {
        self.day() == day
    }

    proof fn lemma_counts_on_own_day(&self, day: int) {
    }

    fn date(&self) -> (date: Date) {
        self.created_at.date()
    }

    fn is_relevant_for_date(&self, date: &Date) -> (relevant: bool) {
        self.date().same_day(date)
    }
}

impl Paged for Issue {
    open spec fn pages_per_day() -> u32 {
        1
    }

    open spec fn page_hint() -> PageHint {
        PageHint { pages: 1, per_days: 6, yesterday_page: 0 }
    }

    proof fn lemma_page_hint_wf() {
    }

    fn estimated_pages_per_day() -> (pages: u32) {
        1
    }

    fn page_for_date(date: &Date, today: &Date) -> (page: u32) {
        let hint = PageHint { pages: 1, per_days: 6, yesterday_page: 0 };
        estimate_start_page(date, today, &hint)
    }
}

/// Who caused an event.
#[derive(Debug, PartialEq, Eq)]
pub struct Actor {
    pub login: String,
}

impl Clone for Actor {
    fn clone(&self) -> (copy: Self)
        ensures
            copy == *self,
    {
        Actor { login: self.login.clone() }
    }
}

/// What an event did to its issue.
#[derive(Clone, Copy, Debug, PartialEq, Eq, Structural)]
pub enum EventId {
    Closed,
    Reopened,
    /// Any other kind of event; it says nothing about the issue's state.
    Unknown,
}

/// A record of something that happened to an issue.
#[derive(Debug, PartialEq, Eq)]
pub struct Event {
    pub actor: Actor,
    pub id: EventId,
    pub issue: Issue,
    pub when: Instant,
}

impl Clone for Event {
    fn clone(&self) -> (copy: Self)
        ensures
            copy == *self,
    {
        Event {
            actor: self.actor.clone(),
            id: self.id,
            issue: self.issue.clone(),
            when: self.when,
        }
    }
}

impl Event {
    /// Whether the event's issue is a pull request.
    pub open spec fn spec_is_pull_request(&self) -> bool {
        self.issue.spec_is_pull_request()
    }

    /// Whether the event's issue is a pull request.
    #[verifier::when_used_as_spec(spec_is_pull_request)]
    pub fn is_pull_request(&self) -> (pull: bool)
        ensures
            pull == self.spec_is_pull_request(),
    {
        self.issue.is_pull_request()
    }
}

impl Dated for Event {
    open spec fn day(&self) -> int {
        day_of_second(self.when@)
    }

    open spec fn counts_on(&self, day: int) -> bool {
        self.id != EventId::Unknown && self.day() == day
    }

    proof fn lemma_counts_on_own_day(&self, day: int) {
    }

    fn date(&self) -> (date: Date) {
        self.when.date()
    }

    fn is_relevant_for_date(&self, date: &Date) -> (relevant: bool) {
        match self.id {
            EventId::Unknown => false,
            _ => self.date().same_day(date),
        }
    }
}

impl Paged for Event {
    open spec fn pages_per_day() -> u32 {
        4
    }

    open spec fn page_hint() -> PageHint {
        PageHint { pages: 4, per_days: 1, yesterday_page: 4 }
    }

    proof fn lemma_page_hint_wf() {
    }

    fn estimated_pages_per_day() -> (pages: u32) {
        4
    }

    fn page_for_date(date: &Date, today: &Date) -> (page: u32) {
        let hint = PageHint { pages: 4, per_days: 1, yesterday_page: 4 };
        estimate_start_page(date, today, &hint)
    }
}

/// A comment on an issue.
#[derive(Debug, PartialEq, Eq)]
pub struct Comment {
    pub body: String,
    pub created_at: Instant,
}

impl Clone for Comment {
    fn clone(&self) -> (copy: Self)
        ensures
            copy == *self,
    {
        Comment { body: self.body.clone(), created_at: self.created_at }
    }
}

impl Comment {
    /// The day number of the day the comment was made.
    pub open spec fn day(&self) -> int {
        day_of_second(self.created_at@)
    }

    /// The day the comment was made.
    pub fn date(&self) -> (date: Date)
        ensures
            date@ == self.day(),
    {
        self.created_at.date()
    }
}

/// Whether an item opened or closed its issue.
#[derive(Clone, Copy, Debug, PartialEq, Eq, Structural)]
pub enum StateChange {
    Opened,
    Closed,
}

/// One entry of a day: an issue created that day, or an event of that day.
#[derive(Debug, PartialEq, Eq)]
pub enum IssueOrEvent {
    Issue(Issue),
    Event(Event),
}

impl Clone for IssueOrEvent {
    fn clone(&self) -> (copy: Self)
        ensures
            copy == *self,
    {
        match self {
            IssueOrEvent::Issue(issue) => IssueOrEvent::Issue(issue.clone()),
            IssueOrEvent::Event(event) => IssueOrEvent::Event(event.clone()),
        }
    }
}

impl IssueOrEvent {
    /// The issue that the entry is about.
    pub open spec fn spec_issue(&self) -> Issue {
        match self {
            IssueOrEvent::Issue(issue) => *issue,
            IssueOrEvent::Event(event) => event.issue,
        }
    }

    /// The identifier of the issue that the entry is about.
    pub open spec fn number(&self) -> u32 {
        self.spec_issue().number
    }

    /// Whether the entry tells how its issue changed: every entry does but an
    /// event of unknown kind.
    pub open spec fn is_state_change(&self) -> bool {
        match self {
            IssueOrEvent::Issue(_) => true,
            IssueOrEvent::Event(event) => event.id != EventId::Unknown,
        }
    }

    /// How the entry changed its issue: a new issue is opened, and so is a
    /// reopened one.
    pub open spec fn spec_state_change(&self) -> StateChange {
        match self {
            IssueOrEvent::Issue(_) => StateChange::Opened,
            IssueOrEvent::Event(event) => match event.id {
                EventId::Closed => StateChange::Closed,
                _ => StateChange::Opened,
            },
        }
    }

    /// The issue that the entry is about.
    pub fn issue(&self) -> (issue: &Issue)
        ensures
            *issue == self.spec_issue(),
    {
        match self {
            IssueOrEvent::Issue(issue) => issue,
            IssueOrEvent::Event(event) => &event.issue,
        }
    }

    /// Whether the entry tells how its issue changed.
    pub fn has_state_change(&self) -> (known: bool)
        ensures
            known == self.is_state_change(),
    {
        match self {
            IssueOrEvent::Issue(_) => true,
            IssueOrEvent::Event(event) => match event.id {
                EventId::Unknown => false,
                _ => true,
            },
        }
    }

    /// How the entry changed its issue. An event of unknown kind changed
    /// nothing and must not be asked.
    pub fn state_change(&self) -> (change: StateChange)
        requires
            self.is_state_change(),
        ensures
            change == self.spec_state_change(),
    {
        match self {
            IssueOrEvent::Issue(_) => StateChange::Opened,
            IssueOrEvent::Event(event) => match event.id {
                EventId::Closed => StateChange::Closed,
                _ => StateChange::Opened,
            },
        }
    }
}

} // verus!
