use triage_tracker::error::{Error, STATUS_FORBIDDEN};
use triage_tracker::estimator::{estimate_start_page, PageHint};
use triage_tracker::model::{
    Actor, Comment, Dated, Event, EventId, Issue, IssueOrEvent, Paged, PullRequest, StateChange,
};
use triage_tracker::time::{Date, Instant};

const DAY: i64 = 86_400;
const BASE_DAY: i32 = 737_791;

fn date(offset: i32) -> Date {
    Date::from_days(BASE_DAY + offset).unwrap()
}

fn instant_on(offset: i32, second: i64) -> Instant {
    Instant::from_secs((BASE_DAY as i64 + offset as i64 - 719_163) * DAY + second).unwrap()
}

fn issue(number: u32, offset: i32) -> Issue {
    Issue {
        number,
        title: format!("issue {}", number),
        comments: 0,
        pull_request: None,
        created_at: instant_on(offset, 3_600),
    }
}

fn event(id: EventId, number: u32, offset: i32) -> Event {
    Event {
        actor: Actor { login: "someone".to_string() },
        id,
        issue: issue(number, offset - 10),
        when: instant_on(offset, 7_200),
    }
}

#[test]
fn today_starts_on_the_first_page() {
    let hint = PageHint { pages: 4, per_days: 1, yesterday_page: 4 };
    assert_eq!(estimate_start_page(&date(0), &date(0), &hint), 0);
}

#[test]
fn a_day_to_come_starts_on_the_first_page() {
    let hint = PageHint { pages: 4, per_days: 1, yesterday_page: 4 };
    assert_eq!(estimate_start_page(&date(3), &date(0), &hint), 0);
}

#[test]
fn yesterday_starts_on_the_fixed_page() {
    let hint = PageHint { pages: 4, per_days: 1, yesterday_page: 9 };
    assert_eq!(estimate_start_page(&date(-1), &date(0), &hint), 9);
}

#[test]
fn older_days_start_at_days_times_rate_rounded_down() {
    let whole = PageHint { pages: 4, per_days: 1, yesterday_page: 4 };
    assert_eq!(estimate_start_page(&date(-2), &date(0), &whole), 8);
    assert_eq!(estimate_start_page(&date(-10), &date(0), &whole), 40);
    let sixth = PageHint { pages: 1, per_days: 6, yesterday_page: 0 };
    assert_eq!(estimate_start_page(&date(-2), &date(0), &sixth), 0);
    assert_eq!(estimate_start_page(&date(-6), &date(0), &sixth), 1);
    assert_eq!(estimate_start_page(&date(-13), &date(0), &sixth), 2);
    let odd = PageHint { pages: 5, per_days: 3, yesterday_page: 1 };
    assert_eq!(estimate_start_page(&date(-7), &date(0), &odd), 11);
}

#[test]
fn the_estimate_is_held_to_the_last_page_index() {
    let steep = PageHint { pages: u32::MAX, per_days: 1, yesterday_page: 0 };
    assert_eq!(estimate_start_page(&date(-2), &date(0), &steep), u32::MAX);
    let first = Date::from_days(triage_tracker::time::MIN_DAY).unwrap();
    let last = Date::from_days(triage_tracker::time::MAX_DAY).unwrap();
    let some = PageHint { pages: 100, per_days: 1, yesterday_page: 0 };
    assert_eq!(estimate_start_page(&first, &last, &some), u32::MAX);
}

#[test]
fn events_and_issues_have_their_own_rates() {
    assert_eq!(<Event as Paged>::estimated_pages_per_day(), 4);
    assert_eq!(<Issue as Paged>::estimated_pages_per_day(), 1);
    assert_eq!(<Event as Paged>::page_for_date(&date(0), &date(0)), 0);
    assert_eq!(<Event as Paged>::page_for_date(&date(-1), &date(0)), 4);
    assert_eq!(<Event as Paged>::page_for_date(&date(-3), &date(0)), 12);
    assert_eq!(<Issue as Paged>::page_for_date(&date(0), &date(0)), 0);
    assert_eq!(<Issue as Paged>::page_for_date(&date(-1), &date(0)), 0);
    assert_eq!(<Issue as Paged>::page_for_date(&date(-5), &date(0)), 0);
    assert_eq!(<Issue as Paged>::page_for_date(&date(-6), &date(0)), 1);
    assert_eq!(<Issue as Paged>::page_for_date(&date(-365), &date(0)), 60);
}

#[test]
fn an_issue_is_dated_to_its_creation() {
    let it = issue(1, -3);
    assert_eq!(it.date(), date(-3));
    assert!(it.is_relevant_for_date(&date(-3)));
    assert!(!it.is_relevant_for_date(&date(-2)));
    assert!(!it.is_relevant_for_date(&date(-4)));
}

#[test]
fn an_event_is_dated_to_when_it_happened() {
    let closed = event(EventId::Closed, 1, -3);
    assert_eq!(closed.date(), date(-3));
    assert!(closed.is_relevant_for_date(&date(-3)));
    assert!(!closed.is_relevant_for_date(&date(-13)));
    let reopened = event(EventId::Reopened, 1, -3);
    assert!(reopened.is_relevant_for_date(&date(-3)));
}

#[test]
fn an_event_of_unknown_kind_is_relevant_for_no_day() {
    let unknown = event(EventId::Unknown, 1, -3);
    assert_eq!(unknown.date(), date(-3));
    assert!(!unknown.is_relevant_for_date(&date(-3)));
    assert!(!unknown.is_relevant_for_date(&date(-2)));
}

#[test]
fn relevance_is_at_least_as_strict_as_the_date() {
    let events = [
        event(EventId::Closed, 1, -3),
        event(EventId::Reopened, 2, 0),
        event(EventId::Unknown, 3, -1),
    ];
    for offset in -5..3 {
        for each in events.iter() {
            if each.is_relevant_for_date(&date(offset)) {
                assert_eq!(each.date(), date(offset));
            }
        }
        let it = issue(9, -2);
        if it.is_relevant_for_date(&date(offset)) {
            assert_eq!(it.date(), date(offset));
        }
    }
}

#[test]
fn pull_requests_are_told_by_their_mark() {
    let mut it = issue(1, 0);
    assert!(!it.is_pull_request());
    it.pull_request = Some(PullRequest {});
    assert!(it.is_pull_request());
    let mut about = event(EventId::Closed, 1, 0);
    assert!(!about.is_pull_request());
    about.issue.pull_request = Some(PullRequest {});
    assert!(about.is_pull_request());
}

#[test]
fn an_issue_is_listed_by_number_and_title() {
    let mut it = issue(4_821, 0);
    it.title = "ICE on nightly".to_string();
    assert_eq!(it.label(), "#4821: ICE on nightly");
    it.title = String::new();
    it.number = 0;
    assert_eq!(it.label(), "#0: ");
}

#[test]
fn entries_tell_their_issue_and_its_change() {
    let created = IssueOrEvent::Issue(issue(5, 0));
    assert_eq!(created.issue().number, 5);
    assert!(created.has_state_change());
    assert_eq!(created.state_change(), StateChange::Opened);
    let closed = IssueOrEvent::Event(event(EventId::Closed, 6, 0));
    assert_eq!(closed.issue().number, 6);
    assert!(closed.has_state_change());
    assert_eq!(closed.state_change(), StateChange::Closed);
    let reopened = IssueOrEvent::Event(event(EventId::Reopened, 7, 0));
    assert!(reopened.has_state_change());
    assert_eq!(reopened.state_change(), StateChange::Opened);
    let unknown = IssueOrEvent::Event(event(EventId::Unknown, 8, 0));
    assert_eq!(unknown.issue().number, 8);
    assert!(!unknown.has_state_change());
}

#[test]
fn clones_are_equal_to_what_they_were_made_from() {
    let it = issue(5, 0);
    assert_eq!(it.clone(), it);
    let about = event(EventId::Closed, 6, 0);
    assert_eq!(about.clone(), about);
    let entry = IssueOrEvent::Event(event(EventId::Reopened, 7, 0));
    assert_eq!(entry.clone(), entry);
    let said = Comment { body: "hello".to_string(), created_at: instant_on(0, 0) };
    assert_eq!(said.clone(), said);
    assert_eq!(said.date(), date(0));
}

#[test]
fn errors_have_their_messages() {
    assert_eq!(Error::RateLimited.message(), "hit GitHub rate limiting");
    assert_eq!(Error::Transport("connection reset".to_string()).message(), "connection reset");
    assert_eq!(Error::Other("no".to_string()).message(), "no");
    assert_eq!(
        Error::UnsupportedPagingDepth.message(),
        "more than one page of comments since the reference date"
    );
    assert_eq!(Error::other("bad range"), Error::Other("bad range".to_string()));
}

#[test]
fn only_the_forbidden_status_is_rate_limiting() {
    assert_eq!(STATUS_FORBIDDEN, 403);
    assert_eq!(Error::from_status(Some(403), "forbidden".to_string()), Error::RateLimited);
    assert_eq!(
        Error::from_status(Some(404), "not found".to_string()),
        Error::Transport("not found".to_string())
    );
    assert_eq!(
        Error::from_status(Some(500), "broken".to_string()),
        Error::Transport("broken".to_string())
    );
    assert_eq!(
        Error::from_status(None, "timed out".to_string()),
        Error::Transport("timed out".to_string())
    );
    assert!(Error::RateLimited.is_rate_limited());
    assert!(!Error::UnsupportedPagingDepth.is_rate_limited());
    assert!(!Error::Transport("x".to_string()).is_rate_limited());
}
