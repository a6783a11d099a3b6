use triage_tracker::error::Error;
use triage_tracker::github::{
    comment_page_request, event_page_request, issue_page_request, page_request, Direction, Param,
    SortedBy, MAX_PER_PAGE,
};
use triage_tracker::model::{Actor, Event, EventId, Issue, IssueOrEvent, PullRequest};
use triage_tracker::report::{
    change_line, default_yardstick, issue_url, range_days, total_change, total_line,
    untriaged_heading,
};
use triage_tracker::snapshot::Issues;
use triage_tracker::storage::{cache_key, cache_path, read_cache, CacheRead, CacheType, Stored};
use triage_tracker::time::{Date, Instant, MIN_DAY};

const DAY: i64 = 86_400;
const BASE_DAY: i32 = 737_791;

fn date(offset: i32) -> Date {
    Date::from_days(BASE_DAY + offset).unwrap()
}

fn issue(number: u32) -> Issue {
    Issue {
        number,
        title: format!("issue {}", number),
        comments: 0,
        pull_request: None,
        created_at: Instant::from_secs((BASE_DAY as i64 - 719_163) * DAY).unwrap(),
    }
}

fn pull_request(number: u32) -> Issue {
    let mut it = issue(number);
    it.pull_request = Some(PullRequest {});
    it
}

fn event_on(id: EventId, about: Issue, login: &str) -> Event {
    Event {
        actor: Actor { login: login.to_string() },
        id,
        issue: about,
        when: Instant::from_secs((BASE_DAY as i64 - 719_163) * DAY + 60).unwrap(),
    }
}

fn event(id: EventId, number: u32) -> Event {
    event_on(id, issue(number), "someone")
}

fn numbers(issues: &Vec<&Issue>) -> Vec<u32> {
    issues.iter().map(|issue| issue.number).collect()
}

#[test]
fn a_snapshot_is_sorted_by_issue_number() {
    let snapshot = Issues::merge(
        vec![event(EventId::Closed, 9), event(EventId::Reopened, 2)],
        vec![issue(5), issue(1), issue(7)],
    );
    let listed: Vec<u32> = snapshot.items().iter().map(|item| item.issue().number).collect();
    assert_eq!(listed, vec![1, 2, 5, 7, 9]);
    assert_eq!(snapshot.len(), 5);
}

#[test]
fn a_snapshot_holds_each_issue_once_and_no_pull_request() {
    let snapshot = Issues::merge(
        vec![
            event(EventId::Closed, 3),
            event(EventId::Reopened, 3),
            event_on(EventId::Closed, pull_request(4), "someone"),
            event(EventId::Closed, 1),
        ],
        vec![issue(3), pull_request(8), issue(2), issue(2), issue(1)],
    );
    let items = snapshot.items();
    for (at, item) in items.iter().enumerate() {
        assert!(!item.issue().is_pull_request());
        for other in items.iter().skip(at + 1) {
            assert_ne!(item.issue().number, other.issue().number);
        }
    }
    let listed: Vec<u32> = items.iter().map(|item| item.issue().number).collect();
    assert_eq!(listed, vec![1, 2, 3]);
}

#[test]
fn an_event_stands_for_its_issue_before_the_issue_itself() {
    let snapshot = Issues::merge(vec![event(EventId::Closed, 3)], vec![issue(3), issue(4)]);
    assert_eq!(
        snapshot.items(),
        &vec![IssueOrEvent::Event(event(EventId::Closed, 3)), IssueOrEvent::Issue(issue(4))]
    );
}

#[test]
fn the_first_of_several_entries_stands_for_the_issue() {
    let first = event_on(EventId::Reopened, issue(3), "first");
    let second = event_on(EventId::Closed, issue(3), "second");
    let snapshot = Issues::merge(vec![first.clone(), second], Vec::new());
    assert_eq!(snapshot.items(), &vec![IssueOrEvent::Event(first)]);
    let mut early = issue(6);
    early.title = "early".to_string();
    let mut late = issue(6);
    late.title = "late".to_string();
    let snapshot = Issues::merge(Vec::new(), vec![early.clone(), late]);
    assert_eq!(snapshot.items(), &vec![IssueOrEvent::Issue(early)]);
}

#[test]
fn events_of_unknown_kind_are_left_out() {
    let snapshot = Issues::merge(
        vec![event(EventId::Unknown, 3), event(EventId::Closed, 3), event(EventId::Unknown, 5)],
        vec![issue(5)],
    );
    assert_eq!(
        snapshot.items(),
        &vec![IssueOrEvent::Event(event(EventId::Closed, 3)), IssueOrEvent::Issue(issue(5))]
    );
}

#[test]
fn a_snapshot_of_nothing_is_empty() {
    let snapshot = Issues::merge(Vec::new(), Vec::new());
    assert!(snapshot.items().is_empty());
    assert_eq!(snapshot.len(), 0);
    assert!(snapshot.opened().is_empty());
    assert!(snapshot.closed().is_empty());
    assert_eq!(snapshot.diff(), 0);
    let only_pulls = Issues::merge(
        vec![event_on(EventId::Closed, pull_request(1), "x")],
        vec![pull_request(2)],
    );
    assert_eq!(only_pulls.len(), 0);
}

#[test]
fn opened_and_closed_issues_are_told_apart() {
    let snapshot = Issues::merge(
        vec![
            event(EventId::Closed, 9),
            event(EventId::Reopened, 2),
            event(EventId::Closed, 4),
            event(EventId::Closed, 6),
        ],
        vec![issue(5), issue(1), issue(4)],
    );
    assert_eq!(numbers(&snapshot.opened()), vec![1, 2, 5]);
    assert_eq!(numbers(&snapshot.closed()), vec![4, 6, 9]);
    assert_eq!(snapshot.diff(), 0);
    assert_eq!(snapshot.opened()[1], &issue(2));
}

#[test]
fn the_change_of_a_day_is_opened_less_closed() {
    let grew = Issues::merge(vec![event(EventId::Closed, 9)], vec![issue(5), issue(1), issue(4)]);
    assert_eq!(grew.diff(), 2);
    let shrank = Issues::merge(
        vec![event(EventId::Closed, 9), event(EventId::Closed, 8), event(EventId::Closed, 7)],
        vec![issue(5)],
    );
    assert_eq!(shrank.diff(), -2);
    let quiet = Issues::merge(Vec::new(), Vec::new());
    assert_eq!(total_change(&vec![grew, shrank, quiet]), 0);
    assert_eq!(total_change(&Vec::new()), 0);
    let only = Issues::merge(Vec::new(), vec![issue(1), issue(2), issue(3)]);
    let again = Issues::merge(Vec::new(), vec![issue(4)]);
    assert_eq!(total_change(&vec![only, again]), 4);
}

#[test]
fn keys_name_the_day_and_the_collection() {
    assert_eq!(cache_key(&date(0), CacheType::Issues), "2021-01-01-issues");
    assert_eq!(cache_key(&date(0), CacheType::Events), "2021-01-01-events");
    assert_eq!(cache_key(&date(-1), CacheType::Events), "2020-12-31-events");
    assert_eq!(cache_path(&date(0), CacheType::Issues), "database/2021-01-01-issues.json");
    assert_eq!(cache_path(&date(62), CacheType::Events), "database/2021-03-04-events.json");
    assert_eq!(CacheType::Issues.name(), "issues");
    assert_eq!(CacheType::Events.name(), "events");
}

#[test]
fn keys_differ_by_collection_and_by_day() {
    for offset in -400..400 {
        let issues = cache_key(&date(offset), CacheType::Issues);
        let events = cache_key(&date(offset), CacheType::Events);
        assert_ne!(issues, events);
        assert_ne!(issues, cache_key(&date(offset + 1), CacheType::Issues));
        assert_ne!(
            cache_path(&date(offset), CacheType::Issues),
            cache_path(&date(offset), CacheType::Events)
        );
    }
}

#[test]
fn a_read_is_a_hit_a_miss_or_an_error() {
    let missing: Stored<Vec<Issue>> = Stored::Missing;
    assert_eq!(read_cache(missing), Ok(CacheRead { value: None, discard: false }));
    let corrupt: Stored<Vec<Issue>> = Stored::Corrupt;
    assert_eq!(read_cache(corrupt), Ok(CacheRead { value: None, discard: true }));
    let kept = Stored::Decoded(vec![issue(1), issue(2)]);
    assert_eq!(
        read_cache(kept),
        Ok(CacheRead { value: Some(vec![issue(1), issue(2)]), discard: false })
    );
    let nothing: Stored<Vec<Issue>> = Stored::Decoded(Vec::new());
    assert_eq!(read_cache(nothing), Ok(CacheRead { value: Some(Vec::new()), discard: false }));
    let failed: Stored<Vec<Issue>> = Stored::Unreadable("permission denied".to_string());
    assert_eq!(read_cache(failed), Err(Error::Transport("permission denied".to_string())));
}

#[test]
fn a_page_of_issues_is_asked_for_by_page_order_and_labels() {
    assert_eq!(MAX_PER_PAGE, 100);
    let labels = vec!["A-diagnostics".to_string(), "T-compiler".to_string()];
    let request = issue_page_request(3, 100, &labels, SortedBy::Comments, Direction::OldestFirst);
    assert_eq!(request.path, "issues");
    assert_eq!(request.query(), "per_page=100&page=3&sort=comments&direction=asc&labels=A-diagnostics,T-compiler");
    assert_eq!(
        request.url(),
        "https://api.github.com/repos/rust-lang/rust/issues?per_page=100&page=3&sort=comments&direction=asc&labels=A-diagnostics,T-compiler"
    );
    let plain = issue_page_request(0, 0, &Vec::new(), SortedBy::Created, Direction::NewestFirst);
    assert_eq!(plain.params.len(), 4);
    assert_eq!(plain.query(), "per_page=0&page=0&sort=created&direction=desc");
    let updated = page_request("issues", 1, 5, &Vec::new(), SortedBy::Updated, Direction::NewestFirst);
    assert_eq!(updated.params[2], Param { key: "sort".to_string(), value: "updated".to_string() });
}

#[test]
fn a_page_of_events_is_asked_for_newest_first() {
    let request = event_page_request(12, 100);
    assert_eq!(
        request.url(),
        "https://api.github.com/repos/rust-lang/rust/issues/events?per_page=100&page=12&sort=created&direction=desc"
    );
    assert_eq!(
        request.params[0],
        Param { key: "per_page".to_string(), value: "100".to_string() }
    );
}

#[test]
fn comments_are_asked_for_since_the_start_of_a_day() {
    let request = comment_page_request(81_234, 1, 100, Some(date(62)));
    assert_eq!(request.path, "issues/81234/comments");
    assert_eq!(
        request.url(),
        "https://api.github.com/repos/rust-lang/rust/issues/81234/comments?per_page=100&page=1&since=2021-03-04T00:00:00Z"
    );
    let all = comment_page_request(5, 2, 255, None);
    assert_eq!(
        all.url(),
        "https://api.github.com/repos/rust-lang/rust/issues/5/comments?per_page=255&page=2"
    );
}

#[test]
fn the_since_parameter_is_what_chrono_writes_for_midnight() {
    for offset in [-800, -1, 0, 59, 365] {
        let request = comment_page_request(1, 1, 100, Some(date(offset)));
        let midnight = chrono::NaiveDate::from_num_days_from_ce_opt(BASE_DAY + offset)
            .unwrap()
            .and_hms_opt(0, 0, 0)
            .unwrap()
            .and_utc();
        assert_eq!(request.params[2].value, midnight.format("%Y-%m-%dT%H:%M:%SZ").to_string());
    }
}

#[test]
fn a_range_runs_back_from_its_start_to_its_end() {
    assert_eq!(range_days(date(0), date(-3)), Ok(vec![date(0), date(-1), date(-2), date(-3)]));
    assert_eq!(range_days(date(0), date(-1)), Ok(vec![date(0), date(-1)]));
    let first = Date::from_days(MIN_DAY).unwrap();
    let second = Date::from_days(MIN_DAY + 1).unwrap();
    assert_eq!(range_days(second, first), Ok(vec![second, first]));
}

#[test]
fn a_range_that_does_not_run_back_is_refused() {
    let refused = Err(Error::Other("--start must be more recent than --end".to_string()));
    assert_eq!(range_days(date(0), date(0)), refused);
    assert_eq!(range_days(date(0), date(1)), refused);
    assert_eq!(range_days(date(-5), date(5)), refused);
}

#[test]
fn the_yardstick_defaults_to_a_year_back() {
    assert_eq!(default_yardstick(&date(0)), Some(date(-365)));
    assert_eq!(default_yardstick(&date(0)).unwrap().iso_text(), "2020-01-02");
    assert_eq!(default_yardstick(&Date::from_days(MIN_DAY + 364).unwrap()), None);
    assert_eq!(
        default_yardstick(&Date::from_days(MIN_DAY + 365).unwrap()),
        Date::from_days(MIN_DAY)
    );
}

#[test]
fn report_lines_are_written_as_shown() {
    assert_eq!(change_line(&date(0), 3), " 2021-01-01: 3");
    assert_eq!(change_line(&date(-1), -12), " 2020-12-31: -12");
    assert_eq!(change_line(&date(0), 0), " 2021-01-01: 0");
    assert_eq!(total_line(-9), "Total Change: -9");
    assert_eq!(total_line(120), "Total Change: 120");
    assert_eq!(untriaged_heading(0), "0 untriaged issues found:");
    assert_eq!(untriaged_heading(1), "1 untriaged issue found:");
    assert_eq!(untriaged_heading(2), "2 untriaged issues found:");
    assert_eq!(issue_url(81_234), "https://github.com/rust-lang/rust/issues/81234");
    assert_eq!(issue_url(0), "https://github.com/rust-lang/rust/issues/0");
}
