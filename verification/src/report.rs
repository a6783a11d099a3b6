//! What the reports are made of: the days of a range, the change of each
//! day and of all together, and the lines that are shown.

use vstd::prelude::*;
use vstd::string::StringExecFns;
use crate::error::Error;
use crate::model::{IssueOrEvent, StateChange};
use crate::snapshot::{issues_changed, Issues};
use crate::text::{decimal, decimal_text, signed_decimal, signed_decimal_text};
use crate::time::{is_calendar_day, iso_date_text, Date};

verus! {

/// How many days before today the yardstick lies when none is given.
pub const DEFAULT_YARDSTICK_DAYS: u32 = 365;

/// The yardstick used when none is given: 365 days before `today`, if the
/// calendar holds that day.
pub fn default_yardstick(today: &Date) -> (yardstick: Option<Date>)
    ensures
        yardstick is Some <==> is_calendar_day(today@ - DEFAULT_YARDSTICK_DAYS),
        yardstick matches Some(day) ==> day@ == today@ - DEFAULT_YARDSTICK_DAYS,
{
    today.minus_days(DEFAULT_YARDSTICK_DAYS)
}

/// The days of the range that starts with `start` and goes back in time to
/// `end`, both included. A range whose end is not before its start is
/// refused.
pub fn range_days(start: Date, end: Date) -> (days: Result<Vec<Date>, Error>)
    ensures
        end@ >= start@ ==> (days matches Err(Error::Other(reason)) && reason@
            == "--start must be more recent than --end"@),
        end@ < start@ ==> (days matches Ok(list) && list@.len() == start@ - end@ + 1 && forall|
            i: int,
        | 0 <= i < list@.len() ==> (#[trigger] list@[i])@ == start@ - i),
{
    if !end.is_before(&start) {
        return Err(Error::other("--start must be more recent than --end"));
    }
    let mut list: Vec<Date> = Vec::new();
    let mut day = start;
    list.push(day);
    while day.days() > end.days()
        invariant
            end@ <= day@ <= start@,
            list@.len() == start@ - day@ + 1,
            forall|i: int| 0 <= i < list@.len() ==> (#[trigger] list@[i])@ == start@ - i,
        decreases day@ - end@,
    {
        if let Some(before) = day.pred() {
            day = before;
            list.push(day);
        }
    }
    Ok(list)
}

/// The sum of the changes of the first `count` of `days`.
pub open spec fn change_over(days: Seq<Issues>, count: int) -> int
    decreases count,
{
    if count <= 0 {
        0
    } else {
        change_over(days, count - 1) + net_change(days[count - 1]@)
    }
}

/// By how many the open issues grew on a day with the given items: the
/// issues opened less the issues closed.
pub open spec fn net_change(items: Seq<IssueOrEvent>) -> int {
    issues_changed(items, StateChange::Opened).len() - issues_changed(
        items,
        StateChange::Closed,
    ).len()
}

/// By how many the open issues grew over all of `days`.
pub fn total_change(days: &Vec<Issues>) -> (total: i128)
    ensures
        total == change_over(days@, days@.len() as int),
{
    let mut total: i128 = 0;
    let mut i: usize = 0;
    while i < days.len()
        invariant
            i <= days@.len(),
            total == change_over(days@, i as int),
            -0x1_0000_0000 * i <= total <= 0x1_0000_0000 * i,
        decreases days@.len() - i,
    {
        let change = days[i].diff();
        total = total + change as i128;
        i += 1;
    }
    total
}

/// The line that reports the change of a day: a blank, the day, a colon and
/// the change.
pub open spec fn change_line_text(day: int, change: int) -> Seq<char> {
    " "@ + iso_date_text(day) + ": "@ + signed_decimal(change)
}

/// The line that reports the change of `date`.
pub fn change_line(date: &Date, change: i64) -> (line: String)
    ensures
        line@ == change_line_text(date@, change as int),
{
    let mut line = " ".to_owned();
    line.append(date.iso_text().as_str());
    line.append(": ");
    line.append(signed_decimal_text(change as i128).as_str());
    line
}

/// The line that reports the change of a whole range.
pub open spec fn total_line_text(total: int) -> Seq<char> {
    "Total Change: "@ + signed_decimal(total)
}

/// The line that reports the change of a whole range.
pub fn total_line(total: i128) -> (line: String)
    ensures
        line@ == total_line_text(total as int),
{
    let mut line = "Total Change: ".to_owned();
    line.append(signed_decimal_text(total).as_str());
    line
}

/// The heading of the list of untriaged issues: how many were found, the
/// word in the singular for exactly one.
pub open spec fn untriaged_heading_text(count: nat) -> Seq<char> {
    decimal(count) + if count == 1 {
        " untriaged issue found:"@
    } else {
        " untriaged issues found:"@
    }
}

/// The heading of the list of `count` untriaged issues.
pub fn untriaged_heading(count: usize) -> (line: String)
    ensures
        line@ == untriaged_heading_text(count as nat),
{
    let mut line = decimal_text(count as u128);
    if count == 1 {
        line.append(" untriaged issue found:");
    } else {
        line.append(" untriaged issues found:");
    }
    line
}

/// The address of the page of the issue `number`.
pub open spec fn issue_url_text(number: u32) -> Seq<char> {
    "https://github.com/rust-lang/rust/issues/"@ + decimal(number as nat)
}

/// The address of the page of the issue `number`.
pub fn issue_url(number: u32) -> (url: String)
    ensures
        url@ == issue_url_text(number),
{
    let mut url = "https://github.com/rust-lang/rust/issues/".to_owned();
    url.append(decimal_text(number as u128).as_str());
    url
}

} // verus!
