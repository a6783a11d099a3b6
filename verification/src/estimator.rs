//! A first guess at the page on which a day's items start.
//!
//! The remote collection is sorted newest first, so today's items are on
//! page 0 and older days lie on later pages. How many pages a day fills is
//! known only as a historical average per kind of item; the guess made from
//! it is a starting point that the locator corrects.

use vstd::prelude::*;
use crate::time::Date;

verus! {

/// How fast a feed fills pages: `pages` pages every `per_days` days, and the
/// page on which yesterday's items are looked for first.
#[derive(Clone, Copy, Debug, PartialEq, Eq, Structural)]
pub struct PageHint {
    pub pages: u32,
    pub per_days: u32,
    pub yesterday_page: u32,
}

impl PageHint {
    /// A hint must count its pages over at least one day.
    pub open spec fn wf(self) -> bool {
        self.per_days > 0
    }
}

/// The page to start on for a day that lies `days_away` days before today:
/// page 0 for today (and for days still to come), the feed's fixed page for
/// yesterday, and otherwise the days times the average pages per day,
/// rounded down and held to what a page index can be.
pub open spec fn start_page(days_away: int, hint: PageHint) -> int {
    if days_away <= 0 {
        0
    } else if days_away == 1 {
        hint.yesterday_page as int
    } else {
        let pages = days_away * hint.pages / hint.per_days as int;
        if pages > u32::MAX {
            u32::MAX as int
        } else {
            pages
        }
    }
}

/// Guesses the page on which the items of `target` start, seen from `today`.
pub fn estimate_start_page(target: &Date, today: &Date, hint: &PageHint) -> (page: u32)
    requires
        hint.wf(),
    ensures
        page == start_page(today@ - target@, *hint),
{
    let days_away: i64 = today.days() as i64 - target.days() as i64;
    if days_away <= 0 {
        0
    } else if days_away == 1 {
        hint.yesterday_page
    } else {
        assert(days_away * hint.pages <= 0x1000_0000 * 0x1_0000_0000) by (nonlinear_arith)
            requires
                0 < days_away <= 0x1000_0000,
                0 <= hint.pages <= 0x1_0000_0000,
        ;
        let total: u64 = days_away as u64 * hint.pages as u64;
        let pages: u64 = total / hint.per_days as u64;
        assert(pages <= total) by (nonlinear_arith)
            requires
                pages == total / (hint.per_days as u64),
                hint.per_days > 0,
        ;
        if pages > u32::MAX as u64 {
            u32::MAX
        } else {
            pages as u32
        }
    }
}

} // verus!
