//! Labels for the sort orders.
use crate::post::SortType;
use vstd::prelude::*;

verus! {

/// The label shown for a post sort order.
pub open spec fn sort_label(sort_type: Option<SortType>) -> Seq<char> {
    match sort_type {
        None => "None"@,
        Some(SortType::Active) => "Active"@,
        Some(SortType::Hot) => "Hot"@,
        Some(SortType::New) => "New"@,
        Some(SortType::Old) => "Old"@,
        Some(SortType::TopDay) => "Top Day"@,
        Some(SortType::TopWeek) => "Top Week"@,
        Some(SortType::TopMonth) => "Top Month"@,
        Some(SortType::TopYear) => "Top Year"@,
        Some(SortType::TopAll) => "Top All"@,
        Some(SortType::MostComments) => "Most Comments"@,
        Some(SortType::NewComments) => "New Comments"@,
        Some(SortType::TopHour) => "Top Hour"@,
        Some(SortType::TopSixHour) => "Top 6 Hour"@,
        Some(SortType::TopTwelveHour) => "Top 12 Hour"@,
    }
}

/// The label shown for a post sort order.
pub fn sort_to_text(sort_type: Option<SortType>) -> (r: &'static str)
    ensures
        r@ == sort_label(sort_type),
{
    match sort_type {
        None => "None",
        Some(SortType::Active) => "Active",
        Some(SortType::Hot) => "Hot",
        Some(SortType::New) => "New",
        Some(SortType::Old) => "Old",
        Some(SortType::TopDay) => "Top Day",
        Some(SortType::TopWeek) => "Top Week",
        Some(SortType::TopMonth) => "Top Month",
        Some(SortType::TopYear) => "Top Year",
        Some(SortType::TopAll) => "Top All",
        Some(SortType::MostComments) => "Most Comments",
        Some(SortType::NewComments) => "New Comments",
        Some(SortType::TopHour) => "Top Hour",
        Some(SortType::TopSixHour) => "Top 6 Hour",
        Some(SortType::TopTwelveHour) => "Top 12 Hour",
    }
}

} // verus!
