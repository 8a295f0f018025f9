use vstd::prelude::*;

verus! {

#[derive(Debug, Copy, Clone, Hash, Eq, PartialEq, Default)]
pub struct SiteId(pub i32);

#[derive(Debug, Copy, Clone, Hash, Eq, PartialEq, Default)]
pub struct LocalSiteId(pub i32);

#[derive(Debug, Copy, Clone, Hash, Eq, PartialEq, Default)]
pub struct CustomEmojiId(pub i32);

/// Aggregate data for a site.
#[derive(PartialEq, Eq, Debug, Clone)]
pub struct SiteAggregates {
    pub id: i32,
    pub site_id: SiteId,
    pub users: i64,
    pub posts: i64,
    pub comments: i64,
    pub communities: i64,
    /// The number of users with any activity in the last day.
    pub users_active_day: i64,
    /// The number of users with any activity in the last week.
    pub users_active_week: i64,
    /// The number of users with any activity in the last month.
    pub users_active_month: i64,
    /// The number of users with any activity in the last half year.
    pub users_active_half_year: i64,
}

/// Fetches the site description.
#[derive(Debug, Clone, Default)]
pub struct GetSite {
    pub auth: Option<String>,
}

/// A keyword for a custom emoji.
#[derive(PartialEq, Eq, Debug, Clone)]
pub struct CustomEmojiKeyword {
    pub id: i32,
    pub custom_emoji_id: CustomEmojiId,
    pub keyword: String,
}

/// The registration mode for your site.
#[derive(Debug, Clone, Copy, PartialEq, Eq)]
pub enum RegistrationMode {
    /// Closed to public.
    Closed,
    /// Open, but pending approval of a registration application.
    RequireApplication,
    /// Open to all.
    Open,
}

} // verus!
