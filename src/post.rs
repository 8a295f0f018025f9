use crate::community::CommunityId;
use crate::comment::CommentId;
use vstd::prelude::*;

verus! {

#[derive(Debug, Copy, Clone, Hash, Eq, PartialEq, Default)]
pub struct PostId(pub i32);

#[derive(Debug, Copy, Clone, Hash, Eq, PartialEq, Default)]
pub struct LanguageId(pub i32);

/// Get a post. Needs either the post id, or comment_id.
#[derive(Debug, Clone, Default)]
pub struct GetPost {
    pub id: Option<PostId>,
    pub comment_id: Option<CommentId>,
    pub auth: Option<String>,
}

/// The orders in which posts can be listed.
#[derive(Hash, Debug, Clone, Copy, PartialEq, Eq)]
pub enum SortType {
    Active,
    Hot,
    New,
    Old,
    TopDay,
    TopWeek,
    TopMonth,
    TopYear,
    TopAll,
    MostComments,
    NewComments,
    TopHour,
    TopSixHour,
    TopTwelveHour,
}

/// A listing type for post and comment list fetches.
#[derive(Hash, Debug, Clone, Copy, PartialEq, Eq)]
pub enum ListingType {
    /// Content from your own site, as well as all connected / federated sites.
    All,
    /// Content from your site only.
    Local,
    /// Content only from communities you've subscribed to.
    Subscribed,
}

/// Get a list of posts.
#[derive(Debug, Clone, Default)]
pub struct GetPosts {
    pub type_: Option<ListingType>,
    pub sort: Option<SortType>,
    pub page: Option<i64>,
    pub limit: Option<i64>,
    pub community_id: Option<CommunityId>,
    pub community_name: Option<String>,
    pub saved_only: Option<bool>,
    pub auth: Option<String>,
}

/// Like a post.
#[derive(Debug, Clone, Default)]
pub struct CreatePostLike {
    pub post_id: PostId,
    /// Score must be -1, 0, or 1.
    pub score: i16,
    pub auth: String,
}

/// Delete a post.
#[derive(Debug, Clone, Default)]
pub struct DeletePost {
    pub post_id: PostId,
    pub deleted: bool,
    pub auth: String,
}

/// Remove a post (only doable by mods).
#[derive(Debug, Clone, Default)]
pub struct RemovePost {
    pub post_id: PostId,
    pub removed: bool,
    pub reason: Option<String>,
    pub auth: String,
}

/// Mark a post as read.
#[derive(Debug, Clone, Default)]
pub struct MarkPostAsRead {
    pub post_id: PostId,
    pub read: bool,
    pub auth: String,
}

/// Lock a post (prevent new comments).
#[derive(Debug, Clone, Default)]
pub struct LockPost {
    pub post_id: PostId,
    pub locked: bool,
    pub auth: String,
}

/// The feature type for a post.
#[derive(Debug, Clone, Copy, Default, PartialEq, Eq)]
pub enum PostFeatureType {
    /// Features to the top of your site.
    #[default]
    Local,
    /// Features to the top of the community.
    Community,
}

/// Feature a post (stickies / pins to the top).
#[derive(Debug, Clone, Default)]
pub struct FeaturePost {
    pub post_id: PostId,
    pub featured: bool,
    pub feature_type: PostFeatureType,
    pub auth: String,
}

/// Save / bookmark a post.
#[derive(Debug, Clone, Default)]
pub struct SavePost {
    pub post_id: PostId,
    pub save: bool,
    pub auth: String,
}

/// Create a post report.
#[derive(Debug, Clone, Default)]
pub struct CreatePostReport {
    pub post_id: PostId,
    pub reason: String,
    pub auth: String,
}

#[derive(Debug, Copy, Clone, Hash, Eq, PartialEq, Default)]
pub struct PostReportId(pub i32);

/// Resolve a post report (mods only).
#[derive(Debug, Clone, Default)]
pub struct ResolvePostReport {
    pub report_id: PostReportId,
    pub resolved: bool,
    pub auth: String,
}

/// List post reports.
#[derive(Debug, Clone, Default)]
pub struct ListPostReports {
    pub page: Option<i64>,
    pub limit: Option<i64>,
    /// Only shows the unresolved reports
    pub unresolved_only: Option<bool>,
    /// if no community is given, it returns reports for all communities moderated by the auth user
    pub community_id: Option<CommunityId>,
    pub auth: String,
}

} // verus!
