use crate::community::CommunityId;
use crate::comments::CommentRecord;
use crate::person::PersonId;
use crate::post::{LanguageId, ListingType, PostId};
use vstd::prelude::*;

verus! {

#[derive(Debug, Copy, Clone, Hash, Eq, PartialEq, Default)]
pub struct CommentId(pub i32);

/// Get a list of comments.
#[derive(Debug, Clone, Default)]
pub struct GetComments {
    pub type_: Option<ListingType>,
    pub sort: Option<CommentSortType>,
    pub max_depth: Option<i32>,
    pub page: Option<i64>,
    pub limit: Option<i64>,
    pub community_id: Option<CommunityId>,
    pub community_name: Option<String>,
    pub post_id: Option<PostId>,
    pub parent_id: Option<CommentId>,
    pub saved_only: Option<bool>,
    pub auth: Option<String>,
}

/// The comment sort types.
#[derive(Debug, Clone, Copy, PartialEq, Eq, PartialOrd, Ord, Hash)]
pub enum CommentSortType {
    Hot,
    Top,
    New,
    Old,
}

/// Save / bookmark a comment.
#[derive(Debug, Clone, Default)]
pub struct SaveComment {
    pub comment_id: CommentId,
    pub save: bool,
    pub auth: String,
}

/// A comment. Times are seconds since the Unix epoch, in UTC.
#[derive(Clone, PartialEq, Eq, Debug)]
pub struct Comment {
    pub id: CommentId,
    pub creator_id: PersonId,
    pub post_id: PostId,
    pub content: String,
    /// Whether the comment has been removed.
    pub removed: bool,
    pub published: i64,
    pub updated: Option<i64>,
    /// Whether the comment has been deleted by its creator.
    pub deleted: bool,
    /// The federated activity id / ap_id.
    pub ap_id: String,
    /// Whether the comment is local.
    pub local: bool,
    /// The materialized path: the ids from the root `0` down to this comment.
    pub path: String,
    /// Whether the comment has been distinguished(speaking officially) by a mod.
    pub distinguished: bool,
    pub language_id: LanguageId,
}

impl CommentRecord for Comment {
    open spec fn id_of(&self) -> i32 {
        self.id.0
    }

    open spec fn path_of(&self) -> Seq<char> {
        self.path@
    }

    fn comment_id(&self) -> (r: i32) {
        self.id.0
    }

    fn path(&self) -> (r: &str) {
        self.path.as_str()
    }
}

/// Like a comment.
#[derive(Debug, Clone, Default)]
pub struct CreateCommentLike {
    pub comment_id: CommentId,
    /// Must be -1, 0, or 1 .
    pub score: i16,
    pub auth: String,
}

/// Create a comment.
#[derive(Debug, Clone, Default)]
pub struct CreateComment {
    pub content: String,
    pub post_id: PostId,
    pub parent_id: Option<CommentId>,
    pub language_id: Option<LanguageId>,
    /// An optional front-end ID, to help UIs determine where the comment should go.
    pub form_id: Option<String>,
    pub auth: String,
}

} // verus!
