use crate::path::{decimal_i32, parse_i32};
use crate::post::{ListingType, SortType};
use vstd::prelude::*;

verus! {

#[derive(Debug, Copy, Clone, Hash, Eq, PartialEq, Default)]
pub struct CommunityId(pub i32);

/// A type / status for a community subscribe.
#[derive(Debug, PartialEq, Eq, Clone, Copy)]
pub enum SubscribedType {
    Subscribed,
    NotSubscribed,
    Pending,
}

/// Follow / subscribe to a community.
#[derive(Debug, Clone, Default)]
pub struct FollowCommunity {
    pub community_id: CommunityId,
    pub follow: bool,
    pub auth: String,
}

/// Get a community. Must provide either an id, or a name.
#[derive(Debug, Clone, Default)]
pub struct GetCommunity {
    pub id: Option<CommunityId>,
    /// Example: star_trek , or star_trek@xyz.tld
    pub name: Option<String>,
    pub auth: Option<String>,
}

/// Fetches a list of communities.
#[derive(Debug, Clone, Default)]
pub struct ListCommunities {
    pub type_: Option<ListingType>,
    pub sort: Option<SortType>,
    pub show_nsfw: Option<bool>,
    pub page: Option<i64>,
    pub limit: Option<i64>,
    pub auth: Option<String>,
}

/// Whether the reader asks to follow a community in the given state: a
/// pending request counts as following.
pub fn wants_follow(subscribed: SubscribedType) -> (r: bool)
    ensures
        r == (subscribed != SubscribedType::NotSubscribed),
{
    match subscribed {
        SubscribedType::Subscribed => true,
        SubscribedType::NotSubscribed => false,
        SubscribedType::Pending => true,
    }
}

/// How a route names a community: by number, or by name.
#[derive(Debug, Clone, PartialEq, Eq)]
pub enum CommunityKey {
    Id(CommunityId),
    Name(String),
}

impl CommunityKey {
    /// The key that a route parameter names: a community id where it is a
    /// decimal `i32`, a community name otherwise.
    pub fn from_param(s: &str) -> (r: CommunityKey)
        ensures
            match decimal_i32(s@) {
                Some(v) => r == CommunityKey::Id(CommunityId(v)),
                None => r matches CommunityKey::Name(n) && n@ == s@,
            },
    {
        match parse_i32(s) {
            Some(v) => CommunityKey::Id(CommunityId(v)),
            None => CommunityKey::Name(s.to_string()),
        }
    }

    pub fn id(&self) -> (r: Option<CommunityId>)
        ensures
            r == match self {
                CommunityKey::Id(id) => Some(*id),
                CommunityKey::Name(_) => None::<CommunityId>,
            },
    {
        match self {
            CommunityKey::Id(id) => Some(*id),
            CommunityKey::Name(_) => None,
        }
    }

    pub fn name(&self) -> (r: Option<String>)
        ensures
            match self {
                CommunityKey::Id(_) => r is None,
                CommunityKey::Name(n) => r matches Some(m) && m@ == n@,
            },
    {
        match self {
            CommunityKey::Id(_) => None,
            CommunityKey::Name(url) => Some(url.clone()),
        }
    }
}

} // verus!
