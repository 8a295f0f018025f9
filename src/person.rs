use crate::community::CommunityId;
use crate::post::SortType;
use vstd::prelude::*;

verus! {

#[derive(Debug, Copy, Clone, Hash, Eq, PartialEq, Default)]
pub struct PersonId(pub i32);

/// Logging into lemmy.
#[derive(Debug, Clone, Default)]
pub struct Login {
    pub username_or_email: String,
    pub password: String,
    /// May be required, if totp is enabled for their account.
    pub totp_2fa_token: Option<String>,
}

/// A response for your login.
#[derive(Debug, Clone)]
pub struct LoginResponse {
    /// None where email verification is on, or where the server requires
    /// registration applications.
    pub jwt: Option<String>,
    /// Whether a registration application was created.
    pub registration_created: bool,
    /// Whether a verification email was sent.
    pub verify_email_sent: bool,
}

/// Get a person's details, by id or by name.
#[derive(Debug, Clone, Default)]
pub struct GetPersonDetails {
    pub person_id: Option<PersonId>,
    /// Example: dessalines , or dessalines@xyz.tld
    pub username: Option<String>,
    pub sort: Option<SortType>,
    pub page: Option<i64>,
    pub limit: Option<i64>,
    pub community_id: Option<CommunityId>,
    pub saved_only: Option<bool>,
    pub auth: Option<String>,
}

/// Aggregate data for a person.
#[derive(PartialEq, Eq, Debug, Clone, Default)]
pub struct PersonAggregates {
    pub id: i32,
    pub person_id: PersonId,
    pub post_count: i64,
    pub post_score: i64,
    pub comment_count: i64,
    pub comment_score: i64,
}

} // verus!
