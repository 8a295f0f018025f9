//! The requests of the remote API: where each goes, how it is sent, and
//! the token it carries.
use crate::comment::{CreateComment, CreateCommentLike, GetComments, SaveComment};
use crate::community::{FollowCommunity, GetCommunity, ListCommunities};
use crate::person::{GetPersonDetails, Login};
use crate::post::{CreatePostLike, GetPost, GetPosts, SavePost};
use crate::site::GetSite;
use vstd::prelude::*;
use vstd::string::StringExecFns;

verus! {

/// How a request is sent: as a query string, or as a JSON body.
#[allow(non_camel_case_types)]
#[derive(Debug, Clone, Copy, PartialEq, Eq, Structural)]
pub enum HttpMode {
    GET,
    POST,
}

/// Why a request failed.
#[derive(Debug, Clone, PartialEq, Eq)]
pub enum ClientError {
    /// The request could not be written as a query string.
    QueryString(String),
    /// The request or the response was not valid JSON of the expected shape.
    JsonError(String),
    /// The server could not be reached, or sent no text.
    HttpError,
    /// The endpoint needs a logged-in user.
    NotAuthorized,
}

/// A token as text.
pub open spec fn token_view(jwt: Option<String>) -> Option<Seq<char>> {
    match jwt {
        Some(t) => Some(t@),
        None => None,
    }
}

/// A request of the remote API.
pub trait LemmyRequest: Sized {
    /// The path of the endpoint, under `/api/v3`.
    spec fn path_spec() -> Seq<char>;

    spec fn mode_spec() -> HttpMode;

    /// The endpoint refuses a request without a token.
    spec fn requires_auth() -> bool;

    /// The request has a field for the token.
    spec fn carries_auth() -> bool;

    /// The token that the request carries.
    spec fn auth_of(&self) -> Option<Seq<char>>;

    /// The two requests agree on every field but the token.
    spec fn same_except_auth(&self, other: &Self) -> bool;

    fn get_path() -> (r: &'static str)
        ensures
            r@ == Self::path_spec(),
    ;

    fn get_http_mode() -> (r: HttpMode)
        ensures
            r == Self::mode_spec(),
    ;

    /// Attaches the token of the logged-in user, if any. Fails, changing
    /// nothing, where the endpoint needs a token and there is none.
    fn set_auth(&mut self, jwt: Option<String>) -> (r: Result<(), ClientError>)
        ensures
            final(self).same_except_auth(old(self)),
            Self::requires_auth() && jwt is None ==> r == Err::<(), ClientError>(
                ClientError::NotAuthorized,
            ) && *final(self) == *old(self),
            !(Self::requires_auth() && jwt is None) ==> r is Ok && final(self).auth_of() == (if Self::carries_auth() {
                token_view(jwt)
            } else {
                None
            }),
    ;
}

/// The address of a request: the API root of `hostname`, the endpoint's
/// path, and for a request sent as a query string, `?` and the query.
pub open spec fn api_url(hostname: Seq<char>, path: Seq<char>, mode: HttpMode, query: Seq<char>) -> Seq<char> {
    match mode {
        HttpMode::GET => hostname + "/api/v3"@ + path + "?"@ + query,
        HttpMode::POST => hostname + "/api/v3"@ + path,
    }
}

/// The address of a request; `query` is the request written as a query
/// string, and is left out of a request sent as a JSON body.
pub fn get_url(hostname: &str, path: &str, mode: HttpMode, query: &str) -> (r: String)
    ensures
        r@ == api_url(hostname@, path@, mode, query@),
{
    let mut url = String::from_str(hostname);
    url.append("/api/v3");
    url.append(path);
    match mode {
        HttpMode::GET => {
            url.append("?");
            url.append(query);
        },
        HttpMode::POST => {},
    }
    url
}

impl LemmyRequest for GetPost {
    open spec fn path_spec() -> Seq<char> {
        "/post"@
    }

    open spec fn mode_spec() -> HttpMode {
        HttpMode::GET
    }

    open spec fn requires_auth() -> bool {
        false
    }

    open spec fn carries_auth() -> bool {
        true
    }

    open spec fn auth_of(&self) -> Option<Seq<char>> {
        token_view(self.auth)
    }

    open spec fn same_except_auth(&self, other: &Self) -> bool {
        self.id == other.id
        && self.comment_id == other.comment_id
    }

    fn get_path() -> (r: &'static str) {
        "/post"
    }

    fn get_http_mode() -> (r: HttpMode) {
        HttpMode::GET
    }

    fn set_auth(&mut self, jwt: Option<String>) -> (r: Result<(), ClientError>) {
        self.auth = jwt;
        Ok(())
    }
}

impl LemmyRequest for CreatePostLike {
    open spec fn path_spec() -> Seq<char> {
        "/post/like"@
    }

    open spec fn mode_spec() -> HttpMode {
        HttpMode::POST
    }

    open spec fn requires_auth() -> bool {
        true
    }

    open spec fn carries_auth() -> bool {
        true
    }

    open spec fn auth_of(&self) -> Option<Seq<char>> {
        Some(self.auth@)
    }

    open spec fn same_except_auth(&self, other: &Self) -> bool {
        self.post_id == other.post_id
        && self.score == other.score
    }

    fn get_path() -> (r: &'static str) {
        "/post/like"
    }

    fn get_http_mode() -> (r: HttpMode) {
        HttpMode::POST
    }

    fn set_auth(&mut self, jwt: Option<String>) -> (r: Result<(), ClientError>) {
        match jwt {
            Some(t) => {
                self.auth = t;
                Ok(())
            },
            None => Err(ClientError::NotAuthorized),
        }
    }
}

impl LemmyRequest for GetPosts {
    open spec fn path_spec() -> Seq<char> {
        "/post/list"@
    }

    open spec fn mode_spec() -> HttpMode {
        HttpMode::GET
    }

    open spec fn requires_auth() -> bool {
        false
    }

    open spec fn carries_auth() -> bool {
        true
    }

    open spec fn auth_of(&self) -> Option<Seq<char>> {
        token_view(self.auth)
    }

    open spec fn same_except_auth(&self, other: &Self) -> bool {
        self.type_ == other.type_
        && self.sort == other.sort
        && self.page == other.page
        && self.limit == other.limit
        && self.community_id == other.community_id
        && self.community_name == other.community_name
        && self.saved_only == other.saved_only
    }

    fn get_path() -> (r: &'static str) {
        "/post/list"
    }

    fn get_http_mode() -> (r: HttpMode) {
        HttpMode::GET
    }

    fn set_auth(&mut self, jwt: Option<String>) -> (r: Result<(), ClientError>) {
        self.auth = jwt;
        Ok(())
    }
}

impl LemmyRequest for GetComments {
    open spec fn path_spec() -> Seq<char> {
        "/comment/list"@
    }

    open spec fn mode_spec() -> HttpMode {
        HttpMode::GET
    }

    open spec fn requires_auth() -> bool {
        false
    }

    open spec fn carries_auth() -> bool {
        true
    }

    open spec fn auth_of(&self) -> Option<Seq<char>> {
        token_view(self.auth)
    }

    open spec fn same_except_auth(&self, other: &Self) -> bool {
        self.type_ == other.type_
        && self.sort == other.sort
        && self.max_depth == other.max_depth
        && self.page == other.page
        && self.limit == other.limit
        && self.community_id == other.community_id
        && self.community_name == other.community_name
        && self.post_id == other.post_id
        && self.parent_id == other.parent_id
        && self.saved_only == other.saved_only
    }

    fn get_path() -> (r: &'static str) {
        "/comment/list"
    }

    fn get_http_mode() -> (r: HttpMode) {
        HttpMode::GET
    }

    fn set_auth(&mut self, jwt: Option<String>) -> (r: Result<(), ClientError>) {
        self.auth = jwt;
        Ok(())
    }
}

impl LemmyRequest for GetPersonDetails {
    open spec fn path_spec() -> Seq<char> {
        "/user"@
    }

    open spec fn mode_spec() -> HttpMode {
        HttpMode::GET
    }

    open spec fn requires_auth() -> bool {
        false
    }

    open spec fn carries_auth() -> bool {
        true
    }

    open spec fn auth_of(&self) -> Option<Seq<char>> {
        token_view(self.auth)
    }

    open spec fn same_except_auth(&self, other: &Self) -> bool {
        self.person_id == other.person_id
        && self.username == other.username
        && self.sort == other.sort
        && self.page == other.page
        && self.limit == other.limit
        && self.community_id == other.community_id
        && self.saved_only == other.saved_only
    }

    fn get_path() -> (r: &'static str) {
        "/user"
    }

    fn get_http_mode() -> (r: HttpMode) {
        HttpMode::GET
    }

    fn set_auth(&mut self, jwt: Option<String>) -> (r: Result<(), ClientError>) {
        self.auth = jwt;
        Ok(())
    }
}

impl LemmyRequest for Login {
    open spec fn path_spec() -> Seq<char> {
        "/user/login"@
    }

    open spec fn mode_spec() -> HttpMode {
        HttpMode::POST
    }

    open spec fn requires_auth() -> bool {
        false
    }

    open spec fn carries_auth() -> bool {
        false
    }

    open spec fn auth_of(&self) -> Option<Seq<char>> {
        None
    }

    open spec fn same_except_auth(&self, other: &Self) -> bool {
        self.username_or_email == other.username_or_email
        && self.password == other.password
        && self.totp_2fa_token == other.totp_2fa_token
    }

    fn get_path() -> (r: &'static str) {
        "/user/login"
    }

    fn get_http_mode() -> (r: HttpMode) {
        HttpMode::POST
    }

    fn set_auth(&mut self, jwt: Option<String>) -> (r: Result<(), ClientError>) {
        Ok(())
    }
}

impl LemmyRequest for GetSite {
    open spec fn path_spec() -> Seq<char> {
        "/site"@
    }

    open spec fn mode_spec() -> HttpMode {
        HttpMode::GET
    }

    open spec fn requires_auth() -> bool {
        false
    }

    open spec fn carries_auth() -> bool {
        true
    }

    open spec fn auth_of(&self) -> Option<Seq<char>> {
        token_view(self.auth)
    }

    open spec fn same_except_auth(&self, other: &Self) -> bool {
        true
    }

    fn get_path() -> (r: &'static str) {
        "/site"
    }

    fn get_http_mode() -> (r: HttpMode) {
        HttpMode::GET
    }

    fn set_auth(&mut self, jwt: Option<String>) -> (r: Result<(), ClientError>) {
        self.auth = jwt;
        Ok(())
    }
}

impl LemmyRequest for ListCommunities {
    open spec fn path_spec() -> Seq<char> {
        "/community/list"@
    }

    open spec fn mode_spec() -> HttpMode {
        HttpMode::GET
    }

    open spec fn requires_auth() -> bool {
        false
    }

    open spec fn carries_auth() -> bool {
        true
    }

    open spec fn auth_of(&self) -> Option<Seq<char>> {
        token_view(self.auth)
    }

    open spec fn same_except_auth(&self, other: &Self) -> bool {
        self.type_ == other.type_
        && self.sort == other.sort
        && self.show_nsfw == other.show_nsfw
        && self.page == other.page
        && self.limit == other.limit
    }

    fn get_path() -> (r: &'static str) {
        "/community/list"
    }

    fn get_http_mode() -> (r: HttpMode) {
        HttpMode::GET
    }

    fn set_auth(&mut self, jwt: Option<String>) -> (r: Result<(), ClientError>) {
        self.auth = jwt;
        Ok(())
    }
}

impl LemmyRequest for FollowCommunity {
    open spec fn path_spec() -> Seq<char> {
        "/community/follow"@
    }

    open spec fn mode_spec() -> HttpMode {
        HttpMode::POST
    }

    open spec fn requires_auth() -> bool {
        true
    }

    open spec fn carries_auth() -> bool {
        true
    }

    open spec fn auth_of(&self) -> Option<Seq<char>> {
        Some(self.auth@)
    }

    open spec fn same_except_auth(&self, other: &Self) -> bool {
        self.community_id == other.community_id
        && self.follow == other.follow
    }

    fn get_path() -> (r: &'static str) {
        "/community/follow"
    }

    fn get_http_mode() -> (r: HttpMode) {
        HttpMode::POST
    }

    fn set_auth(&mut self, jwt: Option<String>) -> (r: Result<(), ClientError>) {
        match jwt {
            Some(t) => {
                self.auth = t;
                Ok(())
            },
            None => Err(ClientError::NotAuthorized),
        }
    }
}

impl LemmyRequest for GetCommunity {
    open spec fn path_spec() -> Seq<char> {
        "/community"@
    }

    open spec fn mode_spec() -> HttpMode {
        HttpMode::GET
    }

    open spec fn requires_auth() -> bool {
        false
    }

    open spec fn carries_auth() -> bool {
        true
    }

    open spec fn auth_of(&self) -> Option<Seq<char>> {
        token_view(self.auth)
    }

    open spec fn same_except_auth(&self, other: &Self) -> bool {
        self.id == other.id
        && self.name == other.name
    }

    fn get_path() -> (r: &'static str) {
        "/community"
    }

    fn get_http_mode() -> (r: HttpMode) {
        HttpMode::GET
    }

    fn set_auth(&mut self, jwt: Option<String>) -> (r: Result<(), ClientError>) {
        self.auth = jwt;
        Ok(())
    }
}

impl LemmyRequest for CreateCommentLike {
    open spec fn path_spec() -> Seq<char> {
        "/comment/like"@
    }

    open spec fn mode_spec() -> HttpMode {
        HttpMode::POST
    }

    open spec fn requires_auth() -> bool {
        true
    }

    open spec fn carries_auth() -> bool {
        true
    }

    open spec fn auth_of(&self) -> Option<Seq<char>> {
        Some(self.auth@)
    }

    open spec fn same_except_auth(&self, other: &Self) -> bool {
        self.comment_id == other.comment_id
        && self.score == other.score
    }

    fn get_path() -> (r: &'static str) {
        "/comment/like"
    }

    fn get_http_mode() -> (r: HttpMode) {
        HttpMode::POST
    }

    fn set_auth(&mut self, jwt: Option<String>) -> (r: Result<(), ClientError>) {
        match jwt {
            Some(t) => {
                self.auth = t;
                Ok(())
            },
            None => Err(ClientError::NotAuthorized),
        }
    }
}

impl LemmyRequest for SaveComment {
    open spec fn path_spec() -> Seq<char> {
        "/comment/save"@
    }

    open spec fn mode_spec() -> HttpMode {
        HttpMode::POST
    }

    open spec fn requires_auth() -> bool {
        true
    }

    open spec fn carries_auth() -> bool {
        true
    }

    open spec fn auth_of(&self) -> Option<Seq<char>> {
        Some(self.auth@)
    }

    open spec fn same_except_auth(&self, other: &Self) -> bool {
        self.comment_id == other.comment_id
        && self.save == other.save
    }

    fn get_path() -> (r: &'static str) {
        "/comment/save"
    }

    fn get_http_mode() -> (r: HttpMode) {
        HttpMode::POST
    }

    fn set_auth(&mut self, jwt: Option<String>) -> (r: Result<(), ClientError>) {
        match jwt {
            Some(t) => {
                self.auth = t;
                Ok(())
            },
            None => Err(ClientError::NotAuthorized),
        }
    }
}

impl LemmyRequest for SavePost {
    open spec fn path_spec() -> Seq<char> {
        "/post/save"@
    }

    open spec fn mode_spec() -> HttpMode {
        HttpMode::POST
    }

    open spec fn requires_auth() -> bool {
        true
    }

    open spec fn carries_auth() -> bool {
        true
    }

    open spec fn auth_of(&self) -> Option<Seq<char>> {
        Some(self.auth@)
    }

    open spec fn same_except_auth(&self, other: &Self) -> bool {
        self.post_id == other.post_id
        && self.save == other.save
    }

    fn get_path() -> (r: &'static str) {
        "/post/save"
    }

    fn get_http_mode() -> (r: HttpMode) {
        HttpMode::POST
    }

    fn set_auth(&mut self, jwt: Option<String>) -> (r: Result<(), ClientError>) {
        match jwt {
            Some(t) => {
                self.auth = t;
                Ok(())
            },
            None => Err(ClientError::NotAuthorized),
        }
    }
}

impl LemmyRequest for CreateComment {
    open spec fn path_spec() -> Seq<char> {
        "/comment"@
    }

    open spec fn mode_spec() -> HttpMode {
        HttpMode::POST
    }

    open spec fn requires_auth() -> bool {
        true
    }

    open spec fn carries_auth() -> bool {
        true
    }

    open spec fn auth_of(&self) -> Option<Seq<char>> {
        Some(self.auth@)
    }

    open spec fn same_except_auth(&self, other: &Self) -> bool {
        self.content == other.content
        && self.post_id == other.post_id
        && self.parent_id == other.parent_id
        && self.language_id == other.language_id
        && self.form_id == other.form_id
    }

    fn get_path() -> (r: &'static str) {
        "/comment"
    }

    fn get_http_mode() -> (r: HttpMode) {
        HttpMode::POST
    }

    fn set_auth(&mut self, jwt: Option<String>) -> (r: Result<(), ClientError>) {
        match jwt {
            Some(t) => {
                self.auth = t;
                Ok(())
            },
            None => Err(ClientError::NotAuthorized),
        }
    }
}

} // verus!
