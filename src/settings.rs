//! The logins that the reader has made.
use vstd::prelude::*;

verus! {

/// A login: the token, the instance it is valid on, and the user name.
#[derive(Debug, Clone, PartialEq, Eq, PartialOrd, Ord)]
pub struct LoginInfo {
    pub jwt: String,
    pub instance: String,
    pub username: String,
}

} // verus!
