use crate::post::LanguageId;
use vstd::prelude::*;

verus! {

/// A language.
#[derive(Clone, PartialEq, Eq, Debug)]
pub struct Language {
    pub id: LanguageId,
    pub code: String,
    pub name: String,
}

} // verus!
