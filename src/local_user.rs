use vstd::prelude::*;

verus! {

#[derive(Debug, Copy, Clone, Hash, Eq, PartialEq, Default)]
pub struct LocalUserId(pub i32);

} // verus!
