use vstd::prelude::*;

verus! {

#[derive(Debug, Copy, Clone, Hash, Eq, PartialEq, Default)]
pub struct InstanceId(pub i32);

} // verus!
