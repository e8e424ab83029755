use crate::component::Component;
use vstd::prelude::*;

verus! {

/// Placeholder capability interface for a future query/iteration layer,
/// which would scan the storages' packed arrays and filter by liveness.
pub trait Query {

}

impl<'a, A: Component> Query for &'a A {

}

} // verus!
