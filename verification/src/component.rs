//! Components of the entity-component system.

use vstd::prelude::*;

verus! {

/// Plain data that can be attached to an entity: any type that is copied
/// freely, lives as long as the program, and may be shared between threads.
pub trait Component: Copy + Send + Sync + 'static {

}

impl<T> Component for T where T: Copy + Send + Sync + 'static {

}

} // verus!
