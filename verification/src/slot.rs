//! What every typed resource has in common: a key and a home arena.

use vstd::prelude::*;
use crate::arena::Arena;
use crate::context::Context;
use crate::key::Key;
use crate::kind::ResourceKind;

verus! {

/// A typed resource whose record lives in one of the arenas of a context.
pub trait SlotMappable: Sized {
    /// The kind of the resource, which names its arena.
    spec fn resource_kind() -> ResourceKind;

    /// The key under which the resource is filed.
    spec fn slot_key(&self) -> Key;

    /// The key under which the resource is filed.
    fn key(&self) -> (key: Key)
        ensures
            key == self.slot_key(),
    ;

    /// The arena that holds the records of this type.
    fn slotmap(context: &Context) -> (arena: &Arena)
        ensures
            arena@ == context.records(Self::resource_kind()),
    ;
}

} // verus!
