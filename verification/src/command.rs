//! Command pools and the command buffers allocated from them.

use vstd::prelude::*;
use crate::arena::changed;
use crate::arena::Change;
use crate::arena::filed_all;
use crate::arena::lookup;
use crate::arena::Arena;
use crate::arena::Record;
use crate::arena::CAPACITY;
use crate::context::null_key;
use crate::context::Context;
use crate::context::Teardown;
use crate::error::DriverError;
use crate::error::EngineError;
use crate::key::Key;
use crate::kind::ResourceKind;
use crate::slot::SlotMappable;

verus! {

/// A live command pool, as read from its arena.
#[derive(Clone, Copy, PartialEq, Eq, Structural, Debug)]
pub struct CommandPool {
    key: Key,
    handle: u64,
    parent_device: Key,
}

impl SlotMappable for CommandPool {
    open spec fn resource_kind() -> ResourceKind {
        ResourceKind::CommandPool
    }

    closed spec fn slot_key(&self) -> Key {
        self.key
    }

    fn key(&self) -> (key: Key) {
        self.key
    }

    fn slotmap(context: &Context) -> (arena: &Arena) {
        context.arena(ResourceKind::CommandPool)
    }
}

/// The records of the command buffers with the given handles, all allocated
/// from the pool under `pool`.
pub open spec fn buffer_records(pool: Key, handles: Seq<u64>) -> Seq<Record> {
    Seq::new(
        handles.len(),
        |i: int| Record { handle: handles[i], first_parent: pool, second_parent: null_key() },
    )
}

/// Which ancestor of a command buffer is missing, if one is: the pool under
/// `pool` is looked up first, then the device of the pool.
pub open spec fn buffer_parents(context: &Context, pool: Key) -> Option<EngineError> {
    match lookup(context.records(ResourceKind::CommandPool), pool) {
        None => Some(EngineError::NotFound(ResourceKind::CommandPool)),
        Some(record) => if context.records(ResourceKind::Device).contains_key(
            record.first_parent,
        ) {
            None
        } else {
            Some(EngineError::NotFound(ResourceKind::Device))
        },
    }
}

impl CommandPool {
    /// The native handle, in specifications.
    pub closed spec fn spec_handle(&self) -> u64 {
        self.handle
    }

    /// The key of the device, in specifications.
    pub closed spec fn spec_parent_device(&self) -> Key {
        self.parent_device
    }

    /// The last step of creating a command pool: takes what the native
    /// create call returned and files the pool under its device. A device
    /// that is not live gives `NotFound(Device)`; otherwise a refusal of the
    /// driver gives `CreationFailed`.
    pub fn new(context: &mut Context, device_key: Key, created: Result<u64, DriverError>) -> (registered:
        Result<Key, EngineError>)
        requires
            old(context).records(ResourceKind::CommandPool).dom().len() < CAPACITY,
        ensures
            match registered {
                Ok(key) => {
                    &&& old(context).records(ResourceKind::Device).contains_key(device_key)
                    &&& created is Ok
                    &&& key.issuable()
                    &&& changed(
                        old(context).ledger(ResourceKind::CommandPool),
                        final(context).ledger(ResourceKind::CommandPool),
                        (Change::Filed {
                            key,
                            record: Record {
                                handle: created->Ok_0,
                                first_parent: device_key,
                                second_parent: null_key(),
                            },
                        }),
                    )
                    &&& final(context).same_except(old(context), ResourceKind::CommandPool)
                },
                Err(error) => {
                    &&& error == if !old(context).records(ResourceKind::Device).contains_key(
                        device_key,
                    ) {
                        EngineError::NotFound(ResourceKind::Device)
                    } else {
                        EngineError::CreationFailed(created->Err_0)
                    }
                    &&& !old(context).records(ResourceKind::Device).contains_key(device_key)
                        || created is Err
                    &&& final(context).same_as(old(context))
                },
            },
    {
        context.register(ResourceKind::CommandPool, device_key, Key::null(), created)
    }

    /// The live command pool under `key`, if there is one.
    pub fn get(context: &Context, key: Key) -> (found: Option<CommandPool>)
        ensures
            match lookup(context.records(ResourceKind::CommandPool), key) {
                Some(record) => {
                    &&& found matches Some(it)
                    &&& it.slot_key() == key
                    &&& it.spec_handle() == record.handle
                    &&& it.spec_parent_device() == record.first_parent
                },
                None => found is None,
            },
    {
        match context.get(ResourceKind::CommandPool, key) {
            Some(record) => Some(
                CommandPool { key, handle: record.handle, parent_device: record.first_parent },
            ),
            None => None,
        }
    }

    /// The native handle of the pool.
    pub fn handle(&self) -> (handle: u64)
        ensures
            handle == self.spec_handle(),
    {
        self.handle
    }

    /// The key of the device that the pool belongs to.
    pub fn parent_device(&self) -> (key: Key)
        ensures
            key == self.spec_parent_device(),
    {
        self.parent_device
    }

    /// Takes what the native allocation of command buffers from this pool
    /// returned and files one record per buffer, in the order of the handles,
    /// each with this pool as its parent. The pool and its device must be
    /// live: else the error is `NotFound` of the kind that is missing, the
    /// pool's first. A refusal of the driver gives `CreationFailed`. On an
    /// error no arena changes.
    pub fn enumerate_command_buffers(
        &self,
        context: &mut Context,
        allocated: Result<Vec<u64>, DriverError>,
    ) -> (registered: Result<Vec<Key>, EngineError>)
        requires
            allocated matches Ok(handles) ==> old(context).records(
                ResourceKind::CommandBuffer,
            ).dom().len() + handles@.len() <= CAPACITY,
        ensures
            match registered {
                Ok(keys) => {
                    &&& buffer_parents(old(context), self.slot_key()) is None
                    &&& allocated is Ok
                    &&& filed_all(
                        old(context).records(ResourceKind::CommandBuffer),
                        final(context).records(ResourceKind::CommandBuffer),
                        keys@,
                        buffer_records(self.slot_key(), allocated->Ok_0@),
                    )
                    &&& forall|i: int|
                        0 <= i < keys@.len() ==> !old(context).ledger(
                            ResourceKind::CommandBuffer,
                        ).retired.contains(#[trigger] keys@[i])
                    &&& final(context).ledger(ResourceKind::CommandBuffer).retired == old(
                        context,
                    ).ledger(ResourceKind::CommandBuffer).retired
                    &&& final(context).same_except(old(context), ResourceKind::CommandBuffer)
                },
                Err(error) => {
                    &&& error == match buffer_parents(old(context), self.slot_key()) {
                        Some(missing) => missing,
                        None => EngineError::CreationFailed(allocated->Err_0),
                    }
                    &&& buffer_parents(old(context), self.slot_key()) is Some || allocated is Err
                    &&& final(context).same_as(old(context))
                },
            },
    {
        proof {
            reveal_with_fuel(Context::ancestor, 3);
        }
        match context.resolve(ResourceKind::CommandBuffer, self.key, Key::null()) {
            Err(error) => {
                return Err(error);
            },
            Ok(_) => {},
        }
        let handles = match allocated {
            Ok(handles) => handles,
            Err(error) => {
                return Err(EngineError::CreationFailed(error));
            },
        };
        let ghost before = context.records(ResourceKind::CommandBuffer);
        let ghost expected = buffer_records(self.key, handles@);
        let mut keys: Vec<Key> = Vec::new();
        let mut filed_so_far: usize = 0;
        while filed_so_far < handles.len()
            invariant
                filed_so_far <= handles.len(),
                before == old(context).records(ResourceKind::CommandBuffer),
                expected == buffer_records(self.key, handles@),
                context.records(ResourceKind::CommandBuffer).dom().len() + (handles@.len()
                    - filed_so_far) <= CAPACITY,
                filed_all(
                    before,
                    context.records(ResourceKind::CommandBuffer),
                    keys@,
                    expected.subrange(0, filed_so_far as int),
                ),
                forall|i: int|
                    0 <= i < keys@.len() ==> !old(context).ledger(
                        ResourceKind::CommandBuffer,
                    ).retired.contains(#[trigger] keys@[i]),
                context.ledger(ResourceKind::CommandBuffer).retired == old(context).ledger(
                    ResourceKind::CommandBuffer,
                ).retired,
                context.same_except(old(context), ResourceKind::CommandBuffer),
            decreases handles.len() - filed_so_far,
        {
            let record = Record {
                handle: handles[filed_so_far],
                first_parent: self.key,
                second_parent: Key::null(),
            };
            let ghost earlier = context.records(ResourceKind::CommandBuffer);
            let ghost earlier_keys = keys@;
            let key = context.file(ResourceKind::CommandBuffer, record);
            keys.push(key);
            proof {
                let now = context.records(ResourceKind::CommandBuffer);
                assert(earlier.dom() =~= now.dom().remove(key));
                let done = expected.subrange(0, filed_so_far as int);
                let grown = expected.subrange(0, filed_so_far + 1);
                assert(grown =~= done.push(record));
                assert(keys@ =~= earlier_keys.push(key));
                assert forall|i: int, j: int| 0 <= i < j < keys@.len() implies keys@[i]
                    != keys@[j] by {
                    if j == earlier_keys.len() {
                        assert(lookup(earlier, earlier_keys[i]) == Some(done[i]));
                    }
                }
                assert forall|i: int| 0 <= i < keys@.len() implies !before.contains_key(
                    #[trigger] keys@[i],
                ) && lookup(now, keys@[i]) == Some(grown[i]) by {
                    if i < earlier_keys.len() {
                        assert(lookup(earlier, earlier_keys[i]) == Some(done[i]));
                    } else {
                        if before.contains_key(key) {
                            assert(lookup(earlier, key) == Some(before[key]));
                        }
                    }
                }
                assert forall|other: Key| before.contains_key(other) implies #[trigger] lookup(
                    now,
                    other,
                ) == Some(before[other]) by {
                    assert(lookup(earlier, other) == Some(before[other]));
                }
                assert forall|other: Key| #[trigger] now.contains_key(other) implies before.contains_key(
                    other,
                ) || keys@.contains(other) by {
                    if other == key {
                        assert(keys@[earlier_keys.len() as int] == key);
                    } else {
                        assert(earlier.contains_key(other));
                        if !before.contains_key(other) {
                            let i = choose|i: int|
                                0 <= i < earlier_keys.len() && earlier_keys[i] == other;
                            assert(keys@[i] == other);
                        }
                    }
                }
            }
            filed_so_far += 1;
        }
        proof {
            assert(expected.subrange(0, filed_so_far as int) =~= expected);
        }
        Ok(keys)
    }

    /// Tears the pool down: asks for the native destroy call if the pool and
    /// its device are live, and for nothing if one is gone. The record
    /// leaves its arena either way, and no other arena changes.
    pub fn release(self, context: &mut Context) -> (plan: Teardown)
        ensures
            plan == match lookup(
                old(context).records(ResourceKind::CommandPool),
                self.slot_key(),
            ) {
                None => Teardown::Nothing(EngineError::NotFound(ResourceKind::CommandPool)),
                Some(record) => match lookup(
                    old(context).records(ResourceKind::Device),
                    record.first_parent,
                ) {
                    None => Teardown::Nothing(EngineError::NotFound(ResourceKind::Device)),
                    Some(device) => Teardown::Destroy {
                        kind: ResourceKind::CommandPool,
                        handle: record.handle,
                        parent_handle: device.handle,
                        owner: record.first_parent,
                        owner_handle: device.handle,
                    },
                },
            },
            changed(
                old(context).ledger(ResourceKind::CommandPool),
                final(context).ledger(ResourceKind::CommandPool),
                (Change::Removed { key: self.slot_key() }),
            ),
            final(context).same_except(old(context), ResourceKind::CommandPool),
        no_unwind
    {
        proof {
            reveal_with_fuel(Context::ancestor, 3);
        }
        context.teardown(ResourceKind::CommandPool, self.key)
    }
}

} // verus!
