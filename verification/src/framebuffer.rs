//! Framebuffers: resources with a device as their only parent.

use vstd::prelude::*;
use crate::arena::changed;
use crate::arena::Change;
use crate::arena::lookup;
use crate::arena::Arena;
use crate::arena::Record;
use crate::arena::CAPACITY;
use crate::context::null_key;
use crate::context::Context;
use crate::context::Teardown;
use crate::error::DriverError;
use crate::error::EngineError;
use crate::key::Key;
use crate::kind::ResourceKind;
use crate::slot::SlotMappable;

verus! {

/// A live framebuffer, as read from its arena.
#[derive(Clone, Copy, PartialEq, Eq, Structural, Debug)]
pub struct Framebuffer {
    key: Key,
    handle: u64,
    parent_device: Key,
}

impl SlotMappable for Framebuffer {
    open spec fn resource_kind() -> ResourceKind {
        ResourceKind::Framebuffer
    }

    closed spec fn slot_key(&self) -> Key {
        self.key
    }

    fn key(&self) -> (key: Key) {
        self.key
    }

    fn slotmap(context: &Context) -> (arena: &Arena) {
        context.arena(ResourceKind::Framebuffer)
    }
}

impl Framebuffer {
    /// The native handle, in specifications.
    pub closed spec fn spec_handle(&self) -> u64 {
        self.handle
    }

    /// The key of the device, in specifications.
    pub closed spec fn spec_parent_device(&self) -> Key {
        self.parent_device
    }

    /// The last step of creating a framebuffer: takes what the native create
    /// call returned and files the framebuffer under its device. A device
    /// that is not live gives `NotFound(Device)`; otherwise a refusal of the
    /// driver gives `CreationFailed`.
    pub fn new(context: &mut Context, device_key: Key, created: Result<u64, DriverError>) -> (registered:
        Result<Key, EngineError>)
        requires
            old(context).records(ResourceKind::Framebuffer).dom().len() < CAPACITY,
        ensures
            match registered {
                Ok(key) => {
                    &&& old(context).records(ResourceKind::Device).contains_key(device_key)
                    &&& created is Ok
                    &&& key.issuable()
                    &&& changed(
                        old(context).ledger(ResourceKind::Framebuffer),
                        final(context).ledger(ResourceKind::Framebuffer),
                        (Change::Filed {
                            key,
                            record: Record {
                                handle: created->Ok_0,
                                first_parent: device_key,
                                second_parent: null_key(),
                            },
                        }),
                    )
                    &&& final(context).same_except(old(context), ResourceKind::Framebuffer)
                },
                Err(error) => {
                    &&& error == if !old(context).records(ResourceKind::Device).contains_key(
                        device_key,
                    ) {
                        EngineError::NotFound(ResourceKind::Device)
                    } else {
                        EngineError::CreationFailed(created->Err_0)
                    }
                    &&& !old(context).records(ResourceKind::Device).contains_key(device_key)
                        || created is Err
                    &&& final(context).same_as(old(context))
                },
            },
    {
        context.register(ResourceKind::Framebuffer, device_key, Key::null(), created)
    }

    /// The live framebuffer under `key`, if there is one.
    pub fn get(context: &Context, key: Key) -> (found: Option<Framebuffer>)
        ensures
            match lookup(context.records(ResourceKind::Framebuffer), key) {
                Some(record) => {
                    &&& found matches Some(it)
                    &&& it.slot_key() == key
                    &&& it.spec_handle() == record.handle
                    &&& it.spec_parent_device() == record.first_parent
                },
                None => found is None,
            },
    {
        match context.get(ResourceKind::Framebuffer, key) {
            Some(record) => Some(
                Framebuffer { key, handle: record.handle, parent_device: record.first_parent },
            ),
            None => None,
        }
    }

    /// The native handle of the framebuffer.
    pub fn handle(&self) -> (handle: u64)
        ensures
            handle == self.spec_handle(),
    {
        self.handle
    }

    /// The key of the device that the framebuffer belongs to.
    pub fn parent_device(&self) -> (key: Key)
        ensures
            key == self.spec_parent_device(),
    {
        self.parent_device
    }

    /// Tears the framebuffer down: asks for the native destroy call through
    /// the device if the framebuffer and the device are live, and for nothing
    /// if one is gone. The record leaves its arena either way, and no other
    /// arena changes.
    pub fn release(self, context: &mut Context) -> (plan: Teardown)
        ensures
            plan == match lookup(
                old(context).records(ResourceKind::Framebuffer),
                self.slot_key(),
            ) {
                None => Teardown::Nothing(EngineError::NotFound(ResourceKind::Framebuffer)),
                Some(record) => match lookup(
                    old(context).records(ResourceKind::Device),
                    record.first_parent,
                ) {
                    None => Teardown::Nothing(EngineError::NotFound(ResourceKind::Device)),
                    Some(device) => Teardown::Destroy {
                        kind: ResourceKind::Framebuffer,
                        handle: record.handle,
                        parent_handle: device.handle,
                        owner: record.first_parent,
                        owner_handle: device.handle,
                    },
                },
            },
            changed(
                old(context).ledger(ResourceKind::Framebuffer),
                final(context).ledger(ResourceKind::Framebuffer),
                (Change::Removed { key: self.slot_key() }),
            ),
            final(context).same_except(old(context), ResourceKind::Framebuffer),
        no_unwind
    {
        proof {
            reveal_with_fuel(Context::ancestor, 3);
        }
        context.teardown(ResourceKind::Framebuffer, self.key)
    }
}

} // verus!
