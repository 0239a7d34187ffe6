//! Keyed arenas for the objects of a graphics driver, with the protocols that
//! create and destroy them in an order their dependencies allow.
//!
//! A GPU object lives under other GPU objects: a command pool under a device,
//! a pipeline under a render pass and a pipeline layout. The driver itself
//! offers only "create" and "destroy". This library keeps, for every live
//! object, a record with its native handle and the keys of its parents, one
//! [`arena::Arena`] per kind of object, all in one [`context::Context`].
//! Resources name each other by [`key::Key`] only: a key that is stale finds
//! nothing, and never a record that is not its own.
//!
//! The library makes no native call. A creation runs in two halves around the
//! call: [`context::Context::resolve`] finds the parents and says what the
//! call needs, and [`context::Context::register`] takes what the call
//! returned. A teardown, [`context::Context::teardown`], says which native
//! object to destroy through which owner, or that there is nothing to do
//! because an ancestor is already gone. The typed modules ([`command`],
//! [`framebuffer`], [`physical_device`], [`pipeline`]) give each protocol the
//! signature of its kind.
//!
//! Every function is verified against its contract; the contracts speak of
//! the contents of the arenas as maps from keys to records.

pub mod arena;
pub mod command;
pub mod component;
pub mod context;
pub mod error;
pub mod framebuffer;
pub mod key;
pub mod kind;
pub mod physical_device;
pub mod pipeline;
pub mod rank;
pub mod slot;
pub mod window;
