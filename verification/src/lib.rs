//! A concurrently-readable local mirror of a remote object inventory.
//!
//! One exclusive [`store::Writer`] applies ordered watch events (apply,
//! delete, full resync) to a shared key-to-object map; any number of cloned
//! [`store::Store`] handles read from the same map without blocking the
//! writer. The event-application logic, including the two-phase resync that
//! never transiently drops still-valid objects, is verified against a
//! mathematical map model; reads through the shared handles are live and
//! weakly consistent, so they carry only the contracts that hold of every
//! interleaving with the writer.

pub mod backing;
pub mod laws;
pub mod model;
pub mod objects;
pub mod store;
