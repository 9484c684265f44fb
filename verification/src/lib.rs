//! A cooperative execution engine paired with a data-oriented entity/component
//! storage layer.
//!
//! The entity layer (handles with generation tags, two component storage
//! strategies, deferred destruction, the batch sweep driver) is fully
//! verified, as are the decision cores of the synchronization primitives: the
//! priority scheduler's lane bookkeeping, the sleep scheduler's time-sorted
//! wake list, the single-shot yield point, the fork-join waiter and the
//! blocking bridge's token slot. The surrounding thread pool, channels and
//! wakers live outside this crate and carry out these verified decisions.

pub mod handle;
pub mod entity_manager;
pub mod component_storage;
pub mod dense_store;
pub mod linear_store;
pub mod atomic_waiter;
pub mod scheduler;
pub mod sleep;
pub mod yielding;
pub mod block_on;
pub mod iteration;
pub mod util;
