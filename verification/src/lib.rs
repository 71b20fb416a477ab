//! An allocation-tracking and orphan-detection engine.
//!
//! The engine sits between a program's allocation call sites and the raw
//! allocator that actually reserves memory.  For every allocation made while
//! tracking is active it records the call site, the requested size and a
//! sequence number; frees and reallocations are validated against the table
//! before it is changed; and `dump` reports every allocation that is still
//! live as a candidate leak ("orphaned buffer").
//!
//! The engine never dereferences the addresses it is given: an address is an
//! opaque handle, compared for equality only.  The caller forwards each
//! request to the raw allocator itself and hands the engine the address that
//! came back.

pub mod boolean;
pub mod engine;
pub mod laws;
pub mod report;
pub mod site;
pub mod table;

pub use boolean::Boolean;
pub use engine::DumpReport;
pub use engine::SmartAlloc;
pub use engine::TrackError;
pub use site::CallSite;
pub use table::TrackingEntry;
