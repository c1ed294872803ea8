//! Verified core of a host-level input-activity monitor.
//!
//! The library turns raw input events (mouse clicks, key presses) into
//! enriched audit records: it classifies each event, drives the resolution
//! of the UI element and owning process under the cursor, correlates the
//! process with its live network throughput, and formats the resulting
//! record. All platform queries (accessibility lookups, process listings,
//! network counters) are performed by an unverified driver; this crate
//! holds the decision logic, the counter bookkeeping, the text parsing and
//! the record formatting, each with a proved contract.

pub mod attribute;
pub mod event;
pub mod network;
pub mod orchestrate;
pub mod record;
pub mod subject;
pub mod text;
