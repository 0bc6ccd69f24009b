//! Decision logic of a method-entry observation agent for a managed runtime.
//!
//! The host runtime delivers method-entry events; for each one the agent finds
//! the provenance annotation of the declaring class, keeps it in a per-class
//! cache and hands one row per event to an append-only record sink. This crate
//! holds everything the agent decides or computes, on plain values: the walk
//! over a raw constant pool, the rendering of annotation properties, the
//! cache, the callback's state machine with its re-entrancy guard, and the
//! lines that the sink appends. Talking to the host runtime and to the file
//! system is left to the caller.

pub mod constant_pool;
pub mod text;
pub mod cache;
pub mod extractor;
pub mod sink;
pub mod callback;
pub mod attach;
pub mod layout;
pub mod protocol;
