//! A function-registry and argument-marshalling protocol for a sandboxed
//! contract-execution runtime.
//!
//! A host loads small guest modules and invokes their entry points across a
//! narrow binary boundary. This crate provides the pieces that cross that
//! boundary: a primitive codec for a fixed set of typed values
//! ([`codec`]), per-invocation argument and return channels ([`channel`]),
//! a write-once function registry with a sealed read-only phase
//! ([`registry`]), and deterministic content addressing that turns a
//! function's exported name and parameter shape into a stable lookup key
//! ([`key`]). An example guest contract built on these pieces lives in
//! [`contract`].

pub mod channel;
pub mod codec;
pub mod contract;
pub mod key;
pub mod registry;
