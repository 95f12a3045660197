//! A consistency harness for a distributed key-value store.
//!
//! Writers drive deterministic streams of puts and deletes into the store.
//! Readers replay the same streams from the same seeds, read the store, and
//! hold what they find to one contract: a read may be at most one step
//! behind the writer, and by the end of a round every write has become
//! visible.
//!
//! The library holds the rules; talking to the store, waiting and retrying
//! on the clock are the caller's part:
//!
//! * [`gen`]: the workload generator. [`rng`] is the pseudo-random source
//!   under it.
//! * [`value`]: the wire form of stored values.
//! * [`writer`]: a write stream, step by step.
//! * [`reader`]: the trackers that replay and judge. [`expect`] holds their
//!   predictions.
//! * [`retry`]: what to do when the store fails.
//! * [`plan`]: seeds of the writers and which reader tracks which writer.
//! * [`lockstep`]: what the rules find on a store that is never behind.

pub mod base;
pub mod expect;
pub mod gen;
pub mod lockstep;
pub mod plan;
pub mod reader;
pub mod retry;
pub mod rng;
pub mod value;
pub mod writer;
