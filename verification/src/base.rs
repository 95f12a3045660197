//! Types shared by writers and readers.

use std::ops::Range;
use vstd::prelude::*;

verus! {

/// Byte-length intervals of generated keys and values, both half open.
#[derive(Debug, PartialEq, Eq)]
pub struct Config {
    pub key_range: Range<usize>,
    pub value_range: Range<usize>,
}

impl Config {
    /// A length can be drawn from each interval: neither is empty.
    pub open spec fn valid(&self) -> bool {
        &&& self.key_range.start < self.key_range.end
        &&& self.value_range.start < self.value_range.end
    }

    pub fn is_valid(&self) -> (b: bool)
        ensures
            b == self.valid(),
    {
        self.key_range.start < self.key_range.end && self.value_range.start < self.value_range.end
    }
}

impl Clone for Config {
    fn clone(&self) -> (c: Self)
        ensures
            c == *self,
    {
        Config {
            key_range: self.key_range.start..self.key_range.end,
            value_range: self.value_range.start..self.value_range.end,
        }
    }
}

/// What a writer publishes to its readers: who it is, how far it has come,
/// and what its operations are drawn from.
#[derive(Debug, PartialEq, Eq)]
pub struct WriterState {
    pub index: usize,
    pub step: usize,
    pub seed: u64,
    pub config: Config,
}

} // verus!
