//! The layout of a run: which seed each writer draws from, and which writers
//! each reader tracks.
//!
//! Writers are dealt to readers round robin: reader `r` of `n` tracks the
//! writers `r`, `r + n`, `r + 2n`, ... A reader beyond the last writer has
//! nothing to track and is not started.

use vstd::prelude::*;

verus! {

/// The seed of writer `index` in a run with base seed `base_seed`: the base
/// seed plus the index, wrapping round.
pub open spec fn writer_seed_of(base_seed: u64, index: usize) -> u64 {
    ((base_seed + index) % 0x1_0000_0000_0000_0000) as u64
}

/// The seed of writer `index` in a run with base seed `base_seed`.
pub fn writer_seed(base_seed: u64, index: usize) -> (seed: u64)
    ensures
        seed == writer_seed_of(base_seed, index),
{
    base_seed.wrapping_add(index as u64)
}

/// Number of readers that are started when `readers` are asked for and there
/// are `writers` writers: one per writer at most.
pub open spec fn reader_count_of(readers: usize, writers: usize) -> int {
    if readers <= writers {
        readers as int
    } else {
        writers as int
    }
}

/// Number of readers that are started; see [`reader_count_of`].
pub fn reader_count(readers: usize, writers: usize) -> (n: usize)
    ensures
        n == reader_count_of(readers, writers),
{
    if readers <= writers {
        readers
    } else {
        writers
    }
}

/// The `i`-th writer that reader `reader` of `readers` tracks.
pub open spec fn tracked_writer(reader: usize, readers: usize, i: int) -> int {
    reader + i * readers
}

/// The writers that reader `reader` of `readers` tracks among `writers`
/// writers: every `readers`-th writer from `reader` on, in rising order.
pub fn tracked_writers(reader: usize, readers: usize, writers: usize) -> (out: Vec<usize>)
    requires
        readers > 0,
    ensures
        forall|i: int|
            0 <= i < out@.len() ==> #[trigger] out@[i] == tracked_writer(reader, readers, i)
                && out@[i] < writers,
        tracked_writer(reader, readers, out@.len() as int) >= writers,
{
    let mut out: Vec<usize> = Vec::new();
    let mut writer = reader;
    assert(tracked_writer(reader, readers, 0) == reader) by (nonlinear_arith);
    while writer < writers
        invariant
            readers > 0,
            writer == tracked_writer(reader, readers, out@.len() as int) || (writer >= writers
                && tracked_writer(reader, readers, out@.len() as int) >= writers),
            forall|i: int|
                0 <= i < out@.len() ==> #[trigger] out@[i] == tracked_writer(reader, readers, i)
                    && out@[i] < writers,
        decreases writers - writer,
    {
        let ghost n = out@.len() as int;
        out.push(writer);
        assert(tracked_writer(reader, readers, n + 1) == tracked_writer(reader, readers, n)
            + readers) by (nonlinear_arith);
        if writers - writer <= readers {
            writer = writers;
        } else {
            writer = writer + readers;
        }
    }
    out
}

/// Every writer is tracked by exactly one of the readers that are started,
/// whenever there is at least one reader: writer `w` by reader
/// `w % readers`, at place `w / readers`.
pub proof fn lemma_each_writer_tracked_once(readers: usize, writers: usize, w: usize)
    requires
        readers > 0,
        w < writers,
    ensures
        (w % readers) < reader_count_of(readers, writers),
        tracked_writer((w % readers) as usize, readers, (w / readers) as int) == w,
        forall|reader: usize, i: int|
            reader < readers && 0 <= i && #[trigger] tracked_writer(reader, readers, i) == w
                ==> reader == w % readers && i == w / readers,
{
    let q = (w / readers) as int;
    let r = (w % readers) as int;
    assert(w == q * readers + r && 0 <= r < readers) by (nonlinear_arith)
        requires
            q == w as int / readers as int,
            r == w as int % readers as int,
            readers > 0,
    ;
    assert(r + q * readers == w) by (nonlinear_arith)
        requires
            w == q * readers + r,
    ;
    assert forall|reader: usize, i: int|
        reader < readers && 0 <= i && #[trigger] tracked_writer(reader, readers, i)
            == w implies reader == w % readers && i == w / readers by {
        assert(i == q && reader == r) by (nonlinear_arith)
            requires
                reader + i * readers == q * readers + r,
                0 <= reader < readers,
                0 <= r < readers,
                0 <= i,
                0 <= q,
        ;
    }
}

} // verus!
