//! A writer and its reader, step for step.
//!
//! The harness looks for stores that lag or lose writes. This module states
//! what it finds on a store that does neither: one that applies every request
//! at once and answers every read from what it holds. There a reader that
//! verifies each step as soon as its writer has applied it raises no violation
//! and keeps no prediction, however long the run.

use crate::base::{Config, WriterState};
use crate::expect::StatusView;
use crate::gen::{GeneratorView, OpView};
use crate::reader::{ActionView, TrackerView, ViolationView};
use crate::value::lemma_decode_inverts_encode;
use crate::writer::{request_for, RequestView, WriterView};
use vstd::prelude::*;

verus! {

/// What a store holds: the bytes under each key.
pub type StoreState = Map<Seq<u8>, Seq<u8>>;

/// The store after it has applied `request`.
pub open spec fn store_after(store: StoreState, request: RequestView) -> StoreState {
    match request {
        RequestView::Put { key, value } => store.insert(key, value),
        RequestView::Delete { key } => store.remove(key),
    }
}

/// What the store answers when `key` is read.
pub open spec fn store_get(store: StoreState, key: Seq<u8>) -> Option<Seq<u8>> {
    if store.contains_key(key) {
        Some(store[key])
    } else {
        None
    }
}

/// The tracker `t` is level with the writer `w` it tracks: same identity,
/// same place in the same stream, same step, nothing left to confirm.
pub open spec fn level(w: WriterView, t: TrackerView) -> bool {
    &&& t.writer == w.index
    &&& t.gen == w.gen
    &&& t.accessed_step == w.step
    &&& t.expected == Map::<Seq<u8>, StatusView>::empty()
}

/// A writer, its tracker and the store between them, with the violation that
/// stopped them, if any.
pub ghost struct Run {
    pub writer: WriterView,
    pub tracker: TrackerView,
    pub store: StoreState,
    pub violation: Option<ViolationView>,
}

impl Run {
    /// One step of writer and tracker: the writer draws its operation and the
    /// store applies it; then the tracker takes its round, reads the key and
    /// judges what the store answers.
    pub open spec fn step(self) -> Run {
        let (op, writer) = self.writer.draw();
        let store = store_after(self.store, request_for(writer.index, writer.step, op));
        let tracker = self.tracker.verify(writer.step);
        match self.tracker.verdict(writer.step) {
            Ok(ActionView::Read(replayed)) => {
                let seen = store_get(store, replayed.key());
                let tracker = tracker.advance(replayed);
                Run {
                    writer,
                    tracker: tracker.observe(replayed, seen),
                    store,
                    violation: tracker.violation(replayed, seen),
                }
            },
            Ok(ActionView::RoundComplete) => Run { writer, tracker, store, violation: None },
            Err(v) => Run { writer, tracker, store, violation: Some(v) },
        }
    }

    /// `n` steps, or as many as pass without a violation.
    pub open spec fn steps(self, n: nat) -> Run
        decreases n,
    {
        if n == 0 || self.violation is Some {
            self
        } else {
            self.step().steps((n - 1) as nat)
        }
    }
}

/// Every put among the next `n` operations of `g` carries at least one byte
/// of payload.
pub open spec fn puts_carry_payload(g: GeneratorView, n: nat) -> bool
    decreases n,
{
    n == 0 || {
        &&& g.draw().0 matches OpView::Put { value, .. } ==> value.len() > 0
        &&& puts_carry_payload(g.draw().1, (n - 1) as nat)
    }
}

/// One step from level to level: the tracker replays the operation that the
/// writer applied, finds in the store what that operation left there, and
/// has nothing to object to and nothing to remember.
pub proof fn lemma_step_stays_level(run: Run)
    requires
        level(run.writer, run.tracker),
        run.violation is None,
        run.writer.step < usize::MAX,
        run.writer.gen.draw().0 matches OpView::Put { value, .. } ==> value.len() > 0,
    ensures
        run.step().violation is None,
        level(run.step().writer, run.step().tracker),
        run.step().writer.step == run.writer.step + 1,
{
    let (op, writer) = run.writer.draw();
    let store = store_after(run.store, request_for(writer.index, writer.step, op));
    let tracker = run.tracker.verify(writer.step);
    assert(run.tracker.verdict(writer.step) == Ok::<ActionView, ViolationView>(
        ActionView::Read(op),
    ));
    assert(tracker.advance(op) == tracker);
    match op {
        OpView::Put { key, value } => {
            lemma_decode_inverts_encode(writer.index, writer.step, value);
        },
        OpView::Delete { key } => {},
    }
}

/// Convergence: from level, on a store that applies every request at once,
/// `n` steps pass without a violation and end level again, `n` steps on. A
/// round taken then finds the tracker caught up with nothing unresolved, and
/// starts it over.
pub proof fn lemma_lockstep_converges(run: Run, n: nat)
    requires
        level(run.writer, run.tracker),
        run.violation is None,
        run.writer.step + n <= usize::MAX,
        puts_carry_payload(run.writer.gen, n),
    ensures
        run.steps(n).violation is None,
        level(run.steps(n).writer, run.steps(n).tracker),
        run.steps(n).writer.step == run.writer.step + n,
        run.steps(n).tracker.accessed_step == run.writer.step + n,
        run.steps(n).tracker.verdict(run.steps(n).writer.step) == Ok::<ActionView, ViolationView>(
            ActionView::RoundComplete,
        ),
        run.steps(n).tracker.verify(run.steps(n).writer.step) == run.steps(n).tracker.reset(),
    decreases n,
{
    if n > 0 {
        lemma_step_stays_level(run);
        lemma_lockstep_converges(run.step(), (n - 1) as nat);
    }
}

/// A writer that starts at step 0 and a tracker made from what it publishes
/// are level, so `n` steps on such a store take both to step `n` without a
/// violation.
pub proof fn lemma_fresh_run_converges(
    index: usize,
    seed: u64,
    config: Config,
    store: StoreState,
    n: nat,
)
    requires
        n <= usize::MAX,
        puts_carry_payload(GeneratorView::fresh(seed, index as u64, config), n),
    ensures
        ({
            let writer = WriterView::fresh(index, seed, config);
            let tracker = TrackerView::fresh(WriterState { index, step: 0, seed, config });
            let end = (Run { writer, tracker, store, violation: None }).steps(n);
            &&& end.violation is None
            &&& end.writer.step == n
            &&& end.tracker.accessed_step == n
            &&& end.tracker.expected == Map::<Seq<u8>, StatusView>::empty()
        }),
{
    let writer = WriterView::fresh(index, seed, config);
    let tracker = TrackerView::fresh(WriterState { index, step: 0, seed, config });
    lemma_lockstep_converges(Run { writer, tracker, store, violation: None }, n);
}

} // verus!
