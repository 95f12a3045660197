//! The reader: replays what its writers do and holds the store to it.
//!
//! For each writer it tracks, a reader keeps a [`WriterTracker`]: a replica of
//! the writer's generator, the step up to which it has replayed, and the
//! predictions that later reads have yet to confirm. Each round it compares
//! its step with the step that the writer has published:
//!
//! * behind: it replays one operation, reads the key from the store and
//!   judges what it finds ([`WriterTracker::verify_next_op`]);
//! * level: the round is over. Every prediction must have been confirmed;
//!   then the tracker starts over from the seed.
//!
//! A read may lag behind the writer by one step. Anything older is a
//! [`Violation`]. Reading from the store, and reading again when the store
//! fails, is the caller's part; see [`crate::retry`].

use crate::base::WriterState;
use crate::expect::{distinct_keys, map_of, ExpectedStatus, Pending, Predictions, StatusView};
use crate::gen::{fits, Generator, GeneratorView, NextOp, OpView};
use crate::value::{decodable, decoded, Value};
use vstd::prelude::*;

verus! {

/// Milliseconds that a reader waits between two rounds.
pub const POLL_INTERVAL_MILLIS: u64 = 10;

/// A finding: the store broke the contract. None is recovered from.
#[derive(Debug, PartialEq, Eq)]
pub enum Violation {
    /// The stored bytes hold no payload behind the header.
    Corrupt { writer: usize, key: Vec<u8>, accessed_step: usize, len: usize },
    /// The stored value is more than one step behind the reader.
    Stale { writer: usize, key: Vec<u8>, accessed_step: usize, stored_step: usize, observed: Vec<u8> },
    /// The stored value is of the step that was replayed, with another payload.
    Mismatch { writer: usize, key: Vec<u8>, step: usize, expected: Vec<u8>, observed: Vec<u8> },
    /// The stored value is of a step that the reader has not reached.
    WriterAhead {
        writer: usize,
        key: Vec<u8>,
        accessed_step: usize,
        stored_step: usize,
        observed: Vec<u8>,
    },
    /// The round is over and predictions are left.
    Unresolved { writer: usize, accessed_step: usize, pending: Vec<Pending> },
}

/// What a [`Violation`] stands for. The predictions left over are a map.
pub ghost enum ViolationView {
    Corrupt { writer: usize, key: Seq<u8>, accessed_step: usize, len: usize },
    Stale { writer: usize, key: Seq<u8>, accessed_step: usize, stored_step: usize, observed: Seq<u8> },
    Mismatch { writer: usize, key: Seq<u8>, step: usize, expected: Seq<u8>, observed: Seq<u8> },
    WriterAhead {
        writer: usize,
        key: Seq<u8>,
        accessed_step: usize,
        stored_step: usize,
        observed: Seq<u8>,
    },
    Unresolved { writer: usize, accessed_step: usize, pending: Map<Seq<u8>, StatusView> },
}

impl View for Violation {
    type V = ViolationView;

    open spec fn view(&self) -> ViolationView {
        match *self {
            Violation::Corrupt { writer, key, accessed_step, len } => ViolationView::Corrupt {
                writer,
                key: key@,
                accessed_step,
                len,
            },
            Violation::Stale {
                writer,
                key,
                accessed_step,
                stored_step,
                observed,
            } => ViolationView::Stale {
                writer,
                key: key@,
                accessed_step,
                stored_step,
                observed: observed@,
            },
            Violation::Mismatch { writer, key, step, expected, observed } => ViolationView::Mismatch {
                writer,
                key: key@,
                step,
                expected: expected@,
                observed: observed@,
            },
            Violation::WriterAhead {
                writer,
                key,
                accessed_step,
                stored_step,
                observed,
            } => ViolationView::WriterAhead {
                writer,
                key: key@,
                accessed_step,
                stored_step,
                observed: observed@,
            },
            Violation::Unresolved { writer, accessed_step, pending } => ViolationView::Unresolved {
                writer,
                accessed_step,
                pending: map_of(pending@),
            },
        }
    }
}

impl Violation {
    /// The predictions left over are listed once each.
    pub open spec fn wf(&self) -> bool {
        match *self {
            Violation::Unresolved { pending, .. } => distinct_keys(pending@),
            _ => true,
        }
    }
}

/// What a tracker does next.
#[derive(Debug, PartialEq, Eq)]
pub enum VerifyAction {
    /// The tracker was level with its writer, held no prediction, and has
    /// started over.
    RoundComplete,
    /// The tracker replayed this operation: read its key and judge the result.
    Read(NextOp),
}

/// What a [`VerifyAction`] stands for.
pub ghost enum ActionView {
    RoundComplete,
    Read(OpView),
}

impl View for VerifyAction {
    type V = ActionView;

    open spec fn view(&self) -> ActionView {
        match *self {
            VerifyAction::RoundComplete => ActionView::RoundComplete,
            VerifyAction::Read(op) => ActionView::Read(op@),
        }
    }
}

/// What was read from the store, as bytes.
pub open spec fn observed_view(observed: Option<Vec<u8>>) -> Option<Seq<u8>> {
    match observed {
        Some(bytes) => Some(bytes@),
        None => None,
    }
}

/// The violation that a result carries, if any.
pub open spec fn violation_of(r: Result<(), Violation>) -> Option<ViolationView> {
    match r {
        Ok(_) => None,
        Err(v) => Some(v@),
    }
}

/// What a result of [`WriterTracker::verify`] stands for.
pub open spec fn verdict_of(r: Result<VerifyAction, Violation>) -> Result<
    ActionView,
    ViolationView,
> {
    match r {
        Ok(a) => Ok(a@),
        Err(v) => Err(v@),
    }
}

/// The staleness bound: a value written at `stored_step` is too old for a
/// reader at `accessed_step` when it is more than one step behind.
pub open spec fn is_stale(stored_step: usize, accessed_step: usize) -> bool {
    stored_step + 1 < accessed_step
}

/// What a [`WriterTracker`] stands for.
pub ghost struct TrackerView {
    pub writer: usize,
    pub accessed_step: usize,
    pub gen: GeneratorView,
    pub expected: Map<Seq<u8>, StatusView>,
}

impl TrackerView {
    /// The tracker of a writer, before its first round.
    pub open spec fn fresh(writer: WriterState) -> Self {
        TrackerView {
            writer: writer.index,
            accessed_step: 0,
            gen: GeneratorView::fresh(writer.seed, writer.index as u64, writer.config),
            expected: Map::empty(),
        }
    }

    /// The tracker at the start of a round: step 0, the generator rewound,
    /// no prediction.
    pub open spec fn reset(self) -> Self {
        TrackerView { accessed_step: 0, gen: self.gen.reset(), expected: Map::empty(), ..self }
    }

    /// Whether `op` confirms the prediction recorded for its key: a delete
    /// confirms that the key was seen absent, a put confirms a value seen at
    /// the step being replayed.
    pub open spec fn confirms(self, op: OpView) -> bool {
        &&& self.expected.contains_key(op.key())
        &&& match op {
            OpView::Delete { .. } => self.expected[op.key()] is Deleted,
            OpView::Put { .. } => self.expected[op.key()] matches StatusView::Existed { step, .. }
                && step == self.accessed_step,
        }
    }

    /// The tracker after `op` has confirmed what it can.
    pub open spec fn advance(self, op: OpView) -> Self {
        if self.confirms(op) {
            TrackerView { expected: self.expected.remove(op.key()), ..self }
        } else {
            self
        }
    }

    /// The violation that `observed` is, read under the key of `op` at this
    /// tracker's step; `None` where the store is within its contract.
    pub open spec fn violation(self, op: OpView, observed: Option<Seq<u8>>) -> Option<
        ViolationView,
    > {
        match observed {
            None => None,
            Some(bytes) => {
                let stored = decoded(bytes);
                if !decodable(bytes) {
                    Some(
                        ViolationView::Corrupt {
                            writer: self.writer,
                            key: op.key(),
                            accessed_step: self.accessed_step,
                            len: bytes.len() as usize,
                        },
                    )
                } else if is_stale(stored.index, self.accessed_step) {
                    Some(
                        ViolationView::Stale {
                            writer: self.writer,
                            key: op.key(),
                            accessed_step: self.accessed_step,
                            stored_step: stored.index,
                            observed: stored.payload,
                        },
                    )
                } else {
                    match op {
                        OpView::Delete { .. } => None,
                        OpView::Put { key, value } => {
                            if stored.index == self.accessed_step {
                                if stored.payload == value {
                                    None
                                } else {
                                    Some(
                                        ViolationView::Mismatch {
                                            writer: self.writer,
                                            key,
                                            step: self.accessed_step,
                                            expected: value,
                                            observed: stored.payload,
                                        },
                                    )
                                }
                            } else if stored.index > self.accessed_step {
                                Some(
                                    ViolationView::WriterAhead {
                                        writer: self.writer,
                                        key,
                                        accessed_step: self.accessed_step,
                                        stored_step: stored.index,
                                        observed: stored.payload,
                                    },
                                )
                            } else {
                                None
                            }
                        },
                    }
                }
            },
        }
    }

    /// The prediction to record when `observed` was read under the key of
    /// `op` and is no violation; `None` where the read settles the matter.
    pub open spec fn prediction(self, op: OpView, observed: Option<Seq<u8>>) -> Option<
        StatusView,
    > {
        match (op, observed) {
            (OpView::Delete { .. }, None) => None,
            (OpView::Put { .. }, None) => Some(StatusView::Deleted),
            (OpView::Delete { .. }, Some(bytes)) => Some(
                StatusView::Existed { value: decoded(bytes).payload, step: decoded(bytes).index },
            ),
            (OpView::Put { .. }, Some(bytes)) => if decoded(bytes).index == self.accessed_step {
                None
            } else {
                Some(
                    StatusView::Existed {
                        value: decoded(bytes).payload,
                        step: decoded(bytes).index,
                    },
                )
            },
        }
    }

    /// The tracker after it has judged `observed`, read under the key of
    /// `op`: a violation leaves it as it is.
    pub open spec fn observe(self, op: OpView, observed: Option<Seq<u8>>) -> Self {
        if self.violation(op, observed) is Some {
            self
        } else {
            match self.prediction(op, observed) {
                Some(status) => TrackerView {
                    expected: self.expected.insert(op.key(), status),
                    ..self
                },
                None => self,
            }
        }
    }

    /// The violation that the end of a round finds: predictions left over.
    pub open spec fn unresolved(self) -> Option<ViolationView> {
        if self.expected == Map::<Seq<u8>, StatusView>::empty() {
            None
        } else {
            Some(
                ViolationView::Unresolved {
                    writer: self.writer,
                    accessed_step: self.accessed_step,
                    pending: self.expected,
                },
            )
        }
    }

    /// The tracker after the end of a round: reset, unless predictions are
    /// left over.
    pub open spec fn finish_round(self) -> Self {
        if self.unresolved() is Some {
            self
        } else {
            self.reset()
        }
    }

    /// What a round answers when the writer has published `current_step`.
    pub open spec fn verdict(self, current_step: usize) -> Result<ActionView, ViolationView> {
        if self.accessed_step == current_step {
            match self.unresolved() {
                Some(v) => Err(v),
                None => Ok(ActionView::RoundComplete),
            }
        } else {
            Ok(ActionView::Read(self.gen.draw().0))
        }
    }

    /// The tracker after a round in which the writer had published
    /// `current_step`.
    pub open spec fn verify(self, current_step: usize) -> Self {
        if self.accessed_step == current_step {
            self.finish_round()
        } else {
            TrackerView {
                accessed_step: (self.accessed_step + 1) as usize,
                gen: self.gen.draw().1,
                ..self
            }
        }
    }
}

/// The reader's record of one writer.
pub struct WriterTracker {
    writer: usize,
    accessed_step: usize,
    gen: Generator,
    expected: Predictions,
}

impl View for WriterTracker {
    type V = TrackerView;

    closed spec fn view(&self) -> TrackerView {
        TrackerView {
            writer: self.writer,
            accessed_step: self.accessed_step,
            gen: self.gen@,
            expected: self.expected@,
        }
    }
}

impl WriterTracker {
    /// The predictions are a map: no key is held twice.
    pub closed spec fn wf(&self) -> bool {
        self.expected.wf()
    }

    /// The tracker of `writer`, with a generator of its own that draws what
    /// the writer's generator draws.
    pub fn new(writer: &WriterState) -> (t: Self)
        ensures
            t.wf(),
            t@ == TrackerView::fresh(*writer),
    {
        WriterTracker {
            writer: writer.index,
            accessed_step: 0,
            gen: Generator::new(writer.seed, writer.index as u64, writer.config.clone()),
            expected: Predictions::new(),
        }
    }

    /// The writer that is tracked.
    #[inline]
    pub fn writer(&self) -> (w: usize)
        ensures
            w == self@.writer,
    {
        self.writer
    }

    /// The step up to which the writer's operations have been replayed in
    /// this round.
    #[inline]
    pub fn accessed_step(&self) -> (s: usize)
        ensures
            s == self@.accessed_step,
    {
        self.accessed_step
    }

    /// Number of predictions that await confirmation.
    pub fn unresolved_count(&self) -> (n: usize)
        requires
            self.wf(),
        ensures
            n == self@.expected.len(),
            n == 0 <==> self@.expected == Map::<Seq<u8>, StatusView>::empty(),
    {
        self.expected.len()
    }

    /// The prediction recorded for `key`, if there is one.
    pub fn expected(&self, key: &Vec<u8>) -> (r: Option<&ExpectedStatus>)
        requires
            self.wf(),
        ensures
            match r {
                Some(status) => self@.expected.contains_key(key@) && status@
                    == self@.expected[key@],
                None => !self@.expected.contains_key(key@),
            },
    {
        self.expected.get(key)
    }

    /// Starts the round over: step 0, the generator rewound, no prediction.
    pub fn reset(&mut self)
        ensures
            final(self).wf(),
            final(self)@ == old(self)@.reset(),
    {
        self.accessed_step = 0;
        self.gen.reset();
        self.expected = Predictions::new();
    }

    /// One round against a writer that has published `current_step`, which
    /// the tracker has not passed. Level with the writer, the round ends
    /// ([`Self::verify_and_reset`]); behind it, the tracker moves one step on
    /// and hands out the operation of that step, drawn from its own
    /// generator, whose configuration must then be valid.
    pub fn verify(&mut self, current_step: usize) -> (r: Result<VerifyAction, Violation>)
        requires
            old(self).wf(),
            old(self)@.accessed_step <= current_step,
            old(self)@.accessed_step < current_step ==> old(self)@.gen.cfg.valid(),
        ensures
            final(self).wf(),
            final(self)@ == old(self)@.verify(current_step),
            verdict_of(r) == old(self)@.verdict(current_step),
            r matches Ok(VerifyAction::Read(op)) ==> fits(
                op@,
                old(self)@.gen.writer,
                old(self)@.gen.cfg,
            ),
            r matches Err(v) ==> v.wf(),
    {
        if self.accessed_step == current_step {
            match self.verify_and_reset() {
                Ok(()) => Ok(VerifyAction::RoundComplete),
                Err(v) => Err(v),
            }
        } else {
            self.accessed_step = self.accessed_step + 1;
            let op = self.gen.next_op();
            Ok(VerifyAction::Read(op))
        }
    }

    /// Drops the prediction that `op` confirms, if there is one.
    pub fn advance_expect_status(&mut self, op: &NextOp)
        requires
            old(self).wf(),
        ensures
            final(self).wf(),
            final(self)@ == old(self)@.advance(op@),
    {
        let confirmed = match op {
            NextOp::Delete { key } => match self.expected.get(key) {
                Some(ExpectedStatus::Deleted) => true,
                _ => false,
            },
            NextOp::Put { key, .. } => match self.expected.get(key) {
                Some(ExpectedStatus::Existed { step, .. }) => *step == self.accessed_step,
                _ => false,
            },
        };
        if confirmed {
            self.expected.remove(op.key());
        }
    }

    /// Judges what the store returned for the key of `op`, the operation of
    /// the current step: first `op` confirms what it can, then `observed` is
    /// held against the staleness bound and against `op`, and a prediction is
    /// recorded where the read leaves the matter open.
    pub fn verify_next_op(&mut self, op: &NextOp, observed: Option<Vec<u8>>) -> (r: Result<
        (),
        Violation,
    >)
        requires
            old(self).wf(),
        ensures
            final(self).wf(),
            final(self)@ == old(self)@.advance(op@).observe(op@, observed_view(observed)),
            violation_of(r) == old(self)@.advance(op@).violation(op@, observed_view(observed)),
            r matches Err(v) ==> v.wf(),
    {
        self.advance_expect_status(op);
        let bytes = match observed {
            Some(bytes) => bytes,
            None => {
                match op {
                    NextOp::Delete { .. } => {},
                    NextOp::Put { key, .. } => {
                        self.expected.insert(key.clone(), ExpectedStatus::Deleted);
                    },
                }
                return Ok(());
            },
        };
        let stored = match Value::decode(bytes.as_slice()) {
            Ok(stored) => stored,
            Err(_) => {
                return Err(
                    Violation::Corrupt {
                        writer: self.writer,
                        key: op.key().clone(),
                        accessed_step: self.accessed_step,
                        len: bytes.len(),
                    },
                );
            },
        };
        let stored_step = stored.index();
        if stored_step < self.accessed_step && self.accessed_step - stored_step > 1 {
            return Err(
                Violation::Stale {
                    writer: self.writer,
                    key: op.key().clone(),
                    accessed_step: self.accessed_step,
                    stored_step,
                    observed: stored.value(),
                },
            );
        }
        match op {
            NextOp::Delete { key } => {
                self.expected.insert(
                    key.clone(),
                    ExpectedStatus::Existed { value: stored.value(), step: stored_step },
                );
                Ok(())
            },
            NextOp::Put { key, value } => {
                let observed = stored.value();
                if stored_step == self.accessed_step {
                    let same = observed == *value;
                    proof {
                        if same {
                            assert(observed@ =~= value@);
                        }
                    }
                    if same {
                        Ok(())
                    } else {
                        Err(
                            Violation::Mismatch {
                                writer: self.writer,
                                key: key.clone(),
                                step: self.accessed_step,
                                expected: value.clone(),
                                observed,
                            },
                        )
                    }
                } else if stored_step > self.accessed_step {
                    Err(
                        Violation::WriterAhead {
                            writer: self.writer,
                            key: key.clone(),
                            accessed_step: self.accessed_step,
                            stored_step,
                            observed,
                        },
                    )
                } else {
                    self.expected.insert(
                        key.clone(),
                        ExpectedStatus::Existed { value: observed, step: stored_step },
                    );
                    Ok(())
                }
            },
        }
    }

    /// Ends a round. Predictions left over are a violation, which lists them;
    /// with none left the tracker starts over.
    pub fn verify_and_reset(&mut self) -> (r: Result<(), Violation>)
        requires
            old(self).wf(),
        ensures
            final(self).wf(),
            final(self)@ == old(self)@.finish_round(),
            violation_of(r) == old(self)@.unresolved(),
            r matches Err(v) ==> v.wf(),
    {
        if !self.expected.is_empty() {
            return Err(
                Violation::Unresolved {
                    writer: self.writer,
                    accessed_step: self.accessed_step,
                    pending: self.expected.pending(),
                },
            );
        }
        self.reset();
        Ok(())
    }
}

/// What a [`Reader`] stands for.
pub ghost struct ReaderView {
    pub index: usize,
    pub trackers: Seq<TrackerView>,
}

impl ReaderView {
    /// The reader with tracker `i` replaced by `t`.
    pub open spec fn with_tracker(self, i: int, t: TrackerView) -> Self {
        ReaderView { trackers: self.trackers.update(i, t), ..self }
    }
}

/// One verifier stream: the trackers of the writers assigned to it, which it
/// visits in order, one after the other.
pub struct Reader {
    index: usize,
    trackers: Vec<WriterTracker>,
}

impl View for Reader {
    type V = ReaderView;

    closed spec fn view(&self) -> ReaderView {
        ReaderView {
            index: self.index,
            trackers: Seq::new(self.trackers@.len(), |i: int| self.trackers@[i]@),
        }
    }
}

impl Reader {
    /// Every tracker is well formed.
    pub closed spec fn wf(&self) -> bool {
        forall|i: int| 0 <= i < self.trackers@.len() ==> (#[trigger] self.trackers@[i]).wf()
    }

    /// Reader `index` with a fresh tracker for each of `writers`, in their
    /// order.
    pub fn new(index: usize, writers: &Vec<WriterState>) -> (r: Self)
        ensures
            r.wf(),
            r@.index == index,
            r@.trackers.len() == writers@.len(),
            forall|i: int|
                0 <= i < writers@.len() ==> #[trigger] r@.trackers[i] == TrackerView::fresh(
                    writers@[i],
                ),
    {
        let mut trackers: Vec<WriterTracker> = Vec::new();
        let mut i: usize = 0;
        while i < writers.len()
            invariant
                i <= writers@.len(),
                trackers@.len() == i,
                forall|j: int| 0 <= j < i ==> (#[trigger] trackers@[j]).wf(),
                forall|j: int| 0 <= j < i ==> (#[trigger] trackers@[j])@ == TrackerView::fresh(
                    writers@[j],
                ),
            decreases writers@.len() - i,
        {
            trackers.push(WriterTracker::new(&writers[i]));
            i = i + 1;
        }
        Reader { index, trackers }
    }

    #[inline]
    pub fn index(&self) -> (i: usize)
        ensures
            i == self@.index,
    {
        self.index
    }

    /// Number of writers that this reader tracks.
    pub fn tracker_count(&self) -> (n: usize)
        ensures
            n == self@.trackers.len(),
    {
        self.trackers.len()
    }

    /// The tracker at position `tracker`.
    pub fn tracker(&self, tracker: usize) -> (t: &WriterTracker)
        requires
            self.wf(),
            tracker < self@.trackers.len(),
        ensures
            t.wf(),
            t@ == self@.trackers[tracker as int],
    {
        &self.trackers[tracker]
    }

    /// One round of tracker `tracker`; see [`WriterTracker::verify`].
    pub fn verify(&mut self, tracker: usize, current_step: usize) -> (r: Result<
        VerifyAction,
        Violation,
    >)
        requires
            old(self).wf(),
            tracker < old(self)@.trackers.len(),
            old(self)@.trackers[tracker as int].accessed_step <= current_step,
            old(self)@.trackers[tracker as int].accessed_step < current_step ==> old(
                self,
            )@.trackers[tracker as int].gen.cfg.valid(),
        ensures
            final(self).wf(),
            final(self)@ == old(self)@.with_tracker(
                tracker as int,
                old(self)@.trackers[tracker as int].verify(current_step),
            ),
            verdict_of(r) == old(self)@.trackers[tracker as int].verdict(current_step),
            r matches Ok(VerifyAction::Read(op)) ==> fits(
                op@,
                old(self)@.trackers[tracker as int].gen.writer,
                old(self)@.trackers[tracker as int].gen.cfg,
            ),
            r matches Err(v) ==> v.wf(),
    {
        let r = self.trackers[tracker].verify(current_step);
        assert(self@.trackers =~= old(self)@.trackers.update(
            tracker as int,
            old(self)@.trackers[tracker as int].verify(current_step),
        ));
        r
    }

    /// Drops the prediction of tracker `tracker` that `op` confirms; see
    /// [`WriterTracker::advance_expect_status`].
    pub fn advance_expect_status(&mut self, tracker: usize, op: &NextOp)
        requires
            old(self).wf(),
            tracker < old(self)@.trackers.len(),
        ensures
            final(self).wf(),
            final(self)@ == old(self)@.with_tracker(
                tracker as int,
                old(self)@.trackers[tracker as int].advance(op@),
            ),
    {
        self.trackers[tracker].advance_expect_status(op);
        assert(self@.trackers =~= old(self)@.trackers.update(
            tracker as int,
            old(self)@.trackers[tracker as int].advance(op@),
        ));
    }

    /// Judges what the store returned to tracker `tracker` for the key of
    /// `op`; see [`WriterTracker::verify_next_op`].
    pub fn verify_next_op(&mut self, tracker: usize, op: &NextOp, observed: Option<Vec<u8>>) -> (r:
        Result<(), Violation>)
        requires
            old(self).wf(),
            tracker < old(self)@.trackers.len(),
        ensures
            final(self).wf(),
            final(self)@ == old(self)@.with_tracker(
                tracker as int,
                old(self)@.trackers[tracker as int].advance(op@).observe(
                    op@,
                    observed_view(observed),
                ),
            ),
            violation_of(r) == old(self)@.trackers[tracker as int].advance(op@).violation(
                op@,
                observed_view(observed),
            ),
            r matches Err(v) ==> v.wf(),
    {
        let r = self.trackers[tracker].verify_next_op(op, observed);
        assert(self@.trackers =~= old(self)@.trackers.update(
            tracker as int,
            old(self)@.trackers[tracker as int].advance(op@).observe(op@, observed_view(observed)),
        ));
        r
    }

    /// Ends the round of tracker `tracker`; see
    /// [`WriterTracker::verify_and_reset`].
    pub fn verify_and_reset_tracker(&mut self, tracker: usize) -> (r: Result<(), Violation>)
        requires
            old(self).wf(),
            tracker < old(self)@.trackers.len(),
        ensures
            final(self).wf(),
            final(self)@ == old(self)@.with_tracker(
                tracker as int,
                old(self)@.trackers[tracker as int].finish_round(),
            ),
            violation_of(r) == old(self)@.trackers[tracker as int].unresolved(),
            r matches Err(v) ==> v.wf(),
    {
        let r = self.trackers[tracker].verify_and_reset();
        assert(self@.trackers =~= old(self)@.trackers.update(
            tracker as int,
            old(self)@.trackers[tracker as int].finish_round(),
        ));
        r
    }
}

/// Staleness bound: what was read is judged stale exactly when it is more
/// than one step behind the tracker. For a delete this is the only objection
/// to bytes that read as a stored value.
pub proof fn lemma_staleness_bound(t: TrackerView, op: OpView, bytes: Seq<u8>)
    requires
        decodable(bytes),
    ensures
        (t.violation(op, Some(bytes)) matches Some(v) && v is Stale) <==> decoded(bytes).index + 1
            < t.accessed_step,
        op is Delete ==> (t.violation(op, Some(bytes)) is Some <==> decoded(bytes).index + 1
            < t.accessed_step),
        t.advance(op).violation(op, Some(bytes)) == t.violation(op, Some(bytes)),
{
}

/// An operation confirms a prediction once: confirming again changes nothing,
/// so a read that is tried again after a failure is judged as the first
/// would have been.
pub proof fn lemma_advance_idempotent(t: TrackerView, op: OpView)
    ensures
        t.advance(op).advance(op) == t.advance(op),
{
    if t.confirms(op) {
        assert(!t.advance(op).expected.contains_key(op.key()));
    }
}

/// A tracker never passes its writer: a round against a published step that
/// it has not passed leaves it at or behind that step, and judging a read
/// leaves its step alone.
pub proof fn lemma_tracker_stays_behind(
    t: TrackerView,
    current_step: usize,
    op: OpView,
    observed: Option<Seq<u8>>,
)
    requires
        t.accessed_step <= current_step,
    ensures
        t.verify(current_step).accessed_step <= current_step,
        t.advance(op).observe(op, observed).accessed_step == t.accessed_step,
        t.advance(op).observe(op, observed).gen == t.gen,
        t.verify(current_step).gen.cfg == t.gen.cfg,
{
}

} // verus!
