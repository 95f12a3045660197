//! The writer: one generator, executed step by step against the store.
//!
//! A writer draws its next operation, counts the step, and says which request
//! the store is to get. Sending the request, and sending it again when the
//! store fails, is the caller's part; see [`crate::retry`].

use crate::base::{Config, WriterState};
use crate::gen::{fits, Generator, GeneratorView, NextOp, OpView};
use crate::value::{encoded, Value};
use vstd::prelude::*;

verus! {

/// A request to the store.
#[derive(Debug, Clone, PartialEq, Eq)]
pub enum StoreRequest {
    Put { key: Vec<u8>, value: Vec<u8> },
    Delete { key: Vec<u8> },
}

/// What a [`StoreRequest`] stands for.
pub ghost enum RequestView {
    Put { key: Seq<u8>, value: Seq<u8> },
    Delete { key: Seq<u8> },
}

impl View for StoreRequest {
    type V = RequestView;

    open spec fn view(&self) -> RequestView {
        match *self {
            StoreRequest::Put { key, value } => RequestView::Put { key: key@, value: value@ },
            StoreRequest::Delete { key } => RequestView::Delete { key: key@ },
        }
    }
}

/// The request by which writer `index` applies `op` at `step`: a put stores
/// the generated value under its provenance, a delete names the key.
pub open spec fn request_for(index: usize, step: usize, op: OpView) -> RequestView {
    match op {
        OpView::Put { key, value } => RequestView::Put { key, value: encoded(index, step, value) },
        OpView::Delete { key } => RequestView::Delete { key },
    }
}

/// What a [`Writer`] stands for.
pub ghost struct WriterView {
    pub index: usize,
    pub step: usize,
    pub gen: GeneratorView,
}

impl WriterView {
    /// The writer before its first step.
    pub open spec fn fresh(index: usize, seed: u64, config: Config) -> Self {
        WriterView { index, step: 0, gen: GeneratorView::fresh(seed, index as u64, config) }
    }

    /// The next operation, with the writer after drawing it: the step is
    /// counted as the operation is drawn.
    pub open spec fn draw(self) -> (OpView, Self) {
        let (op, gen) = self.gen.draw();
        (op, WriterView { step: (self.step + 1) as usize, gen, ..self })
    }
}

/// One write stream.
pub struct Writer {
    index: usize,
    step: usize,
    gen: Generator,
}

impl View for Writer {
    type V = WriterView;

    closed spec fn view(&self) -> WriterView {
        WriterView { index: self.index, step: self.step, gen: self.gen@ }
    }
}

impl Writer {
    /// Writer `index` at step 0, drawing from the stream of `seed`.
    pub fn new(index: usize, seed: u64, config: Config) -> (w: Self)
        ensures
            w@ == WriterView::fresh(index, seed, config),
    {
        Writer { index, step: 0, gen: Generator::new(seed, index as u64, config) }
    }

    /// Draws the next operation and counts its step, so that the published
    /// step is that of the operation about to be applied.
    pub fn next_op(&mut self) -> (op: NextOp)
        requires
            old(self)@.gen.cfg.valid(),
            old(self)@.step < usize::MAX,
        ensures
            (op@, final(self)@) == old(self)@.draw(),
            fits(op@, old(self)@.gen.writer, old(self)@.gen.cfg),
    {
        self.step = self.step + 1;
        self.gen.next_op()
    }

    /// The request that applies `op` at the current step.
    pub fn execute(&self, op: &NextOp) -> (request: StoreRequest)
        ensures
            request@ == request_for(self@.index, self@.step, op@),
    {
        match op {
            NextOp::Delete { key } => StoreRequest::Delete { key: key.clone() },
            NextOp::Put { key, value } => {
                let v = Value::new(self.index, self.step, value.clone());
                StoreRequest::Put { key: key.clone(), value: v.encode() }
            },
        }
    }

    #[inline]
    pub fn index(&self) -> (i: usize)
        ensures
            i == self@.index,
    {
        self.index
    }

    /// The step of the operation drawn last; 0 before the first.
    #[inline]
    pub fn current_step(&self) -> (s: usize)
        ensures
            s == self@.step,
    {
        self.step
    }

    /// The seed of the writer's generator.
    #[inline]
    pub fn seed(&self) -> (s: u64)
        ensures
            s == self@.gen.seed,
    {
        self.gen.seed()
    }

    /// The configuration of the writer's generator.
    #[inline]
    pub fn config(&self) -> (c: Config)
        ensures
            c == self@.gen.cfg,
    {
        self.gen.config()
    }

    /// What the writer publishes to its readers.
    pub fn state(&self) -> (s: WriterState)
        ensures
            s == (WriterState {
                index: self@.index,
                step: self@.step,
                seed: self@.gen.seed,
                config: self@.gen.cfg,
            }),
    {
        WriterState {
            index: self.index,
            step: self.step,
            seed: self.gen.seed(),
            config: self.gen.config(),
        }
    }
}

} // verus!
