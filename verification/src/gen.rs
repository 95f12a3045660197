//! The deterministic workload generator.
//!
//! A generator turns a seed, a writer identity and a [`Config`] into an
//! endless sequence of operations. Each draw first picks the kind of the
//! operation, then its key, then (for a put) its value. Keys end in the
//! writer's identity, so two writers never touch the same key.

use crate::base::Config;
use crate::rng::{
    bytes_draw, draw_i32, draw_u64, fill_bytes, range_i32_draw, range_u64_draw, rng_from_seed,
    rng_words, seeded_words,
};
use rand_xoshiro::Xoshiro256PlusPlus;
use vstd::bytes::*;
use vstd::prelude::*;
use vstd::slice::*;

verus! {

/// Number of symbols that generated bytes are taken from.
pub const ALPHABET_LEN: u8 = 62;

/// The symbols that generated bytes are taken from: `a-z`, `A-Z`, `0-9`.
pub const ALPHABET: [u8; 62] = [
    97, 98, 99, 100, 101, 102, 103, 104, 105, 106, 107, 108, 109,
    110, 111, 112, 113, 114, 115, 116, 117, 118, 119, 120, 121, 122,
    65, 66, 67, 68, 69, 70, 71, 72, 73, 74, 75, 76, 77,
    78, 79, 80, 81, 82, 83, 84, 85, 86, 87, 88, 89, 90,
    48, 49, 50, 51, 52, 53, 54, 55, 56, 57,
];

/// Bytes that the writer's identity takes at the end of a key.
pub const KEY_SUFFIX_LEN: usize = 8;

/// One operation of a workload.
#[derive(Debug, Clone, PartialEq, Eq)]
pub enum NextOp {
    Put { key: Vec<u8>, value: Vec<u8> },
    Delete { key: Vec<u8> },
}

/// What a [`NextOp`] stands for.
pub ghost enum OpView {
    Put { key: Seq<u8>, value: Seq<u8> },
    Delete { key: Seq<u8> },
}

impl OpView {
    /// The key that the operation touches.
    pub open spec fn key(self) -> Seq<u8> {
        match self {
            OpView::Put { key, .. } => key,
            OpView::Delete { key } => key,
        }
    }
}

impl View for NextOp {
    type V = OpView;

    open spec fn view(&self) -> OpView {
        match *self {
            NextOp::Put { key, value } => OpView::Put { key: key@, value: value@ },
            NextOp::Delete { key } => OpView::Delete { key: key@ },
        }
    }
}

impl NextOp {
    /// The key that the operation touches.
    pub fn key(&self) -> (k: &Vec<u8>)
        ensures
            k@ == self@.key(),
    {
        match self {
            NextOp::Put { key, .. } => key,
            NextOp::Delete { key } => key,
        }
    }
}

/// The symbol that stands for the raw byte `v`.
pub open spec fn symbol_of(v: u8) -> u8 {
    ALPHABET[(v % ALPHABET_LEN) as int]
}

/// `raw` with each byte replaced by its symbol.
pub open spec fn symbols_of(raw: Seq<u8>) -> Seq<u8> {
    Seq::new(raw.len(), |i: int| symbol_of(raw[i]))
}

/// A byte string whose length is drawn from `lo..hi` and whose bytes are
/// drawn symbols, with the state that the two draws leave.
pub open spec fn drawn_bytes(words: Seq<u64>, lo: usize, hi: usize) -> (Seq<u8>, Seq<u64>) {
    let (len, words) = range_u64_draw(words, lo as u64, hi as u64);
    let (raw, words) = bytes_draw(words, len as nat);
    (symbols_of(raw), words)
}

/// The key made of `body` for `writer`: the body, then the writer's identity
/// as eight little-endian bytes.
pub open spec fn key_of(body: Seq<u8>, writer: u64) -> Seq<u8> {
    body + spec_u64_to_le_bytes(writer)
}

/// The writer named by the last eight bytes of `key`.
pub open spec fn key_writer(key: Seq<u8>) -> u64 {
    spec_u64_from_le_bytes(key.subrange(key.len() - KEY_SUFFIX_LEN, key.len() as int))
}

/// Whether `key` is one that `writer` can produce.
pub open spec fn is_key_of(key: Seq<u8>, writer: u64) -> bool {
    exists|body: Seq<u8>| key == key_of(body, writer)
}

/// Whether `b` is a letter or a digit.
pub open spec fn is_symbol(b: u8) -> bool {
    (97 <= b <= 122) || (65 <= b <= 90) || (48 <= b <= 57)
}

/// Whether `bytes` is made of between `lo` and `hi - 1` letters and digits.
pub open spec fn is_text(bytes: Seq<u8>, lo: usize, hi: usize) -> bool {
    &&& lo <= bytes.len() < hi
    &&& forall|i: int| 0 <= i < bytes.len() ==> is_symbol(#[trigger] bytes[i])
}

/// Whether `op` has the shape of an operation of `writer` under `cfg`: the
/// key is a text of a length in the key interval followed by the writer's
/// identity, the value of a put is a text of a length in the value interval.
pub open spec fn fits(op: OpView, writer: u64, cfg: Config) -> bool {
    &&& op.key().len() >= KEY_SUFFIX_LEN
    &&& op.key() == key_of(op.key().subrange(0, op.key().len() - KEY_SUFFIX_LEN), writer)
    &&& is_text(
        op.key().subrange(0, op.key().len() - KEY_SUFFIX_LEN),
        cfg.key_range.start,
        cfg.key_range.end,
    )
    &&& op matches OpView::Put { value, .. } ==> is_text(
        value,
        cfg.value_range.start,
        cfg.value_range.end,
    )
}

/// What a [`Generator`] stands for: its parameters and the state of its
/// stream.
pub ghost struct GeneratorView {
    pub seed: u64,
    pub writer: u64,
    pub cfg: Config,
    pub words: Seq<u64>,
}

impl GeneratorView {
    /// A generator before its first draw.
    pub open spec fn fresh(seed: u64, writer: u64, cfg: Config) -> Self {
        GeneratorView { seed, writer, cfg, words: seeded_words(seed) }
    }

    /// The generator rewound to its seed.
    pub open spec fn reset(self) -> Self {
        GeneratorView { words: seeded_words(self.seed), ..self }
    }

    /// The next key, with the generator after drawing it.
    pub open spec fn draw_key(self) -> (Seq<u8>, Self) {
        let (body, words) = drawn_bytes(self.words, self.cfg.key_range.start, self.cfg.key_range.end);
        (key_of(body, self.writer), GeneratorView { words, ..self })
    }

    /// The next value, with the generator after drawing it.
    pub open spec fn draw_value(self) -> (Seq<u8>, Self) {
        let (value, words) = drawn_bytes(
            self.words,
            self.cfg.value_range.start,
            self.cfg.value_range.end,
        );
        (value, GeneratorView { words, ..self })
    }

    /// The next operation, with the generator after drawing it: a put and a
    /// delete are equally likely, the key comes before the value.
    pub open spec fn draw(self) -> (OpView, Self) {
        let (kind, words) = range_i32_draw(self.words, 0, 2);
        let (key, g) = (GeneratorView { words, ..self }).draw_key();
        if kind == 0 {
            let (value, g) = g.draw_value();
            (OpView::Put { key, value }, g)
        } else {
            (OpView::Delete { key }, g)
        }
    }

    /// The generator after `k` draws.
    pub open spec fn after(self, k: nat) -> Self
        decreases k,
    {
        if k == 0 {
            self
        } else {
            self.draw().1.after((k - 1) as nat)
        }
    }

    /// The next `k` operations.
    pub open spec fn draws(self, k: nat) -> Seq<OpView>
        decreases k,
    {
        if k == 0 {
            Seq::empty()
        } else {
            seq![self.draw().0] + self.draw().1.draws((k - 1) as nat)
        }
    }
}

/// A restartable stream of operations.
pub struct Generator {
    seed: u64,
    writer: u64,
    cfg: Config,
    rng: Xoshiro256PlusPlus,
}

impl View for Generator {
    type V = GeneratorView;

    closed spec fn view(&self) -> GeneratorView {
        GeneratorView {
            seed: self.seed,
            writer: self.writer,
            cfg: self.cfg,
            words: rng_words(self.rng),
        }
    }
}

/// The symbol that stands for the raw byte `v`: a letter or a digit.
pub fn symbol(v: u8) -> (s: u8)
    ensures
        s == symbol_of(v),
        is_symbol(s),
{
    ALPHABET[(v % ALPHABET_LEN) as usize]
}

impl Generator {
    /// A generator for `writer`, at the start of the stream of `seed`.
    pub fn new(seed: u64, writer: u64, cfg: Config) -> (g: Self)
        ensures
            g@ == GeneratorView::fresh(seed, writer, cfg),
    {
        let rng = rng_from_seed(seed);
        Generator { seed, writer, cfg, rng }
    }

    #[inline]
    pub fn seed(&self) -> (s: u64)
        ensures
            s == self@.seed,
    {
        self.seed
    }

    #[inline]
    pub fn config(&self) -> (c: Config)
        ensures
            c == self@.cfg,
    {
        self.cfg.clone()
    }

    /// The writer whose keys this generator produces.
    #[inline]
    pub fn writer(&self) -> (w: u64)
        ensures
            w == self@.writer,
    {
        self.writer
    }

    /// Rewinds the stream to its start.
    pub fn reset(&mut self)
        ensures
            final(self)@ == old(self)@.reset(),
    {
        self.rng = rng_from_seed(self.seed);
    }

    /// Draws the next operation. There is nothing to draw from an empty
    /// interval, so the configuration must be valid.
    pub fn next_op(&mut self) -> (op: NextOp)
        requires
            old(self)@.cfg.valid(),
        ensures
            (op@, final(self)@) == old(self)@.draw(),
            fits(op@, old(self)@.writer, old(self)@.cfg),
    {
        let kind = draw_i32(&mut self.rng, 0, 2);
        let key = self.next_key();
        if kind == 0 {
            let lo = self.cfg.value_range.start;
            let hi = self.cfg.value_range.end;
            let value = self.next_bytes(lo, hi);
            NextOp::Put { key, value }
        } else {
            NextOp::Delete { key }
        }
    }

    fn next_key(&mut self) -> (key: Vec<u8>)
        requires
            old(self)@.cfg.valid(),
        ensures
            (key@, final(self)@) == old(self)@.draw_key(),
            key@.len() >= KEY_SUFFIX_LEN,
            key@ == key_of(key@.subrange(0, key@.len() - KEY_SUFFIX_LEN), old(self)@.writer),
            is_text(
                key@.subrange(0, key@.len() - KEY_SUFFIX_LEN),
                old(self)@.cfg.key_range.start,
                old(self)@.cfg.key_range.end,
            ),
    {
        let lo = self.cfg.key_range.start;
        let hi = self.cfg.key_range.end;
        let mut key = self.next_bytes(lo, hi);
        let ghost body = key@;
        let mut suffix = u64_to_le_bytes(self.writer);
        key.append(&mut suffix);
        proof {
            lemma_auto_spec_u64_to_from_le_bytes();
            assert(key@.subrange(0, key@.len() - KEY_SUFFIX_LEN) =~= body);
        }
        key
    }

    /// The writer named by the last eight bytes of `key`, which must hold at
    /// least one byte before them.
    pub fn writer_from_key(key: &[u8]) -> (writer: u64)
        requires
            key@.len() > KEY_SUFFIX_LEN,
        ensures
            writer == key_writer(key@),
    {
        let len = key.len();
        u64_from_le_bytes(slice_subrange(key, len - KEY_SUFFIX_LEN, len))
    }

    fn next_bytes(&mut self, lo: usize, hi: usize) -> (buf: Vec<u8>)
        requires
            lo < hi,
        ensures
            buf@ == drawn_bytes(old(self)@.words, lo, hi).0,
            final(self)@ == (GeneratorView {
                words: drawn_bytes(old(self)@.words, lo, hi).1,
                ..old(self)@
            }),
            is_text(buf@, lo, hi),
    {
        let len = draw_u64(&mut self.rng, lo as u64, hi as u64) as usize;
        let mut buf = vec![0u8; len];
        fill_bytes(&mut self.rng, &mut buf);
        let ghost raw = buf@;
        let mut i: usize = 0;
        while i < len
            invariant
                i <= len,
                buf@.len() == len,
                raw.len() == len,
                forall|j: int| 0 <= j < i ==> buf@[j] == symbol_of(raw[j]),
                forall|j: int| 0 <= j < i ==> is_symbol(#[trigger] buf@[j]),
                forall|j: int| i <= j < len ==> buf@[j] == raw[j],
            decreases len - i,
        {
            let s = symbol(buf[i]);
            buf.set(i, s);
            i = i + 1;
        }
        assert(buf@ =~= symbols_of(raw));
        buf
    }
}

/// Drawing changes the state of the stream and nothing else.
pub proof fn lemma_after_keeps_parameters(g: GeneratorView, k: nat)
    ensures
        g.after(k).seed == g.seed,
        g.after(k).writer == g.writer,
        g.after(k).cfg == g.cfg,
        g.draws(k).len() == k,
    decreases k,
{
    if k > 0 {
        lemma_after_keeps_parameters(g.draw().1, (k - 1) as nat);
    }
}

/// Restart: a generator that drew `k` operations and was then reset is the
/// fresh generator again, so its next `k` operations are the first `k` over
/// again.
pub proof fn lemma_reset_replays(seed: u64, writer: u64, cfg: Config, k: nat)
    ensures
        GeneratorView::fresh(seed, writer, cfg).after(k).reset() == GeneratorView::fresh(
            seed,
            writer,
            cfg,
        ),
        GeneratorView::fresh(seed, writer, cfg).after(k).reset().draws(k) == GeneratorView::fresh(
            seed,
            writer,
            cfg,
        ).draws(k),
{
    lemma_after_keeps_parameters(GeneratorView::fresh(seed, writer, cfg), k);
}

/// A key ends in the identity of the writer it was made for.
pub proof fn lemma_key_names_its_writer(body: Seq<u8>, writer: u64)
    ensures
        key_of(body, writer).len() == body.len() + KEY_SUFFIX_LEN,
        key_writer(key_of(body, writer)) == writer,
{
    lemma_auto_spec_u64_to_from_le_bytes();
    let key = key_of(body, writer);
    assert(key.subrange(key.len() - KEY_SUFFIX_LEN, key.len() as int) =~= spec_u64_to_le_bytes(
        writer,
    ));
}

/// Key partition: no key belongs to two writers.
pub proof fn lemma_key_sets_disjoint(key: Seq<u8>, writer1: u64, writer2: u64)
    requires
        is_key_of(key, writer1),
        is_key_of(key, writer2),
    ensures
        writer1 == writer2,
{
    let body1 = choose|body: Seq<u8>| key == key_of(body, writer1);
    let body2 = choose|body: Seq<u8>| key == key_of(body, writer2);
    lemma_key_names_its_writer(body1, writer1);
    lemma_key_names_its_writer(body2, writer2);
}

/// Every operation that a generator draws touches a key of its own writer.
pub proof fn lemma_drawn_key_is_own(g: GeneratorView)
    ensures
        is_key_of(g.draw().0.key(), g.writer),
{
    let (kind, words) = range_i32_draw(g.words, 0, 2);
    let body = drawn_bytes(words, g.cfg.key_range.start, g.cfg.key_range.end).0;
    assert(g.draw().0.key() == key_of(body, g.writer));
}

/// Generators of two writers never draw the same key, whatever their seeds,
/// configurations and positions.
pub proof fn lemma_drawn_keys_differ(g1: GeneratorView, g2: GeneratorView)
    requires
        g1.writer != g2.writer,
    ensures
        g1.draw().0.key() != g2.draw().0.key(),
{
    lemma_drawn_key_is_own(g1);
    lemma_drawn_key_is_own(g2);
    if g1.draw().0.key() == g2.draw().0.key() {
        lemma_key_sets_disjoint(g1.draw().0.key(), g1.writer, g2.writer);
    }
}

} // verus!
