//! Wire codec of stored values.
//!
//! A stored value binds a payload to the writer that produced it and to the
//! step at which it was written:
//!
//! ```text
//! [writer identity: 8 bytes LE][step index: 8 bytes LE][payload: the rest]
//! ```
//!
//! A buffer is a stored value only if it is longer than its header.

use vstd::bytes::*;
use vstd::prelude::*;
use vstd::slice::*;

verus! {

/// Bytes taken by one header field.
pub const FIELD_LEN: usize = 8;

/// Bytes taken by the header: writer identity, then step index.
pub const HEADER_LEN: usize = 16;

/// A payload together with its provenance.
pub struct Value {
    writer: usize,
    index: usize,
    inner: Vec<u8>,
}

/// What a [`Value`] stands for.
pub ghost struct ValueView {
    pub writer: usize,
    pub index: usize,
    pub payload: Seq<u8>,
}

/// Why a buffer is not a stored value.
#[derive(Debug, Clone, Copy, PartialEq, Eq)]
pub enum CodecError {
    /// The buffer holds no payload byte behind the header.
    TooShort { len: usize },
}

/// The wire form of `(writer, index, payload)`.
pub open spec fn encoded(writer: usize, index: usize, payload: Seq<u8>) -> Seq<u8> {
    spec_u64_to_le_bytes(writer as u64) + spec_u64_to_le_bytes(index as u64) + payload
}

/// Whether `bytes` can be read as a stored value.
pub open spec fn decodable(bytes: Seq<u8>) -> bool {
    bytes.len() > HEADER_LEN
}

/// What `bytes` reads as, where it is [`decodable`].
pub open spec fn decoded(bytes: Seq<u8>) -> ValueView {
    ValueView {
        writer: spec_u64_from_le_bytes(bytes.subrange(0, FIELD_LEN as int)) as usize,
        index: spec_u64_from_le_bytes(bytes.subrange(FIELD_LEN as int, HEADER_LEN as int)) as usize,
        payload: bytes.subrange(HEADER_LEN as int, bytes.len() as int),
    }
}

impl View for Value {
    type V = ValueView;

    closed spec fn view(&self) -> ValueView {
        ValueView { writer: self.writer, index: self.index, payload: self.inner@ }
    }
}

/// A copy of `src[from..to]`.
fn copy_range(src: &[u8], from: usize, to: usize) -> (out: Vec<u8>)
    requires
        from <= to <= src@.len(),
    ensures
        out@ == src@.subrange(from as int, to as int),
{
    let mut out: Vec<u8> = Vec::new();
    let mut i: usize = from;
    while i < to
        invariant
            from <= i <= to <= src@.len(),
            out@ == src@.subrange(from as int, i as int),
        decreases to - i,
    {
        out.push(src[i]);
        i = i + 1;
    }
    out
}

impl Value {
    pub fn new(writer: usize, index: usize, inner: Vec<u8>) -> (v: Self)
        ensures
            v@ == (ValueView { writer, index, payload: inner@ }),
    {
        Value { writer, index, inner }
    }

    /// The wire form of this value: always longer than the header by the
    /// payload's length.
    pub fn encode(&self) -> (buf: Vec<u8>)
        ensures
            buf@ == encoded(self@.writer, self@.index, self@.payload),
            buf@.len() == HEADER_LEN + self@.payload.len(),
    {
        proof {
            lemma_auto_spec_u64_to_from_le_bytes();
        }
        let mut buf = u64_to_le_bytes(self.writer as u64);
        let mut index = u64_to_le_bytes(self.index as u64);
        buf.append(&mut index);
        let mut payload = copy_range(self.inner.as_slice(), 0, self.inner.len());
        assert(payload@ == self.inner@);
        buf.append(&mut payload);
        buf
    }

    /// Reads a stored value back from its wire form. Fails exactly on the
    /// buffers that hold no payload byte.
    pub fn decode(bytes: &[u8]) -> (r: Result<Self, CodecError>)
        ensures
            decodable(bytes@) <==> r is Ok,
            r matches Ok(v) ==> v@ == decoded(bytes@),
            r matches Err(e) ==> e == (CodecError::TooShort { len: bytes@.len() as usize }),
    {
        let len = bytes.len();
        if len <= HEADER_LEN {
            return Err(CodecError::TooShort { len });
        }
        let writer = u64_from_le_bytes(slice_subrange(bytes, 0, FIELD_LEN));
        let index = u64_from_le_bytes(slice_subrange(bytes, FIELD_LEN, HEADER_LEN));
        let inner = copy_range(bytes, HEADER_LEN, len);
        Ok(Value { writer: writer as usize, index: index as usize, inner })
    }

    #[inline]
    pub fn writer(&self) -> (w: usize)
        ensures
            w == self@.writer,
    {
        self.writer
    }

    #[inline]
    pub fn index(&self) -> (i: usize)
        ensures
            i == self@.index,
    {
        self.index
    }

    #[inline]
    pub fn value(&self) -> (payload: Vec<u8>)
        ensures
            payload@ == self@.payload,
    {
        copy_range(self.inner.as_slice(), 0, self.inner.len())
    }
}

/// Round trip: reading back the wire form of `(writer, index, payload)` gives
/// `(writer, index, payload)` again, for every payload of at least one byte.
pub proof fn lemma_decode_inverts_encode(writer: usize, index: usize, payload: Seq<u8>)
    requires
        payload.len() > 0,
    ensures
        decodable(encoded(writer, index, payload)),
        decoded(encoded(writer, index, payload)) == (ValueView { writer, index, payload }),
{
    lemma_auto_spec_u64_to_from_le_bytes();
    let w = spec_u64_to_le_bytes(writer as u64);
    let i = spec_u64_to_le_bytes(index as u64);
    let bytes = encoded(writer, index, payload);
    assert(bytes.subrange(0, FIELD_LEN as int) =~= w);
    assert(bytes.subrange(FIELD_LEN as int, HEADER_LEN as int) =~= i);
    assert(bytes.subrange(HEADER_LEN as int, bytes.len() as int) =~= payload);
}

/// The wire form is the header followed by the payload, so a value without
/// payload encodes to a bare header, which does not read back.
pub proof fn lemma_encoded_len(writer: usize, index: usize, payload: Seq<u8>)
    ensures
        encoded(writer, index, payload).len() == HEADER_LEN + payload.len(),
        decodable(encoded(writer, index, payload)) <==> payload.len() > 0,
{
    lemma_auto_spec_u64_to_from_le_bytes();
}

} // verus!
