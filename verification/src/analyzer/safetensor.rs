//! The safetensors header: its framing and the tensor entries it lists.
use crate::text::{owned, push_decimal, text_eq, decimal};
use vstd::prelude::*;

verus! {

/// One tensor entry of a safetensors header.
#[derive(Debug)]
pub struct TensorMetaRaw {
    pub name: String,
    pub shape: Vec<u64>,
    pub dtype: String,
    pub data_offsets: (u64, u64),
}

impl Clone for TensorMetaRaw {
    fn clone(&self) -> (r: Self)
        ensures
            r.name@ == self.name@,
            r.shape@ == self.shape@,
            r.dtype@ == self.dtype@,
            r.data_offsets == self.data_offsets,
    {
        let shape = self.shape.clone();
        assert(shape@ =~= self.shape@);
        TensorMetaRaw {
            name: self.name.clone(),
            shape,
            dtype: self.dtype.clone(),
            data_offsets: (self.data_offsets.0, self.data_offsets.1),
        }
    }
}

/// The description of one tensor in a safetensors header.
#[derive(Debug)]
pub struct HeaderTensor {
    pub dtype: String,
    pub shape: Vec<u64>,
    pub data_offsets: (u64, u64),
}

/// One member of a safetensors header: its name and, when the member describes
/// a tensor, that description.
#[derive(Debug)]
pub struct HeaderEntry {
    pub name: String,
    pub tensor: Option<HeaderTensor>,
}

/// Why a header yields no tensors.
#[derive(Debug, Clone, Copy, PartialEq, Eq, Structural)]
pub enum HeaderError {
    /// No member of the header describes a tensor.
    NoTensorMetadata,
}

/// A member that lists a tensor: it describes one and is not the metadata block.
pub open spec fn lists_tensor(e: HeaderEntry) -> bool {
    e.name@ != "__metadata"@ && e.tensor is Some
}

/// `t` is the tensor that the member `e` describes.
pub open spec fn tensor_of_entry(t: TensorMetaRaw, e: HeaderEntry) -> bool {
    &&& t.name@ == e.name@
    &&& t.dtype@ == e.tensor->0.dtype@
    &&& t.shape@ == e.tensor->0.shape@
    &&& t.data_offsets == e.tensor->0.data_offsets
}

/// The members of `es` that list a tensor, in order.
pub open spec fn listed(es: Seq<HeaderEntry>) -> Seq<HeaderEntry>
    decreases es.len(),
{
    if es.len() == 0 {
        Seq::empty()
    } else {
        listed(es.drop_last()) + if lists_tensor(es.last()) {
            seq![es.last()]
        } else {
            Seq::empty()
        }
    }
}

/// The tensors of a header, in member order: the metadata block and members
/// that do not describe a tensor are skipped; a header without any tensor is
/// refused.
pub fn tensors_from_header_entries(entries: &Vec<HeaderEntry>) -> (r: Result<Vec<TensorMetaRaw>, HeaderError>)
    ensures
        listed(entries@).len() == 0 <==> r is Err,
        r matches Ok(ts) ==> ts@.len() == listed(entries@).len() && forall|i: int|
            0 <= i < ts@.len() ==> tensor_of_entry(#[trigger] ts@[i], listed(entries@)[i]),
        r matches Err(e) ==> e == HeaderError::NoTensorMetadata,
{
    let mut out: Vec<TensorMetaRaw> = Vec::new();
    let mut i: usize = 0;
    while i < entries.len()
        invariant
            i <= entries.len(),
            out@.len() == listed(entries@.take(i as int)).len(),
            forall|j: int|
                0 <= j < out@.len() ==> tensor_of_entry(#[trigger] out@[j], listed(entries@.take(i as int))[j]),
        decreases entries.len() - i,
    {
        proof {
            assert(entries@.take(i + 1).drop_last() =~= entries@.take(i as int));
        }
        let e = &entries[i];
        if !text_eq(e.name.as_str(), "__metadata") {
            match &e.tensor {
                Some(t) => {
                    let shape = t.shape.clone();
                    assert(shape@ =~= t.shape@);
                    out.push(
                        TensorMetaRaw {
                            name: e.name.clone(),
                            shape,
                            dtype: t.dtype.clone(),
                            data_offsets: (t.data_offsets.0, t.data_offsets.1),
                        },
                    );
                },
                None => {},
            }
        }
        i += 1;
    }
    assert(entries@.take(entries.len() as int) =~= entries@);
    if out.len() == 0 {
        return Err(HeaderError::NoTensorMetadata);
    }
    Ok(out)
}

// ---------------------------------------------------------------------------
// Header framing
// ---------------------------------------------------------------------------
/// The little-endian value of a byte sequence.
pub open spec fn le_value(s: Seq<u8>) -> nat
    decreases s.len(),
{
    if s.len() == 0 {
        0
    } else {
        s[0] as nat + 256 * le_value(s.drop_first())
    }
}

/// `256` to the power `n`.
pub open spec fn pow256(n: nat) -> nat
    decreases n,
{
    if n == 0 {
        1
    } else {
        256 * pow256((n - 1) as nat)
    }
}

/// The header length stored in the first eight bytes of a safetensors file
/// (`u64::from_le_bytes`); `None` when fewer than eight bytes are given.
pub fn decode_header_length(prefix: &[u8]) -> (r: Option<u64>)
    ensures
        prefix@.len() < 8 <==> r is None,
        r matches Some(n) ==> n == le_value(prefix@.take(8)),
{
    if prefix.len() < 8 {
        return None;
    }
    let ghost s = prefix@.take(8);
    let mut acc: u64 = 0;
    let mut i: usize = 8;
    proof {
        assert(s.subrange(8, 8) =~= Seq::<u8>::empty());
        reveal_with_fuel(pow256, 9);
        assert(pow256(8) == 0x1_0000_0000_0000_0000);
    }
    while i > 0
        invariant
            i <= 8,
            prefix@.len() >= 8,
            s == prefix@.take(8),
            acc == le_value(s.subrange(i as int, 8)),
            acc < pow256((8 - i) as nat),
            pow256(8) == 0x1_0000_0000_0000_0000,
        decreases i,
    {
        let b = prefix[i - 1];
        proof {
            assert(s.subrange(i - 1, 8).drop_first() =~= s.subrange(i as int, 8));
            assert(s.subrange(i - 1, 8)[0] == b);
            lemma_pow256_monotone((9 - i) as nat, 8);
            assert(acc * 256 + b < pow256((9 - i) as nat)) by (nonlinear_arith)
                requires
                    acc < pow256((8 - i) as nat),
                    b < 256,
                    pow256((9 - i) as nat) == 256 * pow256((8 - i) as nat),
            ;
        }
        acc = acc * 256 + b as u64;
        i -= 1;
    }
    assert(s.subrange(0, 8) =~= s);
    Some(acc)
}

proof fn lemma_pow256_monotone(a: nat, b: nat)
    requires
        a <= b,
    ensures
        pow256(a) <= pow256(b),
    decreases b,
{
    if a < b {
        lemma_pow256_monotone(a, (b - 1) as nat);
    }
}

/// Why a header length fetched over the network cannot be used.
#[derive(Debug, Clone, Copy, PartialEq, Eq, Structural)]
pub enum HeaderLengthError {
    /// Fewer than eight bytes came back.
    Short,
    /// The header length is zero.
    Empty,
}

/// The byte range that holds a header of `len` bytes: `bytes=8-<end>`, the
/// header starting after the eight length bytes.
pub open spec fn header_range_text(len: u64) -> Seq<char> {
    "bytes=8-"@ + decimal((8 + len - 1) as nat)
}

/// The `Range` request value for the header whose length `len_bytes` starts
/// with; refused when fewer than eight bytes came back or the length is zero.
pub fn header_range_request(len_bytes: &[u8]) -> (r: Result<String, HeaderLengthError>)
    requires
        len_bytes@.len() >= 8 ==> le_value(len_bytes@.take(8)) <= u64::MAX - 8,
    ensures
        len_bytes@.len() < 8 <==> r == Err::<String, HeaderLengthError>(HeaderLengthError::Short),
        len_bytes@.len() >= 8 && le_value(len_bytes@.take(8)) == 0 <==> r == Err::<String, HeaderLengthError>(
            HeaderLengthError::Empty,
        ),
        r matches Ok(text) ==> text@ == header_range_text(le_value(len_bytes@.take(8)) as u64),
{
    let header_len = match decode_header_length(len_bytes) {
        Some(n) => n,
        None => {
            return Err(HeaderLengthError::Short);
        },
    };
    if header_len == 0 {
        return Err(HeaderLengthError::Empty);
    }
    let end = 8 + header_len - 1;
    let mut r = owned("bytes=8-");
    push_decimal(&mut r, end);
    Ok(r)
}

} // verus!
