//! The typed GPU buffer layer's host-side half.
//!
//! Every block uploaded to the GPU is laid out as a sequence of 32-bit words
//! (scalars, vector components, counts, padding), then flattened to
//! little-endian bytes. This module holds the word/byte flattening, the
//! two's-complement word form of signed indices, and the bind-group wiring
//! descriptors that the device shell turns into real bind groups.

use vstd::bytes::{
    lemma_auto_spec_u32_to_from_le_bytes, spec_u32_from_le_bytes, spec_u32_to_le_bytes,
    u32_from_le_bytes, u32_to_le_bytes,
};
use vstd::prelude::*;
use vstd::slice::slice_subrange;

verus! {

/// Little-endian byte flattening of a word sequence.
pub open spec fn spec_bytes_of_words(ws: Seq<u32>) -> Seq<u8>
    decreases ws.len(),
{
    if ws.len() == 0 {
        Seq::<u8>::empty()
    } else {
        spec_u32_to_le_bytes(ws[0]) + spec_bytes_of_words(ws.drop_first())
    }
}

/// Word grouping of a byte sequence; groups of four bytes, little-endian.
pub open spec fn spec_words_of_bytes(bs: Seq<u8>) -> Seq<u32>
    decreases bs.len(),
{
    if bs.len() < 4 {
        Seq::<u32>::empty()
    } else {
        seq![spec_u32_from_le_bytes(bs.subrange(0, 4))] + spec_words_of_bytes(bs.skip(4))
    }
}

pub proof fn lemma_bytes_of_words_len(ws: Seq<u32>)
    ensures
        spec_bytes_of_words(ws).len() == 4 * ws.len(),
    decreases ws.len(),
{
    lemma_auto_spec_u32_to_from_le_bytes();
    if ws.len() > 0 {
        lemma_bytes_of_words_len(ws.drop_first());
    }
}

/// Flattening one more word appends its four bytes.
pub proof fn lemma_bytes_of_words_push(ws: Seq<u32>, x: u32)
    ensures
        spec_bytes_of_words(ws.push(x)) == spec_bytes_of_words(ws) + spec_u32_to_le_bytes(x),
    decreases ws.len(),
{
    lemma_auto_spec_u32_to_from_le_bytes();
    if ws.len() == 0 {
        assert(ws.push(x)[0] == x);
        assert(ws.push(x).drop_first() =~= Seq::<u32>::empty());
        assert(spec_bytes_of_words(Seq::<u32>::empty()) == Seq::<u8>::empty());
        assert(spec_bytes_of_words(ws.push(x)) =~= spec_bytes_of_words(ws) + spec_u32_to_le_bytes(
            x,
        ));
    } else {
        lemma_bytes_of_words_push(ws.drop_first(), x);
        assert(ws.push(x).drop_first() =~= ws.drop_first().push(x));
        assert(spec_bytes_of_words(ws.push(x)) =~= spec_bytes_of_words(ws) + spec_u32_to_le_bytes(
            x,
        ));
    }
}

/// Grouping after appending four bytes appends their word.
pub proof fn lemma_words_of_bytes_push(bs: Seq<u8>, four: Seq<u8>)
    requires
        bs.len() % 4 == 0,
        four.len() == 4,
    ensures
        spec_words_of_bytes(bs + four) == spec_words_of_bytes(bs).push(
            spec_u32_from_le_bytes(four),
        ),
    decreases bs.len(),
{
    if bs.len() == 0 {
        assert(bs + four =~= four);
        assert(four.subrange(0, 4) =~= four);
        assert(four.skip(4) =~= Seq::<u8>::empty());
        assert(spec_words_of_bytes(Seq::<u8>::empty()) == Seq::<u32>::empty());
        assert(spec_words_of_bytes(bs) == Seq::<u32>::empty());
        assert(spec_words_of_bytes(bs + four) =~= spec_words_of_bytes(bs).push(
            spec_u32_from_le_bytes(four),
        ));
    } else {
        lemma_words_of_bytes_push(bs.skip(4), four);
        assert((bs + four).subrange(0, 4) =~= bs.subrange(0, 4));
        assert((bs + four).skip(4) =~= bs.skip(4) + four);
        assert(spec_words_of_bytes(bs + four) =~= spec_words_of_bytes(bs).push(
            spec_u32_from_le_bytes(four),
        ));
    }
}

/// Flattening to bytes and regrouping gives the words back.
pub proof fn lemma_words_bytes_roundtrip(ws: Seq<u32>)
    ensures
        spec_words_of_bytes(spec_bytes_of_words(ws)) == ws,
    decreases ws.len(),
{
    lemma_auto_spec_u32_to_from_le_bytes();
    if ws.len() == 0 {
    } else {
        lemma_words_bytes_roundtrip(ws.drop_first());
        lemma_bytes_of_words_len(ws.drop_first());
        let bs = spec_bytes_of_words(ws);
        assert(bs.subrange(0, 4) =~= spec_u32_to_le_bytes(ws[0]));
        assert(bs.skip(4) =~= spec_bytes_of_words(ws.drop_first()));
        assert(spec_words_of_bytes(bs) =~= ws);
    }
}

/// Flatten a word block to the little-endian byte image uploaded to the GPU.
pub fn words_to_bytes(ws: &Vec<u32>) -> (r: Vec<u8>)
    ensures
        r@ == spec_bytes_of_words(ws@),
        r@.len() == 4 * ws@.len(),
{
    let mut r: Vec<u8> = Vec::new();
    let mut i: usize = 0;
    proof {
        assert(ws@.subrange(0, 0) =~= Seq::<u32>::empty());
    }
    while i < ws.len()
        invariant
            i <= ws@.len(),
            r@ == spec_bytes_of_words(ws@.subrange(0, i as int)),
        decreases ws@.len() - i,
    {
        let mut chunk = u32_to_le_bytes(ws[i]);
        r.append(&mut chunk);
        proof {
            assert(ws@.subrange(0, i + 1) =~= ws@.subrange(0, i as int).push(ws@[i as int]));
            lemma_bytes_of_words_push(ws@.subrange(0, i as int), ws@[i as int]);
        }
        i = i + 1;
    }
    proof {
        assert(ws@.subrange(0, ws@.len() as int) =~= ws@);
        lemma_bytes_of_words_len(ws@);
    }
    r
}

/// Regroup a byte image into its words.
pub fn bytes_to_words(bs: &Vec<u8>) -> (r: Vec<u32>)
    requires
        bs@.len() % 4 == 0,
    ensures
        r@ == spec_words_of_bytes(bs@),
        r@.len() == bs@.len() / 4,
{
    let mut r: Vec<u32> = Vec::new();
    let n: usize = bs.len() / 4;
    let mut i: usize = 0;
    proof {
        assert(bs@.subrange(0, 0) =~= Seq::<u8>::empty());
    }
    while i < n
        invariant
            i <= n,
            n == bs@.len() / 4,
            bs@.len() % 4 == 0,
            4 * (n as int) <= bs@.len() <= usize::MAX,
            r@ == spec_words_of_bytes(bs@.subrange(0, 4 * i as int)),
            r@.len() == i,
        decreases n - i,
    {
        let chunk: &[u8] = slice_subrange(bs.as_slice(), 4 * i, 4 * i + 4);
        let w = u32_from_le_bytes(chunk);
        r.push(w);
        proof {
            assert(bs@.subrange(0, 4 * (i + 1)) =~= bs@.subrange(0, 4 * i as int) + bs@.subrange(
                4 * i as int,
                4 * i as int + 4,
            ));
            lemma_words_of_bytes_push(
                bs@.subrange(0, 4 * i as int),
                bs@.subrange(4 * i as int, 4 * i as int + 4),
            );
        }
        i = i + 1;
    }
    proof {
        assert(bs@.subrange(0, 4 * n as int) =~= bs@);
    }
    r
}

/// Two's-complement word image of a signed index.
pub open spec fn word_of_i32(x: i32) -> u32 {
    if x >= 0 {
        x as u32
    } else {
        (x + 0x1_0000_0000) as u32
    }
}

/// Signed index read back from its word image.
pub open spec fn i32_of_word(w: u32) -> i32 {
    if w < 0x8000_0000 {
        w as i32
    } else {
        (w - 0x1_0000_0000) as i32
    }
}

pub proof fn lemma_i32_word_roundtrip(x: i32)
    ensures
        i32_of_word(word_of_i32(x)) == x,
{
}

pub fn i32_to_word(x: i32) -> (r: u32)
    ensures
        r == word_of_i32(x),
{
    if x >= 0 {
        x as u32
    } else {
        ((x as i64) + 0x1_0000_0000) as u32
    }
}

pub fn word_to_i32(w: u32) -> (r: i32)
    ensures
        r == i32_of_word(w),
{
    if w < 0x8000_0000 {
        w as i32
    } else {
        ((w as i64) - 0x1_0000_0000) as i32
    }
}

/// What a bound buffer is, as the GPU programs see it.
#[derive(Clone, Copy, Debug, PartialEq, Eq, Structural)]
pub enum BindingKind {
    Uniform,
    Storage { read_only: bool },
    Texture,
}

/// Which program stage a bind group is visible to.
#[derive(Clone, Copy, Debug, PartialEq, Eq, Structural)]
pub enum ShaderStage {
    Fragment,
    Compute,
}

/// One slot of a bind group: consecutive binding index, stage visibility,
/// and the buffer kind bound there.
#[derive(Clone, Copy, Debug, PartialEq, Eq, Structural)]
pub struct BindGroupEntryDesc {
    pub binding: u32,
    pub visibility: ShaderStage,
    pub kind: BindingKind,
}

/// Wire a bind group: the `i`-th buffer goes to binding index `i`, all
/// entries visible to the same stage. The device shell maps each descriptor
/// to the corresponding layout entry and resource binding.
pub fn create_bind_group(kinds: &Vec<BindingKind>, visibility: ShaderStage) -> (r: Vec<
    BindGroupEntryDesc,
>)
    requires
        kinds@.len() <= u32::MAX,
    ensures
        r@.len() == kinds@.len(),
        forall|i: int|
            0 <= i < r@.len() ==> r@[i] == (BindGroupEntryDesc {
                binding: i as u32,
                visibility,
                kind: kinds@[i],
            }),
{
    let mut r: Vec<BindGroupEntryDesc> = Vec::new();
    let mut i: usize = 0;
    while i < kinds.len()
        invariant
            i <= kinds@.len(),
            kinds@.len() <= u32::MAX,
            r@.len() == i,
            forall|j: int|
                0 <= j < i ==> r@[j] == (BindGroupEntryDesc {
                    binding: j as u32,
                    visibility,
                    kind: kinds@[j],
                }),
        decreases kinds@.len() - i,
    {
        r.push(BindGroupEntryDesc { binding: i as u32, visibility, kind: kinds[i] });
        i = i + 1;
    }
    r
}

} // verus!
