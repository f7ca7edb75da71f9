//! Assembling encoded words into a shader image.
//!
//! The image is a sequence of 32-byte blocks. Each block starts with a
//! scheduling-control word and carries up to three instruction words; the last
//! block is filled up with NOPs. Every word is written little-endian.

use vstd::prelude::*;
use vstd::bytes::{
    lemma_auto_spec_u64_to_from_le_bytes, spec_u64_from_le_bytes, spec_u64_to_le_bytes,
    u64_to_le_bytes,
};
use crate::domain::ControlCode;
use crate::encoder::encode_nop;
use crate::field::{first_misfit, value_in, Field};
use crate::instruction::{lemma_fields_read_back, Instruction};

verus! {

/// The scheduling-control word that opens every block. It stands in for
/// real latency and dependency hints, which are not computed.
pub const SCHEDULING_PLACEHOLDER: u64 = 0x1f8000fc0007e0;

/// The instruction that fills the last block: a NOP that always executes.
pub open spec fn padding() -> Instruction {
    Instruction::Nop {
        trigger: false,
        predicate: 7,
        invert: false,
        value: 0,
        control_code: ControlCode::TRUE,
    }
}

/// The word of the padding NOP.
pub open spec fn padding_word() -> u64 {
    padding().encoded()->Ok_0
}

/// The number of blocks that `n` instruction words take: `ceil(n / 3)`.
pub open spec fn block_count(n: nat) -> nat {
    (n + 2) / 3
}

/// Word `p` of the image of `words`: the placeholder at the head of each
/// block, then the instruction words in order, then padding.
pub open spec fn image_word(words: Seq<u64>, p: int) -> u64 {
    if p % 4 == 0 {
        SCHEDULING_PLACEHOLDER
    } else {
        let idx = 3 * (p / 4) + p % 4 - 1;
        if idx < words.len() {
            words[idx]
        } else {
            padding_word()
        }
    }
}

/// The words of the image of `words`, block after block.
pub open spec fn image(words: Seq<u64>) -> Seq<u64> {
    Seq::new(4 * block_count(words.len()), |p: int| image_word(words, p))
}

/// The bytes of a sequence of words, each written little-endian.
pub open spec fn serialized(ws: Seq<u64>) -> Seq<u8>
    decreases ws.len(),
{
    if ws.len() == 0 {
        seq![]
    } else {
        serialized(ws.drop_last()) + spec_u64_to_le_bytes(ws.last())
    }
}

/// The padding NOP encodes without error.
pub proof fn lemma_padding_encodes()
    ensures
        padding().encoded() is Ok,
{
    vstd::arithmetic::power2::lemma2_to64();
    reveal_with_fuel(first_misfit, 7);
}

proof fn lemma_block_offset(len: int)
    requires
        0 <= len,
    ensures
        (8 * len) % 32 == 0 <==> len % 4 == 0,
{
    assert((8 * len) % 32 == 8 * (len % 4)) by (nonlinear_arith)
        requires
            0 <= len,
    ;
}

proof fn lemma_padding_slot(n: int, len: int)
    requires
        0 <= n,
        n + (n + 2) / 3 <= len <= 4 * ((n + 2) / 3),
        len % 4 != 0,
    ensures
        3 * (len / 4) + len % 4 - 1 >= n,
        len + 1 <= 4 * ((n + 2) / 3),
{
}

fn append_word(out: &mut Vec<u8>, w: u64, Ghost(ws): Ghost<Seq<u64>>)
    requires
        old(out)@ == serialized(ws),
    ensures
        final(out)@ == serialized(ws.push(w)),
{
    let mut bytes = u64_to_le_bytes(w);
    out.append(&mut bytes);
    assert(ws.push(w).drop_last() =~= ws);
}

/// Lays `words` out in blocks and serializes the result: before every group
/// of three words comes the placeholder, and NOPs fill the last block.
pub fn assemble_shader(words: &[u64]) -> (r: Vec<u8>)
    requires
        words@.len() <= usize::MAX / 16,
    ensures
        r@ == serialized(image(words@)),
{
    proof {
        lemma_padding_encodes();
    }
    let pad = encode_nop(false, 7, false, 0, ControlCode::TRUE).unwrap();
    let ghost n = words@.len();
    let ghost mut emitted: Seq<u64> = seq![];
    let mut out: Vec<u8> = Vec::new();
    let mut position: usize = 0;
    let mut i: usize = 0;
    while i < words.len()
        invariant
            i <= n,
            n == words@.len(),
            n <= usize::MAX / 16,
            pad == padding_word(),
            emitted.len() == i + (i + 2) / 3,
            position == 8 * emitted.len(),
            forall|p: int| 0 <= p < emitted.len() ==> emitted[p] == image_word(words@, p),
            out@ == serialized(emitted),
        decreases n - i,
    {
        if position % 32 == 0 {
            append_word(&mut out, SCHEDULING_PLACEHOLDER, Ghost(emitted));
            proof {
                emitted = emitted.push(SCHEDULING_PLACEHOLDER);
            }
            position = position + 8;
        }
        append_word(&mut out, words[i], Ghost(emitted));
        proof {
            emitted = emitted.push(words@[i as int]);
        }
        position = position + 8;
        i = i + 1;
    }
    while position % 32 != 0
        invariant
            n == words@.len(),
            n <= usize::MAX / 16,
            pad == padding_word(),
            n + (n + 2) / 3 <= emitted.len() <= 4 * block_count(n),
            position == 8 * emitted.len(),
            forall|p: int| 0 <= p < emitted.len() ==> emitted[p] == image_word(words@, p),
            out@ == serialized(emitted),
        decreases 4 * block_count(n) - emitted.len(),
    {
        proof {
            lemma_block_offset(emitted.len() as int);
            lemma_padding_slot(n as int, emitted.len() as int);
        }
        append_word(&mut out, pad, Ghost(emitted));
        proof {
            emitted = emitted.push(pad);
        }
        position = position + 8;
    }
    proof {
        lemma_block_offset(emitted.len() as int);
    }
    assert(emitted =~= image(words@));
    out
}

/// Word `p` of a serialized sequence occupies bytes `8p .. 8p + 8`.
pub proof fn lemma_serialized(ws: Seq<u64>, p: int)
    requires
        0 <= p < ws.len(),
    ensures
        serialized(ws).len() == 8 * ws.len(),
        serialized(ws).subrange(8 * p, 8 * p + 8) == spec_u64_to_le_bytes(ws[p]),
    decreases ws.len(),
{
    lemma_serialized_len(ws);
    lemma_auto_spec_u64_to_from_le_bytes();
    let before = ws.drop_last();
    lemma_serialized_len(before);
    if p < ws.len() - 1 {
        lemma_serialized(before, p);
        assert(serialized(ws).subrange(8 * p, 8 * p + 8) =~= serialized(before).subrange(
            8 * p,
            8 * p + 8,
        ));
    } else {
        assert(serialized(ws).subrange(8 * p, 8 * p + 8) =~= spec_u64_to_le_bytes(ws.last()));
    }
}

/// A serialized sequence has eight bytes per word.
pub proof fn lemma_serialized_len(ws: Seq<u64>)
    ensures
        serialized(ws).len() == 8 * ws.len(),
    decreases ws.len(),
{
    lemma_auto_spec_u64_to_from_le_bytes();
    if ws.len() > 0 {
        lemma_serialized_len(ws.drop_last());
    }
}

/// Block shape: the image of `n` words is `32 * ceil((n + ceil(n / 3)) / 4)`
/// bytes long; the eight bytes at every multiple of 32 decode to the
/// scheduling placeholder; and every slot after the last instruction word
/// holds the padding NOP, whose condition code is "always execute".
pub proof fn lemma_image_shape(words: Seq<u64>, b: int, p: int)
    ensures
        serialized(image(words)).len() == 32 * ((words.len() + (words.len() + 2) / 3 + 3) / 4),
        0 <= b < block_count(words.len()) ==> spec_u64_from_le_bytes(
            serialized(image(words)).subrange(32 * b, 32 * b + 8),
        ) == SCHEDULING_PLACEHOLDER,
        0 <= p < image(words).len() && p % 4 != 0 && 3 * (p / 4) + p % 4 - 1 >= words.len()
            ==> image(words)[p] == padding_word() && value_in(
            image(words)[p],
            Field::NopConditionCode,
        ) == ControlCode::TRUE.raw() as i64,
{
    let n = words.len();
    let img = image(words);
    lemma_serialized_len(img);
    assert((n + (n + 2) / 3 + 3) / 4 == (n + 2) / 3);
    if 0 <= b < block_count(n) {
        lemma_serialized(img, 4 * b);
        lemma_auto_spec_u64_to_from_le_bytes();
        assert(img[4 * b] == SCHEDULING_PLACEHOLDER);
    }
    lemma_padding_encodes();
    lemma_fields_read_back(padding(), 0);
}

} // verus!
