//! What holds of every decode, proved from the grammar.

use crate::dvi::grammar::{
    decode, decode_from, displacement_at, lemma_decode_unfolds, number_at, padding_len, signed_at,
    step, unsigned_at, Anchors, BOP, FNT1, FNT_NUM_FIRST, PADDING, POST, POST_POST, SET_CHAR_127,
};
use crate::dvi::opcodes::Instruction;
use crate::errors::Failure;
use crate::util::big_endian::{lemma_be_signed_sign, lemma_fixed_width_ranges};
use vstd::prelude::*;

verus! {

/// A buffer of one byte up to 127 decodes to the one instruction that sets
/// the character of that number.
pub proof fn lemma_decode_set_char(byte: u8)
    requires
        byte <= SET_CHAR_127,
    ensures
        decode(seq![byte]) == Ok::<Seq<Instruction>, Failure>(
            seq![Instruction::SetChar { c: byte as i32 }],
        ),
{
    reveal(step);
    reveal_with_fuel(decode_from, 2);
    let made = seq![Instruction::SetChar { c: byte as i32 }];
    assert(made + Seq::<Instruction>::empty() =~= made);
}

/// A buffer of one byte from 171 to 234 decodes to the one instruction that
/// selects the font of that number.
pub proof fn lemma_decode_fnt_num(byte: u8)
    requires
        FNT_NUM_FIRST <= byte < FNT1,
    ensures
        decode(seq![byte]) == Ok::<Seq<Instruction>, Failure>(
            seq![Instruction::Fnt { k: byte as i32 }],
        ),
{
    reveal(step);
    reveal_with_fuel(decode_from, 2);
    let made = seq![Instruction::Fnt { k: byte as i32 }];
    assert(made + Seq::<Instruction>::empty() =~= made);
}

/// Operands are read without loss: a field of one to four bytes that lies
/// within the buffer gives its big-endian reading itself.
pub proof fn lemma_operands_are_exact(bytes: Seq<u8>, at: int, width: nat)
    requires
        1 <= width <= 4,
        0 <= at,
        at + width <= bytes.len(),
    ensures
        displacement_at(bytes, at, width) == signed_at(bytes, at, width),
        width == 4 ==> number_at(bytes, at, width) == signed_at(bytes, at, width),
        width < 4 ==> number_at(bytes, at, width) == unsigned_at(bytes, at, width),
        (displacement_at(bytes, at, width) < 0) == (bytes[at] >= 128),
{
    let field = bytes.subrange(at, at + width);
    lemma_fixed_width_ranges(field);
    lemma_be_signed_sign(field);
}

/// The padding at `from` is a run of padding bytes that ends at the end of
/// the buffer or in front of a byte that is no padding.
pub proof fn lemma_padding_is_maximal(bytes: Seq<u8>, from: int)
    requires
        0 <= from <= bytes.len(),
    ensures
        from + padding_len(bytes, from) <= bytes.len(),
        forall|i: int| from <= i < from + padding_len(bytes, from) ==> bytes[i] == PADDING,
        from + padding_len(bytes, from) < bytes.len() ==> bytes[from + padding_len(bytes, from)]
            != PADDING,
    decreases bytes.len() - from,
{
    if from < bytes.len() && bytes[from] == PADDING {
        lemma_padding_is_maximal(bytes, from + 1);
    }
}

/// The step of a `PostPost` takes in all the padding behind it: the next
/// instruction starts at the first byte after the version byte that is no
/// padding, or the buffer ends there.
pub proof fn lemma_post_post_absorbs_padding(bytes: Seq<u8>, at: int, anchors: Anchors)
    requires
        0 <= at,
        at + 6 <= bytes.len(),
        bytes[at] == POST_POST,
    ensures
        step(bytes, at, anchors) matches Ok((instruction, next, _)) && {
            &&& instruction is PostPost
            &&& at + 6 <= next <= bytes.len()
            &&& forall|i: int| at + 6 <= i < next ==> bytes[i] == PADDING
            &&& next < bytes.len() ==> bytes[next] != PADDING
        },
{
    reveal(step);
    lemma_padding_is_maximal(bytes, at + 6);
}

/// Where a decode that starts at `at` stops: at the end of the buffer, or in
/// front of the instruction that fails.
pub open spec fn decode_end(bytes: Seq<u8>, at: int, anchors: Anchors) -> int
    decreases bytes.len() - at,
{
    if !(0 <= at < bytes.len()) {
        at
    } else {
        proof {
            reveal(step);
        }
        match step(bytes, at, anchors) {
            Ok((_, next, anchors)) => decode_end(bytes, next, anchors),
            Err(_) => at,
        }
    }
}

/// A decode that succeeds takes in the buffer up to its last byte and no
/// further: its instructions lie end to end from `at` to the end.
pub proof fn lemma_decode_consumes_buffer(bytes: Seq<u8>, at: int, anchors: Anchors)
    requires
        0 <= at <= bytes.len(),
        decode_from(bytes, at, anchors) is Ok,
    ensures
        decode_end(bytes, at, anchors) == bytes.len(),
    decreases bytes.len() - at,
{
    if at < bytes.len() {
        lemma_decode_unfolds(bytes, at, anchors);
        let (_, next, after) = step(bytes, at, anchors)->Ok_0;
        lemma_decode_consumes_buffer(bytes, next, after);
    }
}

/// The index of the last `Bop` among the first `upto` of `instructions`.
pub open spec fn last_bop_before(instructions: Seq<Instruction>, upto: int) -> Option<nat>
    decreases upto,
{
    if upto <= 0 {
        None
    } else if instructions[upto - 1] is Bop {
        Some((upto - 1) as nat)
    } else {
        last_bop_before(instructions, upto - 1)
    }
}

/// The index of the last `Post` among the first `upto` of `instructions`.
pub open spec fn last_post_before(instructions: Seq<Instruction>, upto: int) -> Option<nat>
    decreases upto,
{
    if upto <= 0 {
        None
    } else if instructions[upto - 1] is Post {
        Some((upto - 1) as nat)
    } else {
        last_post_before(instructions, upto - 1)
    }
}

/// An index into what a decoder with anchors `anchors` has yet to decode, as
/// an index into all that it decodes; `fallback` where there is none.
pub open spec fn anchored(found: Option<nat>, anchors: Anchors, fallback: Option<nat>) -> Option<
    nat,
> {
    match found {
        Some(index) => Some(anchors.count + index),
        None => fallback,
    }
}

proof fn lemma_last_bop_shifts(first: Instruction, rest: Seq<Instruction>, upto: int)
    requires
        0 <= upto <= rest.len(),
    ensures
        last_bop_before(seq![first] + rest, upto + 1) == match last_bop_before(rest, upto) {
            Some(index) => Some(index + 1),
            None => if first is Bop {
                Some(0nat)
            } else {
                None
            },
        },
    decreases upto,
{
    let all = seq![first] + rest;
    if upto == 0 {
        assert(all[0] == first);
        assert(last_bop_before(all, 0) is None);
    } else {
        assert(all[upto] == rest[upto - 1]);
        lemma_last_bop_shifts(first, rest, upto - 1);
    }
}

proof fn lemma_last_post_shifts(first: Instruction, rest: Seq<Instruction>, upto: int)
    requires
        0 <= upto <= rest.len(),
    ensures
        last_post_before(seq![first] + rest, upto + 1) == match last_post_before(rest, upto) {
            Some(index) => Some(index + 1),
            None => if first is Post {
                Some(0nat)
            } else {
                None
            },
        },
    decreases upto,
{
    let all = seq![first] + rest;
    if upto == 0 {
        assert(all[0] == first);
        assert(last_post_before(all, 0) is None);
    } else {
        assert(all[upto] == rest[upto - 1]);
        lemma_last_post_shifts(first, rest, upto - 1);
    }
}

/// Which instruction a step makes goes by the opcode byte alone, as far as
/// the anchors are concerned.
proof fn lemma_step_kinds(bytes: Seq<u8>, at: int, anchors: Anchors)
    requires
        step(bytes, at, anchors) is Ok,
    ensures
        0 <= at < bytes.len(),
        step(bytes, at, anchors) matches Ok((instruction, next, after)) && {
            &&& at < next <= bytes.len()
            &&& after == anchors.after(bytes[at])
            &&& instruction is Bop <==> bytes[at] == BOP
            &&& instruction is Post <==> bytes[at] == POST
            &&& instruction is PostPost <==> bytes[at] == POST_POST
            &&& instruction matches Instruction::Post { p, .. } ==> p == anchors.last_bop
            &&& instruction matches Instruction::PostPost { q, .. } ==> q == anchors.last_post
        },
{
    reveal(step);
}

/// In what a decoder with anchors `anchors` decodes from `at` on, each `Post`
/// names the last `Bop` before it and each `PostPost` the last `Post` before
/// it, or what the anchors held where there is none.
pub proof fn lemma_anchors_from(bytes: Seq<u8>, at: int, anchors: Anchors, index: int)
    requires
        decode_from(bytes, at, anchors) matches Ok(instructions) && 0 <= index < instructions.len(),
    ensures
        decode_from(bytes, at, anchors) matches Ok(instructions) && {
            &&& instructions[index] matches Instruction::Post { p, .. } ==> p == anchored(
                last_bop_before(instructions, index),
                anchors,
                anchors.last_bop,
            )
            &&& instructions[index] matches Instruction::PostPost { q, .. } ==> q == anchored(
                last_post_before(instructions, index),
                anchors,
                anchors.last_post,
            )
        },
    decreases bytes.len() - at,
{
    let instructions = decode_from(bytes, at, anchors)->Ok_0;
    assert(0 <= at < bytes.len());
    lemma_step_kinds(bytes, at, anchors);
    let (first, next, after) = step(bytes, at, anchors)->Ok_0;
    let rest = decode_from(bytes, next, after)->Ok_0;
    assert(instructions == seq![first] + rest);
    if index == 0 {
        assert(instructions[0] == first);
    } else {
        assert(instructions[index] == rest[index - 1]);
        lemma_anchors_from(bytes, next, after, index - 1);
        lemma_last_bop_shifts(first, rest, index - 1);
        lemma_last_post_shifts(first, rest, index - 1);
    }
}

/// In the decode of a whole buffer, the `p` of each `Post` is the index of
/// the last `Bop` before it, and `None` where no `Bop` comes before it.
pub proof fn lemma_post_names_last_bop(bytes: Seq<u8>, index: int)
    requires
        decode(bytes) matches Ok(instructions) && 0 <= index < instructions.len()
            && instructions[index] is Post,
    ensures
        decode(bytes) matches Ok(instructions) && instructions[index] matches Instruction::Post {
            p,
            ..
        } && p == last_bop_before(instructions, index),
{
    lemma_anchors_from(bytes, 0, Anchors::start(), index);
}

/// In the decode of a whole buffer, the `q` of each `PostPost` is the index
/// of the last `Post` before it, and `None` where no `Post` comes before it.
pub proof fn lemma_post_post_names_last_post(bytes: Seq<u8>, index: int)
    requires
        decode(bytes) matches Ok(instructions) && 0 <= index < instructions.len()
            && instructions[index] is PostPost,
    ensures
        decode(bytes) matches Ok(instructions) && instructions[index]
            matches Instruction::PostPost { q, .. } && q == last_post_before(instructions, index),
{
    lemma_anchors_from(bytes, 0, Anchors::start(), index);
}

} // verus!
