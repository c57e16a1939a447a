//! The opcode grammar of DVI, stated over byte sequences.
//!
//! An instruction is one opcode byte followed by its operands. `operand_len`
//! says how many operand bytes follow an opcode, `instruction` says what they
//! mean, and `decode_from` strings the instructions of a buffer together.

use crate::dvi::opcodes::Instruction;
use crate::errors::Failure;
use crate::util::big_endian::{be_signed, be_unsigned};
use vstd::prelude::*;

verus! {

/// The last of the opcodes `0..=127`, which set the character of their own number.
pub const SET_CHAR_127: u8 = 127;

/// `set1`; `set2`, `set3` and `set4` follow it.
pub const SET1: u8 = 128;

pub const SET_RULE: u8 = 132;

/// `put1`; `put2`, `put3` and `put4` follow it.
pub const PUT1: u8 = 133;

pub const PUT_RULE: u8 = 137;

pub const NOP: u8 = 138;

pub const BOP: u8 = 139;

pub const EOP: u8 = 140;

pub const PUSH: u8 = 141;

pub const POP: u8 = 142;

/// `right1`; `right2`, `right3` and `right4` follow it.
pub const RIGHT1: u8 = 143;

/// `w0`; `w1` to `w4` follow it.
pub const W0: u8 = 147;

/// `x0`; `x1` to `x4` follow it.
pub const X0: u8 = 152;

/// `down1`; `down2`, `down3` and `down4` follow it.
pub const DOWN1: u8 = 157;

/// `y0`; `y1` to `y4` follow it.
pub const Y0: u8 = 161;

/// `z0`; `z1` to `z4` follow it.
pub const Z0: u8 = 166;

/// The first of the opcodes `171..=234`, which select the font of their own number.
pub const FNT_NUM_FIRST: u8 = 171;

/// `fnt1`; `fnt2`, `fnt3` and `fnt4` follow it.
pub const FNT1: u8 = 235;

/// `xxx1`; `xxx2`, `xxx3` and `xxx4` follow it.
pub const XXX1: u8 = 239;

/// `fnt_def1`; `fnt_def2`, `fnt_def3` and `fnt_def4` follow it.
pub const FNT_DEF1: u8 = 243;

pub const PRE: u8 = 247;

pub const POST: u8 = 248;

pub const POST_POST: u8 = 249;

/// The byte that pads a file after `PostPost`.
pub const PADDING: u8 = 223;

/// The anchors that a decoder carries from one instruction to the next.
pub struct Anchors {
    /// How many instructions have been decoded so far.
    pub count: nat,
    /// The index of the last `Bop` among them.
    pub last_bop: Option<nat>,
    /// The index of the last `Post` among them.
    pub last_post: Option<nat>,
}

impl Anchors {
    /// The anchors at the start of a buffer.
    pub open spec fn start() -> Anchors {
        Anchors { count: 0, last_bop: None, last_post: None }
    }

    /// The anchors once one more instruction, of opcode `code`, has been decoded.
    pub open spec fn after(self, code: u8) -> Anchors {
        Anchors {
            count: self.count + 1,
            last_bop: if code == BOP {
                Some(self.count)
            } else {
                self.last_bop
            },
            last_post: if code == POST {
                Some(self.count)
            } else {
                self.last_post
            },
        }
    }
}

/// The unsigned number in the `width` bytes at `at`.
pub open spec fn unsigned_at(bytes: Seq<u8>, at: int, width: nat) -> nat {
    be_unsigned(bytes.subrange(at, at + width))
}

/// The two's-complement number in the `width` bytes at `at`.
pub open spec fn signed_at(bytes: Seq<u8>, at: int, width: nat) -> int {
    be_signed(bytes.subrange(at, at + width))
}

/// A character code or font number of `width` bytes: unsigned in one to
/// three bytes, two's complement in four.
pub open spec fn number_at(bytes: Seq<u8>, at: int, width: nat) -> i32 {
    if width == 4 {
        signed_at(bytes, at, width) as i32
    } else {
        unsigned_at(bytes, at, width) as i32
    }
}

/// A displacement of `width` bytes: two's complement in every width.
pub open spec fn displacement_at(bytes: Seq<u8>, at: int, width: nat) -> i32 {
    signed_at(bytes, at, width) as i32
}

/// The `index`-th of the four-byte signed words that start at `at`.
pub open spec fn word_at(bytes: Seq<u8>, at: int, index: nat) -> i32 {
    signed_at(bytes, at + 4 * index, 4) as i32
}

/// How many padding bytes stand at `from` without a gap.
pub open spec fn padding_len(bytes: Seq<u8>, from: int) -> nat
    decreases bytes.len() - from,
{
    if 0 <= from < bytes.len() && bytes[from] == PADDING {
        1 + padding_len(bytes, from + 1)
    } else {
        0
    }
}

/// How many bytes a font definition occupies after its font number, when
/// they start at `at`: three words, two length bytes and the name.
pub open spec fn font_definition_len(bytes: Seq<u8>, at: int) -> Option<nat> {
    if at + 14 <= bytes.len() {
        Some(14 + unsigned_at(bytes, at + 12, 1) + unsigned_at(bytes, at + 13, 1))
    } else {
        None
    }
}

/// The definition of font `k` that the bytes at `at` spell out.
pub open spec fn font_definition(k: i32, bytes: Seq<u8>, at: int) -> Instruction {
    let a = unsigned_at(bytes, at + 12, 1);
    let l = unsigned_at(bytes, at + 13, 1);
    Instruction::FntDef {
        k,
        c: unsigned_at(bytes, at, 4) as u32,
        s: unsigned_at(bytes, at + 4, 4) as u32,
        d: unsigned_at(bytes, at + 8, 4) as u32,
        a: a as u8,
        l: l as u8,
        n: bytes.subrange(at + 14, at + 14 + a + l),
    }
}

/// How many bytes the operands of opcode `code` occupy when they start at
/// `at`; `None` where the opcode is undefined, or where the buffer ends
/// before the fields that say how long the operands are.
pub open spec fn operand_len(code: u8, bytes: Seq<u8>, at: int) -> Option<nat> {
    if code <= SET_CHAR_127 {
        Some(0)
    } else if code < SET_RULE {
        Some((code - SET1 + 1) as nat)
    } else if code == SET_RULE {
        Some(8)
    } else if code < PUT_RULE {
        Some((code - PUT1 + 1) as nat)
    } else if code == PUT_RULE {
        Some(8)
    } else if code == NOP {
        Some(0)
    } else if code == BOP {
        Some(44)
    } else if code < RIGHT1 {
        Some(0)
    } else if code < W0 {
        Some((code - RIGHT1 + 1) as nat)
    } else if code < X0 {
        Some((code - W0) as nat)
    } else if code < DOWN1 {
        Some((code - X0) as nat)
    } else if code < Y0 {
        Some((code - DOWN1 + 1) as nat)
    } else if code < Z0 {
        Some((code - Y0) as nat)
    } else if code < FNT_NUM_FIRST {
        Some((code - Z0) as nat)
    } else if code < FNT1 {
        Some(0)
    } else if code < XXX1 {
        Some((code - FNT1 + 1) as nat)
    } else if code < FNT_DEF1 {
        let width = (code - XXX1 + 1) as nat;
        if at + width <= bytes.len() {
            Some(width + unsigned_at(bytes, at, width))
        } else {
            None
        }
    } else if code < PRE {
        let width = (code - FNT_DEF1 + 1) as nat;
        match font_definition_len(bytes, at + width) {
            Some(len) => Some(width + len),
            None => None,
        }
    } else if code == PRE {
        if at + 14 <= bytes.len() {
            Some(14 + unsigned_at(bytes, at + 13, 1))
        } else {
            None
        }
    } else if code == POST {
        Some(28)
    } else if code == POST_POST {
        if at + 5 <= bytes.len() {
            Some(5 + padding_len(bytes, at + 5))
        } else {
            None
        }
    } else {
        None
    }
}

/// Whether the operands of opcode `code`, starting at `at`, all lie within the buffer.
pub open spec fn complete(code: u8, bytes: Seq<u8>, at: int) -> bool {
    match operand_len(code, bytes, at) {
        Some(len) => at + len <= bytes.len(),
        None => false,
    }
}

/// The instruction that opcode `code` makes with the operands that start at
/// `at`, for a decoder whose anchors are `anchors`. It has this meaning where
/// `complete(code, bytes, at)`.
pub open spec fn instruction(code: u8, bytes: Seq<u8>, at: int, anchors: Anchors) -> Instruction {
    if code <= SET_CHAR_127 {
        Instruction::SetChar { c: code as i32 }
    } else if code < SET_RULE {
        Instruction::SetChar { c: number_at(bytes, at, (code - SET1 + 1) as nat) }
    } else if code == SET_RULE {
        Instruction::SetRule { a: word_at(bytes, at, 0), b: word_at(bytes, at, 1) }
    } else if code < PUT_RULE {
        Instruction::Put { c: number_at(bytes, at, (code - PUT1 + 1) as nat) }
    } else if code == PUT_RULE {
        Instruction::PutRule { a: word_at(bytes, at, 0), b: word_at(bytes, at, 1) }
    } else if code == NOP {
        Instruction::Nop
    } else if code == BOP {
        Instruction::Bop {
            c0: word_at(bytes, at, 0),
            c1: word_at(bytes, at, 1),
            c2: word_at(bytes, at, 2),
            c3: word_at(bytes, at, 3),
            c4: word_at(bytes, at, 4),
            c5: word_at(bytes, at, 5),
            c6: word_at(bytes, at, 6),
            c7: word_at(bytes, at, 7),
            c8: word_at(bytes, at, 8),
            c9: word_at(bytes, at, 9),
            p: word_at(bytes, at, 10),
        }
    } else if code == EOP {
        Instruction::Eop
    } else if code == PUSH {
        Instruction::Push
    } else if code == POP {
        Instruction::Pop
    } else if code < W0 {
        Instruction::Right { b: displacement_at(bytes, at, (code - RIGHT1 + 1) as nat) }
    } else if code == W0 {
        Instruction::W0
    } else if code < X0 {
        Instruction::W { b: displacement_at(bytes, at, (code - W0) as nat) }
    } else if code == X0 {
        Instruction::X0
    } else if code < DOWN1 {
        Instruction::X { b: displacement_at(bytes, at, (code - X0) as nat) }
    } else if code < Y0 {
        Instruction::Down { a: displacement_at(bytes, at, (code - DOWN1 + 1) as nat) }
    } else if code == Y0 {
        Instruction::Y0
    } else if code < Z0 {
        Instruction::Y { a: displacement_at(bytes, at, (code - Y0) as nat) }
    } else if code == Z0 {
        Instruction::Z0
    } else if code < FNT_NUM_FIRST {
        Instruction::Z { a: displacement_at(bytes, at, (code - Z0) as nat) }
    } else if code < FNT1 {
        Instruction::Fnt { k: code as i32 }
    } else if code < XXX1 {
        Instruction::Fnt { k: number_at(bytes, at, (code - FNT1 + 1) as nat) }
    } else if code < FNT_DEF1 {
        let width = (code - XXX1 + 1) as nat;
        let k = unsigned_at(bytes, at, width);
        Instruction::Xxx { k: k as u32, x: bytes.subrange(at + width, at + width + k) }
    } else if code < PRE {
        let width = (code - FNT_DEF1 + 1) as nat;
        font_definition(number_at(bytes, at, width), bytes, at + width)
    } else if code == PRE {
        let k = unsigned_at(bytes, at + 13, 1);
        Instruction::Pre {
            i: unsigned_at(bytes, at, 1) as u8,
            num: unsigned_at(bytes, at + 1, 4) as u32,
            den: unsigned_at(bytes, at + 5, 4) as u32,
            mag: unsigned_at(bytes, at + 9, 4) as u32,
            k: k as u8,
            x: bytes.subrange(at + 14, at + 14 + k),
        }
    } else if code == POST {
        Instruction::Post {
            p: anchors.last_bop,
            num: unsigned_at(bytes, at + 4, 4) as u32,
            den: unsigned_at(bytes, at + 8, 4) as u32,
            mag: unsigned_at(bytes, at + 12, 4) as u32,
            l: unsigned_at(bytes, at + 16, 4) as u32,
            u: unsigned_at(bytes, at + 20, 4) as u32,
            s: unsigned_at(bytes, at + 24, 2) as u16,
            t: unsigned_at(bytes, at + 26, 2) as u16,
        }
    } else {
        Instruction::PostPost { q: anchors.last_post, i: unsigned_at(bytes, at + 4, 1) as u8 }
    }
}

/// One decoding step of the instruction whose opcode byte stands at `at`:
/// the instruction, where the next one starts, and the anchors for it.
///
/// At the end of the buffer, and where the operands would cross it, the step
/// is out of bounds; an opcode byte above `POST_POST` is unknown.
#[verifier::opaque]
pub open spec fn step(bytes: Seq<u8>, at: int, anchors: Anchors) -> Result<
    (Instruction, int, Anchors),
    Failure,
> {
    if !(0 <= at < bytes.len()) {
        Err(Failure::IndexOutOfBounds)
    } else if bytes[at] > POST_POST {
        Err(Failure::UnknownOpcode(bytes[at]))
    } else if !complete(bytes[at], bytes, at + 1) {
        Err(Failure::IndexOutOfBounds)
    } else {
        Ok(
            (
                instruction(bytes[at], bytes, at + 1, anchors),
                at + 1 + operand_len(bytes[at], bytes, at + 1).unwrap(),
                anchors.after(bytes[at]),
            ),
        )
    }
}

/// `instructions` in front of what a decode gave.
pub open spec fn preceded_by(
    decoded: Result<Seq<Instruction>, Failure>,
    instructions: Seq<Instruction>,
) -> Result<Seq<Instruction>, Failure> {
    match decoded {
        Ok(rest) => Ok(instructions + rest),
        Err(failure) => Err(failure),
    }
}

/// The instructions from `at` to the end of the buffer, or the first failure.
pub open spec fn decode_from(bytes: Seq<u8>, at: int, anchors: Anchors) -> Result<
    Seq<Instruction>,
    Failure,
>
    decreases bytes.len() - at,
{
    if !(0 <= at < bytes.len()) {
        Ok(Seq::empty())
    } else {
        proof {
            reveal(step);
        }
        match step(bytes, at, anchors) {
            Ok((instruction, next, anchors)) => preceded_by(
                decode_from(bytes, next, anchors),
                seq![instruction],
            ),
            Err(failure) => Err(failure),
        }
    }
}

/// What a step comes to: out of bounds at the end of the buffer, unknown at
/// a byte that is no opcode, and else the instruction of the opcode, where
/// its operands lie within the buffer.
pub proof fn lemma_step_cases(bytes: Seq<u8>, at: int, anchors: Anchors)
    ensures
        !(0 <= at < bytes.len()) ==> step(bytes, at, anchors) == Err::<
            (Instruction, int, Anchors),
            Failure,
        >(Failure::IndexOutOfBounds),
        0 <= at < bytes.len() && bytes[at] > POST_POST ==> step(bytes, at, anchors) == Err::<
            (Instruction, int, Anchors),
            Failure,
        >(Failure::UnknownOpcode(bytes[at])),
        0 <= at < bytes.len() && bytes[at] <= POST_POST && !complete(bytes[at], bytes, at + 1)
            ==> step(bytes, at, anchors) == Err::<(Instruction, int, Anchors), Failure>(
            Failure::IndexOutOfBounds,
        ),
        0 <= at < bytes.len() && bytes[at] <= POST_POST && complete(bytes[at], bytes, at + 1)
            ==> step(bytes, at, anchors) == Ok::<(Instruction, int, Anchors), Failure>(
            (
                instruction(bytes[at], bytes, at + 1, anchors),
                at + 1 + operand_len(bytes[at], bytes, at + 1).unwrap(),
                anchors.after(bytes[at]),
            ),
        ),
{
    reveal(step);
}

/// A decode is its first step followed by the decode of the rest.
pub proof fn lemma_decode_unfolds(bytes: Seq<u8>, at: int, anchors: Anchors)
    requires
        0 <= at < bytes.len(),
    ensures
        match step(bytes, at, anchors) {
            Ok((instruction, next, after)) => at < next <= bytes.len() && decode_from(
                bytes,
                at,
                anchors,
            ) == preceded_by(decode_from(bytes, next, after), seq![instruction]),
            Err(failure) => decode_from(bytes, at, anchors) == Err::<Seq<Instruction>, Failure>(
                failure,
            ),
        },
{
    reveal(step);
}

/// The instructions of a whole buffer, or the first failure.
pub open spec fn decode(bytes: Seq<u8>) -> Result<Seq<Instruction>, Failure> {
    decode_from(bytes, 0, Anchors::start())
}

} // verus!
