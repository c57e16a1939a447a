//! The instructions of a DVI file, one variant per operation.
//!
//! Opcodes that differ only in the width of their operand are the same
//! operation: `set1` to `set4` all become `SetChar`, with the operand widened
//! to 32 bits.

use vstd::prelude::*;

verus! {

#[derive(Debug, PartialEq)]
#[allow(inconsistent_fields)]
pub enum OpCode {
    /// Typeset character `c` and move right by its width.
    SetChar { c: i32 },
    /// Typeset a rule of height `a` and width `b`, and move right by `b`.
    SetRule { a: i32, b: i32 },
    /// Typeset character `c` without moving.
    Put { c: i32 },
    /// Typeset a rule of height `a` and width `b` without moving.
    PutRule { a: i32, b: i32 },
    Nop,
    /// Begin of page; `p` is the file's pointer to the previous `Bop`.
    Bop {
        c0: i32,
        c1: i32,
        c2: i32,
        c3: i32,
        c4: i32,
        c5: i32,
        c6: i32,
        c7: i32,
        c8: i32,
        c9: i32,
        p: i32,
    },
    Eop,
    Push,
    Pop,
    Right { b: i32 },
    W0,
    W { b: i32 },
    X0,
    X { b: i32 },
    Down { a: i32 },
    Y0,
    Y { a: i32 },
    Z0,
    Z { a: i32 },
    /// Select font `k`.
    Fnt { k: i32 },
    /// An extension: `k` bytes `x` that mean something to some driver.
    Xxx { k: u32, x: Vec<u8> },
    /// Define font `k`: checksum `c`, scale `s`, design size `d`, and a name
    /// `n` of `a + l` bytes.
    FntDef { k: i32, c: u32, s: u32, d: u32, a: u8, l: u8, n: Vec<u8> },
    /// The preamble, with a comment `x` of `k` bytes.
    Pre { i: u8, num: u32, den: u32, mag: u32, k: u8, x: Vec<u8> },
    /// The postamble; `p` is the index, among the decoded instructions, of
    /// the last `Bop` before it.
    Post { p: Option<usize>, num: u32, den: u32, mag: u32, l: u32, u: u32, s: u16, t: u16 },
    /// The end of the postamble; `q` is the index, among the decoded
    /// instructions, of the last `Post` before it.
    PostPost { q: Option<usize>, i: u8 },
}

/// An `OpCode` as the contracts see it: byte strings are sequences, indices
/// are natural numbers.
#[allow(inconsistent_fields)]
pub enum Instruction {
    SetChar { c: i32 },
    SetRule { a: i32, b: i32 },
    Put { c: i32 },
    PutRule { a: i32, b: i32 },
    Nop,
    Bop {
        c0: i32,
        c1: i32,
        c2: i32,
        c3: i32,
        c4: i32,
        c5: i32,
        c6: i32,
        c7: i32,
        c8: i32,
        c9: i32,
        p: i32,
    },
    Eop,
    Push,
    Pop,
    Right { b: i32 },
    W0,
    W { b: i32 },
    X0,
    X { b: i32 },
    Down { a: i32 },
    Y0,
    Y { a: i32 },
    Z0,
    Z { a: i32 },
    Fnt { k: i32 },
    Xxx { k: u32, x: Seq<u8> },
    FntDef { k: i32, c: u32, s: u32, d: u32, a: u8, l: u8, n: Seq<u8> },
    Pre { i: u8, num: u32, den: u32, mag: u32, k: u8, x: Seq<u8> },
    Post { p: Option<nat>, num: u32, den: u32, mag: u32, l: u32, u: u32, s: u16, t: u16 },
    PostPost { q: Option<nat>, i: u8 },
}

/// An optional index as a natural number.
pub open spec fn index_view(index: Option<usize>) -> Option<nat> {
    match index {
        Some(i) => Some(i as nat),
        None => None,
    }
}

impl View for OpCode {
    type V = Instruction;

    open spec fn view(&self) -> Instruction {
        match *self {
            OpCode::SetChar { c } => Instruction::SetChar { c },
            OpCode::SetRule { a, b } => Instruction::SetRule { a, b },
            OpCode::Put { c } => Instruction::Put { c },
            OpCode::PutRule { a, b } => Instruction::PutRule { a, b },
            OpCode::Nop => Instruction::Nop,
            OpCode::Bop { c0, c1, c2, c3, c4, c5, c6, c7, c8, c9, p } => Instruction::Bop {
                c0,
                c1,
                c2,
                c3,
                c4,
                c5,
                c6,
                c7,
                c8,
                c9,
                p,
            },
            OpCode::Eop => Instruction::Eop,
            OpCode::Push => Instruction::Push,
            OpCode::Pop => Instruction::Pop,
            OpCode::Right { b } => Instruction::Right { b },
            OpCode::W0 => Instruction::W0,
            OpCode::W { b } => Instruction::W { b },
            OpCode::X0 => Instruction::X0,
            OpCode::X { b } => Instruction::X { b },
            OpCode::Down { a } => Instruction::Down { a },
            OpCode::Y0 => Instruction::Y0,
            OpCode::Y { a } => Instruction::Y { a },
            OpCode::Z0 => Instruction::Z0,
            OpCode::Z { a } => Instruction::Z { a },
            OpCode::Fnt { k } => Instruction::Fnt { k },
            OpCode::Xxx { k, x } => Instruction::Xxx { k, x: x@ },
            OpCode::FntDef { k, c, s, d, a, l, n } => Instruction::FntDef {
                k,
                c,
                s,
                d,
                a,
                l,
                n: n@,
            },
            OpCode::Pre { i, num, den, mag, k, x } => Instruction::Pre {
                i,
                num,
                den,
                mag,
                k,
                x: x@,
            },
            OpCode::Post { p, num, den, mag, l, u, s, t } => Instruction::Post {
                p: index_view(p),
                num,
                den,
                mag,
                l,
                u,
                s,
                t,
            },
            OpCode::PostPost { q, i } => Instruction::PostPost { q: index_view(q), i },
        }
    }
}

/// The instructions that a sequence of opcodes stands for.
pub open spec fn instructions(opcodes: Seq<OpCode>) -> Seq<Instruction> {
    opcodes.map_values(|opcode: OpCode| opcode@)
}

} // verus!
