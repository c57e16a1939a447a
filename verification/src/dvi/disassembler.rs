//! The DVI disassembler: from the bytes of a DVI file to its instructions.

use crate::dvi::grammar::{
    complete, decode, decode_from, font_definition, font_definition_len, instruction,
    lemma_decode_unfolds, lemma_step_cases, operand_len, padding_len, preceded_by, step, Anchors,
    BOP, FNT1, FNT_NUM_FIRST, PADDING, POST, POST_POST, PRE, SET_CHAR_127,
};
use crate::dvi::laws::lemma_padding_is_maximal;
use crate::dvi::opcodes::{index_view, instructions, Instruction, OpCode};
use crate::errors::{DviousError, DviousResult, Failure};
use crate::util::big_endian::lemma_fixed_width_ranges;
use crate::util::byte_reader::{
    lemma_byte_value, lemma_byte_values, lemma_reader_within_buffer, ByteReader,
};
use crate::util::num::{i24, u24};
use vstd::prelude::*;

verus! {

broadcast use {lemma_fixed_width_ranges, lemma_reader_within_buffer};

/// Decodes a whole DVI buffer: the instructions in file order, or the first
/// failure. A buffer that ends inside an instruction is out of bounds; a byte
/// above 249 where an opcode should stand is unknown.
pub fn disassemble(bytes: Vec<u8>) -> (result: DviousResult<Vec<OpCode>>)
    ensures
        match result {
            Ok(opcodes) => decode(bytes@) == Ok::<Seq<Instruction>, Failure>(
                instructions(opcodes@),
            ),
            Err(error) => decode(bytes@) == Err::<Seq<Instruction>, Failure>(error@),
        },
{
    let mut disassembler = Disassembler::new(bytes);
    disassembler.disassemble()
}

/// The state of one decode: the reader, the two anchors, and the count of
/// the instructions decoded so far.
pub(crate) struct Disassembler {
    pub(crate) reader: ByteReader,
    pub(crate) last_bop: Option<usize>,
    pub(crate) last_post: Option<usize>,
    pub(crate) number_of_instructions: usize,
}

impl Disassembler {
    /// The anchors that the next instruction will be decoded with.
    pub(crate) open spec fn anchors(&self) -> Anchors {
        Anchors {
            count: self.number_of_instructions as nat,
            last_bop: index_view(self.last_bop),
            last_post: index_view(self.last_post),
        }
    }

    /// Every instruction takes at least one byte, so the counter never
    /// passes the reader.
    pub(crate) open spec fn wf(&self) -> bool {
        self.number_of_instructions <= self.reader@.at
    }

    /// What handling opcode `code` does to a disassembler whose reader stood
    /// at the first operand byte, in state `before`: where the operands lie
    /// within the buffer they are consumed, the instruction is the one that
    /// the grammar gives, and the anchors follow; the counter waits for the
    /// caller. Where they do not, the handling is out of bounds.
    pub(crate) open spec fn handles(
        &self,
        before: Disassembler,
        code: u8,
        result: DviousResult<OpCode>,
    ) -> bool {
        let start = before.reader@;
        match result {
            Ok(opcode) => {
                &&& complete(code, start.bytes, start.at as int)
                &&& opcode@ == instruction(code, start.bytes, start.at as int, before.anchors())
                &&& self.reader@ == start.advance(
                    operand_len(code, start.bytes, start.at as int).unwrap(),
                )
                &&& self.number_of_instructions == before.number_of_instructions
                &&& index_view(self.last_bop) == before.anchors().after(code).last_bop
                &&& index_view(self.last_post) == before.anchors().after(code).last_post
            },
            Err(error) => {
                &&& !complete(code, start.bytes, start.at as int)
                &&& error@ == Failure::IndexOutOfBounds
            },
        }
    }

    /// What building an instruction from an operand already read does: nothing
    /// to the disassembler.
    pub(crate) open spec fn yields(
        &self,
        before: Disassembler,
        result: DviousResult<OpCode>,
        made: Instruction,
    ) -> bool {
        &&& *self == before
        &&& result matches Ok(opcode)
        &&& opcode@ == made
    }

    pub(crate) fn new(bytes: Vec<u8>) -> (disassembler: Disassembler)
        ensures
            disassembler.reader@.bytes == bytes@,
            disassembler.reader@.at == 0,
            disassembler.last_bop is None,
            disassembler.last_post is None,
            disassembler.number_of_instructions == 0,
            disassembler.anchors() == Anchors::start(),
            disassembler.wf(),
    {
        Disassembler {
            reader: ByteReader::new(bytes),
            last_bop: Option::None,
            last_post: Option::None,
            number_of_instructions: 0,
        }
    }

    /// Decodes from where the reader stands to the end of the buffer, which
    /// a successful decode consumes entirely.
    pub(crate) fn disassemble(&mut self) -> (result: DviousResult<Vec<OpCode>>)
        requires
            old(self).wf(),
        ensures
            match result {
                Ok(opcodes) => {
                    &&& final(self).reader@.bytes == old(self).reader@.bytes
                    &&& decode_from(
                        old(self).reader@.bytes,
                        old(self).reader@.at as int,
                        Anchors { last_bop: None, ..old(self).anchors() },
                    ) == Ok::<Seq<Instruction>, Failure>(instructions(opcodes@))
                    &&& final(self).reader@.at == final(self).reader@.bytes.len()
                    &&& final(self).number_of_instructions == old(self).number_of_instructions
                        + opcodes@.len()
                },
                Err(error) => decode_from(
                    old(self).reader@.bytes,
                    old(self).reader@.at as int,
                    Anchors { last_bop: None, ..old(self).anchors() },
                ) == Err::<Seq<Instruction>, Failure>(error@),
            },
    {
        let mut opcodes: Vec<OpCode> = Vec::new();
        self.last_bop = Option::None;
        let ghost bytes = self.reader@.bytes;
        let ghost whole = decode_from(bytes, self.reader@.at as int, self.anchors());
        assert(whole == preceded_by(whole, instructions(opcodes@))) by {
            if let Ok(all) = whole {
                assert(instructions(opcodes@) + all =~= all);
            }
        }

        while self.reader.has_more()
            invariant
                self.wf(),
                self.reader@.bytes == bytes,
                bytes == old(self).reader@.bytes,
                self.number_of_instructions == old(self).number_of_instructions + opcodes@.len(),
                whole == decode_from(
                    bytes,
                    old(self).reader@.at as int,
                    Anchors { last_bop: None, ..old(self).anchors() },
                ),
                whole == preceded_by(
                    decode_from(bytes, self.reader@.at as int, self.anchors()),
                    instructions(opcodes@),
                ),
            decreases self.reader@.bytes.len() - self.reader@.at,
        {
            let ghost before = instructions(opcodes@);
            proof {
                lemma_decode_unfolds(bytes, self.reader@.at as int, self.anchors());
            }
            let opcode = self.disassemble_next()?;
            opcodes.push(opcode);
            proof {
                assert(instructions(opcodes@) =~= before + seq![opcode@]);
                if let Ok(tail) = decode_from(bytes, self.reader@.at as int, self.anchors()) {
                    assert(before + (seq![opcode@] + tail) =~= (before + seq![opcode@]) + tail);
                }
            }
        }
        proof {
            assert(instructions(opcodes@) + Seq::<Instruction>::empty() =~= instructions(opcodes@));
        }

        Ok(opcodes)
    }

    /// Decodes the instruction that starts where the reader stands.
    pub(crate) fn disassemble_next(&mut self) -> (result: DviousResult<OpCode>)
        requires
            old(self).wf(),
        ensures
            match result {
                Ok(opcode) => {
                    &&& final(self).reader@.bytes == old(self).reader@.bytes
                    &&& step(
                        old(self).reader@.bytes,
                        old(self).reader@.at as int,
                        old(self).anchors(),
                    ) == Ok::<(Instruction, int, Anchors), Failure>(
                        (opcode@, final(self).reader@.at as int, final(self).anchors()),
                    )
                    &&& final(self).number_of_instructions == old(self).number_of_instructions
                        + 1
                    &&& final(self).wf()
                },
                Err(error) => step(
                    old(self).reader@.bytes,
                    old(self).reader@.at as int,
                    old(self).anchors(),
                ) == Err::<(Instruction, int, Anchors), Failure>(error@),
            },
    {
        proof {
            if self.reader@.fits(1) {
                lemma_byte_value(self.reader@);
            }
            lemma_step_cases(self.reader@.bytes, self.reader@.at as int, self.anchors());
        }
        let byte = self.reader.read_be::<u8>()?;
        let ghost before = *self;
        let opcode = match byte {
            0..=127 => self.handle_set_char(byte as i32)?,
            128 => self.handle_set1()?,
            129 => self.handle_set2()?,
            130 => self.handle_set3()?,
            131 => self.handle_set4()?,
            132 => self.handle_set_rule()?,
            133 => self.handle_put1()?,
            134 => self.handle_put2()?,
            135 => self.handle_put3()?,
            136 => self.handle_put4()?,
            137 => self.handle_put_rule()?,
            138 => self.handle_nop()?,
            139 => self.handle_bop()?,
            140 => self.handle_eop()?,
            141 => self.handle_push()?,
            142 => self.handle_pop()?,
            143 => self.handle_right1()?,
            144 => self.handle_right2()?,
            145 => self.handle_right3()?,
            146 => self.handle_right4()?,
            147 => self.handle_w0()?,
            148 => self.handle_w1()?,
            149 => self.handle_w2()?,
            150 => self.handle_w3()?,
            151 => self.handle_w4()?,
            152 => self.handle_x0()?,
            153 => self.handle_x1()?,
            154 => self.handle_x2()?,
            155 => self.handle_x3()?,
            156 => self.handle_x4()?,
            157 => self.handle_down1()?,
            158 => self.handle_down2()?,
            159 => self.handle_down3()?,
            160 => self.handle_down4()?,
            161 => self.handle_y0()?,
            162 => self.handle_y1()?,
            163 => self.handle_y2()?,
            164 => self.handle_y3()?,
            165 => self.handle_y4()?,
            166 => self.handle_z0()?,
            167 => self.handle_z1()?,
            168 => self.handle_z2()?,
            169 => self.handle_z3()?,
            170 => self.handle_z4()?,
            171..=234 => self.handle_fnt_num(byte)?,
            235 => self.handle_fnt1()?,
            236 => self.handle_fnt2()?,
            237 => self.handle_fnt3()?,
            238 => self.handle_fnt4()?,
            239 => self.handle_xxx1()?,
            240 => self.handle_xxx2()?,
            241 => self.handle_xxx3()?,
            242 => self.handle_xxx4()?,
            243 => self.handle_fnt_def1()?,
            244 => self.handle_fnt_def2()?,
            245 => self.handle_fnt_def3()?,
            246 => self.handle_fnt_def4()?,
            247 => self.handle_pre()?,
            248 => self.handle_post()?,
            249 => self.handle_post_post()?,
            _ => return Err(DviousError::UnknownOpcodeError(byte)),
        };
        self.number_of_instructions += 1;
        Ok(opcode)
    }

    // Set

    /// Makes the instruction for a character code already read; for the
    /// opcodes that carry their character in themselves this is the whole step.
    pub(crate) fn handle_set_char(&mut self, c: i32) -> (result: DviousResult<OpCode>)
        ensures
            final(self).yields(*old(self), result, Instruction::SetChar { c }),
            0 <= c <= SET_CHAR_127 ==> final(self).handles(*old(self), c as u8, result),
    {
        Ok(OpCode::SetChar { c: c })
    }

    pub(crate) fn handle_set1(&mut self) -> (result: DviousResult<OpCode>)
        ensures
            final(self).handles(*old(self), 128, result),
    {
        let c = self.reader.read_be::<u8>()?;
        self.handle_set_char(c as i32)
    }

    pub(crate) fn handle_set2(&mut self) -> (result: DviousResult<OpCode>)
        ensures
            final(self).handles(*old(self), 129, result),
    {
        let c = self.reader.read_be::<u16>()?;
        self.handle_set_char(c as i32)
    }

    pub(crate) fn handle_set3(&mut self) -> (result: DviousResult<OpCode>)
        ensures
            final(self).handles(*old(self), 130, result),
    {
        let c = self.reader.read_be::<u24>()?;
        self.handle_set_char(i32::from(c))
    }

    pub(crate) fn handle_set4(&mut self) -> (result: DviousResult<OpCode>)
        ensures
            final(self).handles(*old(self), 131, result),
    {
        let c = self.reader.read_be::<i32>()?;
        self.handle_set_char(c)
    }

    pub(crate) fn handle_set_rule(&mut self) -> (result: DviousResult<OpCode>)
        ensures
            final(self).handles(*old(self), 132, result),
    {
        Ok(OpCode::SetRule { a: self.reader.read_be::<i32>()?, b: self.reader.read_be::<i32>()? })
    }

    // Put

    pub(crate) fn handle_put(&mut self, c: i32) -> (result: DviousResult<OpCode>)
        ensures
            final(self).yields(*old(self), result, Instruction::Put { c }),
    {
        Ok(OpCode::Put { c: c })
    }

    pub(crate) fn handle_put1(&mut self) -> (result: DviousResult<OpCode>)
        ensures
            final(self).handles(*old(self), 133, result),
    {
        let c = self.reader.read_be::<u8>()?;
        self.handle_put(c as i32)
    }

    pub(crate) fn handle_put2(&mut self) -> (result: DviousResult<OpCode>)
        ensures
            final(self).handles(*old(self), 134, result),
    {
        let c = self.reader.read_be::<u16>()?;
        self.handle_put(c as i32)
    }

    pub(crate) fn handle_put3(&mut self) -> (result: DviousResult<OpCode>)
        ensures
            final(self).handles(*old(self), 135, result),
    {
        let c = self.reader.read_be::<u24>()?;
        self.handle_put(i32::from(c))
    }

    pub(crate) fn handle_put4(&mut self) -> (result: DviousResult<OpCode>)
        ensures
            final(self).handles(*old(self), 136, result),
    {
        let c = self.reader.read_be::<i32>()?;
        self.handle_put(c)
    }

    pub(crate) fn handle_put_rule(&mut self) -> (result: DviousResult<OpCode>)
        ensures
            final(self).handles(*old(self), 137, result),
    {
        Ok(OpCode::PutRule { a: self.reader.read_be::<i32>()?, b: self.reader.read_be::<i32>()? })
    }

    pub(crate) fn handle_nop(&mut self) -> (result: DviousResult<OpCode>)
        ensures
            final(self).handles(*old(self), 138, result),
    {
        Ok(OpCode::Nop)
    }

    /// Reads the eleven words of a begin of page, and notes the page as the
    /// last that began.
    pub(crate) fn handle_bop(&mut self) -> (result: DviousResult<OpCode>)
        ensures
            match result {
                Ok(opcode) => {
                    &&& old(self).reader@.fits(44)
                    &&& opcode@ == instruction(
                        BOP,
                        old(self).reader@.bytes,
                        old(self).reader@.at as int,
                        old(self).anchors(),
                    )
                    &&& final(self).reader@ == old(self).reader@.advance(44)
                    &&& final(self).last_bop == Some(old(self).number_of_instructions)
                    &&& final(self).last_post == old(self).last_post
                    &&& final(self).number_of_instructions == old(self).number_of_instructions
                },
                Err(error) => !old(self).reader@.fits(44) && error@ == Failure::IndexOutOfBounds,
            },
            final(self).handles(*old(self), BOP, result),
    {
        self.last_bop = Some(self.number_of_instructions);

        Ok(
            OpCode::Bop {
                c0: self.reader.read_be::<i32>()?,
                c1: self.reader.read_be::<i32>()?,
                c2: self.reader.read_be::<i32>()?,
                c3: self.reader.read_be::<i32>()?,
                c4: self.reader.read_be::<i32>()?,
                c5: self.reader.read_be::<i32>()?,
                c6: self.reader.read_be::<i32>()?,
                c7: self.reader.read_be::<i32>()?,
                c8: self.reader.read_be::<i32>()?,
                c9: self.reader.read_be::<i32>()?,
                p: self.reader.read_be::<i32>()?,
            },
        )
    }

    pub(crate) fn handle_eop(&mut self) -> (result: DviousResult<OpCode>)
        ensures
            final(self).handles(*old(self), 140, result),
    {
        Ok(OpCode::Eop)
    }

    pub(crate) fn handle_push(&mut self) -> (result: DviousResult<OpCode>)
        ensures
            final(self).handles(*old(self), 141, result),
    {
        Ok(OpCode::Push)
    }

    pub(crate) fn handle_pop(&mut self) -> (result: DviousResult<OpCode>)
        ensures
            final(self).handles(*old(self), 142, result),
    {
        Ok(OpCode::Pop)
    }

    // Right

    pub(crate) fn handle_right(&mut self, b: i32) -> (result: DviousResult<OpCode>)
        ensures
            final(self).yields(*old(self), result, Instruction::Right { b }),
    {
        Ok(OpCode::Right { b: b })
    }

    pub(crate) fn handle_right1(&mut self) -> (result: DviousResult<OpCode>)
        ensures
            final(self).handles(*old(self), 143, result),
    {
        let b = self.reader.read_be::<i8>()?;
        self.handle_right(b as i32)
    }

    pub(crate) fn handle_right2(&mut self) -> (result: DviousResult<OpCode>)
        ensures
            final(self).handles(*old(self), 144, result),
    {
        let b = self.reader.read_be::<i16>()?;
        self.handle_right(b as i32)
    }

    pub(crate) fn handle_right3(&mut self) -> (result: DviousResult<OpCode>)
        ensures
            final(self).handles(*old(self), 145, result),
    {
        let b = self.reader.read_be::<i24>()?;
        self.handle_right(i32::from(b))
    }

    pub(crate) fn handle_right4(&mut self) -> (result: DviousResult<OpCode>)
        ensures
            final(self).handles(*old(self), 146, result),
    {
        let b = self.reader.read_be::<i32>()?;
        self.handle_right(b)
    }

    // W

    pub(crate) fn handle_w(&mut self, b: i32) -> (result: DviousResult<OpCode>)
        ensures
            final(self).yields(*old(self), result, Instruction::W { b }),
    {
        Ok(OpCode::W { b: b })
    }

    pub(crate) fn handle_w0(&mut self) -> (result: DviousResult<OpCode>)
        ensures
            final(self).handles(*old(self), 147, result),
    {
        Ok(OpCode::W0)
    }

    pub(crate) fn handle_w1(&mut self) -> (result: DviousResult<OpCode>)
        ensures
            final(self).handles(*old(self), 148, result),
    {
        let b = self.reader.read_be::<i8>()?;
        self.handle_w(b as i32)
    }

    pub(crate) fn handle_w2(&mut self) -> (result: DviousResult<OpCode>)
        ensures
            final(self).handles(*old(self), 149, result),
    {
        let b = self.reader.read_be::<i16>()?;
        self.handle_w(b as i32)
    }

    pub(crate) fn handle_w3(&mut self) -> (result: DviousResult<OpCode>)
        ensures
            final(self).handles(*old(self), 150, result),
    {
        let b = self.reader.read_be::<i24>()?;
        self.handle_w(i32::from(b))
    }

    pub(crate) fn handle_w4(&mut self) -> (result: DviousResult<OpCode>)
        ensures
            final(self).handles(*old(self), 151, result),
    {
        let b = self.reader.read_be::<i32>()?;
        self.handle_w(b)
    }

    // X

    pub(crate) fn handle_x(&mut self, b: i32) -> (result: DviousResult<OpCode>)
        ensures
            final(self).yields(*old(self), result, Instruction::X { b }),
    {
        Ok(OpCode::X { b: b })
    }

    pub(crate) fn handle_x0(&mut self) -> (result: DviousResult<OpCode>)
        ensures
            final(self).handles(*old(self), 152, result),
    {
        Ok(OpCode::X0)
    }

    pub(crate) fn handle_x1(&mut self) -> (result: DviousResult<OpCode>)
        ensures
            final(self).handles(*old(self), 153, result),
    {
        let b = self.reader.read_be::<i8>()?;
        self.handle_x(b as i32)
    }

    pub(crate) fn handle_x2(&mut self) -> (result: DviousResult<OpCode>)
        ensures
            final(self).handles(*old(self), 154, result),
    {
        let b = self.reader.read_be::<i16>()?;
        self.handle_x(b as i32)
    }

    pub(crate) fn handle_x3(&mut self) -> (result: DviousResult<OpCode>)
        ensures
            final(self).handles(*old(self), 155, result),
    {
        let b = self.reader.read_be::<i24>()?;
        self.handle_x(i32::from(b))
    }

    pub(crate) fn handle_x4(&mut self) -> (result: DviousResult<OpCode>)
        ensures
            final(self).handles(*old(self), 156, result),
    {
        let b = self.reader.read_be::<i32>()?;
        self.handle_x(b)
    }

    // Down

    pub(crate) fn handle_down(&mut self, a: i32) -> (result: DviousResult<OpCode>)
        ensures
            final(self).yields(*old(self), result, Instruction::Down { a }),
    {
        Ok(OpCode::Down { a: a })
    }

    pub(crate) fn handle_down1(&mut self) -> (result: DviousResult<OpCode>)
        ensures
            final(self).handles(*old(self), 157, result),
    {
        let a = self.reader.read_be::<i8>()?;
        self.handle_down(a as i32)
    }

    pub(crate) fn handle_down2(&mut self) -> (result: DviousResult<OpCode>)
        ensures
            final(self).handles(*old(self), 158, result),
    {
        let a = self.reader.read_be::<i16>()?;
        self.handle_down(a as i32)
    }

    pub(crate) fn handle_down3(&mut self) -> (result: DviousResult<OpCode>)
        ensures
            final(self).handles(*old(self), 159, result),
    {
        let a = self.reader.read_be::<i24>()?;
        self.handle_down(i32::from(a))
    }

    pub(crate) fn handle_down4(&mut self) -> (result: DviousResult<OpCode>)
        ensures
            final(self).handles(*old(self), 160, result),
    {
        let a = self.reader.read_be::<i32>()?;
        self.handle_down(a)
    }

    // Y

    pub(crate) fn handle_y(&mut self, a: i32) -> (result: DviousResult<OpCode>)
        ensures
            final(self).yields(*old(self), result, Instruction::Y { a }),
    {
        Ok(OpCode::Y { a: a })
    }

    pub(crate) fn handle_y0(&mut self) -> (result: DviousResult<OpCode>)
        ensures
            final(self).handles(*old(self), 161, result),
    {
        Ok(OpCode::Y0)
    }

    pub(crate) fn handle_y1(&mut self) -> (result: DviousResult<OpCode>)
        ensures
            final(self).handles(*old(self), 162, result),
    {
        let a = self.reader.read_be::<i8>()?;
        self.handle_y(a as i32)
    }

    pub(crate) fn handle_y2(&mut self) -> (result: DviousResult<OpCode>)
        ensures
            final(self).handles(*old(self), 163, result),
    {
        let a = self.reader.read_be::<i16>()?;
        self.handle_y(a as i32)
    }

    pub(crate) fn handle_y3(&mut self) -> (result: DviousResult<OpCode>)
        ensures
            final(self).handles(*old(self), 164, result),
    {
        let a = self.reader.read_be::<i24>()?;
        self.handle_y(i32::from(a))
    }

    pub(crate) fn handle_y4(&mut self) -> (result: DviousResult<OpCode>)
        ensures
            final(self).handles(*old(self), 165, result),
    {
        let a = self.reader.read_be::<i32>()?;
        self.handle_y(a)
    }

    // Z

    pub(crate) fn handle_z(&mut self, a: i32) -> (result: DviousResult<OpCode>)
        ensures
            final(self).yields(*old(self), result, Instruction::Z { a }),
    {
        Ok(OpCode::Z { a: a })
    }

    pub(crate) fn handle_z0(&mut self) -> (result: DviousResult<OpCode>)
        ensures
            final(self).handles(*old(self), 166, result),
    {
        Ok(OpCode::Z0)
    }

    pub(crate) fn handle_z1(&mut self) -> (result: DviousResult<OpCode>)
        ensures
            final(self).handles(*old(self), 167, result),
    {
        let a = self.reader.read_be::<i8>()?;
        self.handle_z(a as i32)
    }

    pub(crate) fn handle_z2(&mut self) -> (result: DviousResult<OpCode>)
        ensures
            final(self).handles(*old(self), 168, result),
    {
        let a = self.reader.read_be::<i16>()?;
        self.handle_z(a as i32)
    }

    pub(crate) fn handle_z3(&mut self) -> (result: DviousResult<OpCode>)
        ensures
            final(self).handles(*old(self), 169, result),
    {
        let a = self.reader.read_be::<i24>()?;
        self.handle_z(i32::from(a))
    }

    pub(crate) fn handle_z4(&mut self) -> (result: DviousResult<OpCode>)
        ensures
            final(self).handles(*old(self), 170, result),
    {
        let a = self.reader.read_be::<i32>()?;
        self.handle_z(a)
    }

    // Fonts

    pub(crate) fn handle_fnt(&mut self, k: i32) -> (result: DviousResult<OpCode>)
        ensures
            final(self).yields(*old(self), result, Instruction::Fnt { k }),
    {
        Ok(OpCode::Fnt { k: k })
    }

    pub(crate) fn handle_fnt_num(&mut self, byte: u8) -> (result: DviousResult<OpCode>)
        ensures
            final(self).yields(*old(self), result, Instruction::Fnt { k: byte as i32 }),
            FNT_NUM_FIRST <= byte < FNT1 ==> final(self).handles(*old(self), byte, result),
    {
        self.handle_fnt(byte as i32)
    }

    pub(crate) fn handle_fnt1(&mut self) -> (result: DviousResult<OpCode>)
        ensures
            final(self).handles(*old(self), 235, result),
    {
        let k = self.reader.read_be::<u8>()?;
        self.handle_fnt(k as i32)
    }

    pub(crate) fn handle_fnt2(&mut self) -> (result: DviousResult<OpCode>)
        ensures
            final(self).handles(*old(self), 236, result),
    {
        let k = self.reader.read_be::<u16>()?;
        self.handle_fnt(k as i32)
    }

    pub(crate) fn handle_fnt3(&mut self) -> (result: DviousResult<OpCode>)
        ensures
            final(self).handles(*old(self), 237, result),
    {
        let k = self.reader.read_be::<u24>()?;
        self.handle_fnt(i32::from(k))
    }

    pub(crate) fn handle_fnt4(&mut self) -> (result: DviousResult<OpCode>)
        ensures
            final(self).handles(*old(self), 238, result),
    {
        let k = self.reader.read_be::<i32>()?;
        self.handle_fnt(k)
    }

    // Xxx

    /// Reads the `n` bytes of an extension whose length has been read.
    pub(crate) fn handle_xxx(&mut self, n: u32) -> (result: DviousResult<OpCode>)
        ensures
            match result {
                Ok(opcode) => {
                    &&& old(self).reader@.fits(n as nat)
                    &&& opcode@ == Instruction::Xxx {
                        k: n,
                        x: old(self).reader@.upcoming(n as nat),
                    }
                    &&& *final(self) == Disassembler { reader: final(self).reader, ..*old(self) }
                    &&& final(self).reader@ == old(self).reader@.advance(n as nat)
                },
                Err(error) => {
                    &&& !old(self).reader@.fits(n as nat)
                    &&& error@ == Failure::IndexOutOfBounds
                },
            },
    {
        let k = n;
        proof {
            if self.reader@.fits(k as nat) {
                lemma_byte_values(self.reader@, k as nat);
            }
        }
        let x = self.reader.read_vector_be::<u8>(k as usize)?;
        Ok(OpCode::Xxx { k: k, x: x })
    }

    pub(crate) fn handle_xxx1(&mut self) -> (result: DviousResult<OpCode>)
        ensures
            final(self).handles(*old(self), 239, result),
    {
        let k = self.reader.read_be::<u8>()?;
        self.handle_xxx(k as u32)
    }

    pub(crate) fn handle_xxx2(&mut self) -> (result: DviousResult<OpCode>)
        ensures
            final(self).handles(*old(self), 240, result),
    {
        let k = self.reader.read_be::<u16>()?;
        self.handle_xxx(k as u32)
    }

    pub(crate) fn handle_xxx3(&mut self) -> (result: DviousResult<OpCode>)
        ensures
            final(self).handles(*old(self), 241, result),
    {
        let k = self.reader.read_be::<u24>()?;
        self.handle_xxx(u32::from(k))
    }

    pub(crate) fn handle_xxx4(&mut self) -> (result: DviousResult<OpCode>)
        ensures
            final(self).handles(*old(self), 242, result),
    {
        let k = self.reader.read_be::<u32>()?;
        self.handle_xxx(k)
    }

    // fnt_def

    /// Reads what follows the font number `k` of a font definition.
    pub(crate) fn handle_fnt_def(&mut self, k: i32) -> (result: DviousResult<OpCode>)
        ensures
            match result {
                Ok(opcode) => {
                    &&& font_definition_len(old(self).reader@.bytes, old(self).reader@.at as int)
                        matches Some(len)
                    &&& old(self).reader@.fits(len)
                    &&& opcode@ == font_definition(
                        k,
                        old(self).reader@.bytes,
                        old(self).reader@.at as int,
                    )
                    &&& *final(self) == Disassembler { reader: final(self).reader, ..*old(self) }
                    &&& final(self).reader@ == old(self).reader@.advance(len)
                },
                Err(error) => {
                    &&& !(font_definition_len(old(self).reader@.bytes, old(self).reader@.at as int)
                        matches Some(len) && old(self).reader@.fits(len))
                    &&& error@ == Failure::IndexOutOfBounds
                },
            },
    {
        let ghost start = self.reader@;
        let c = self.reader.read_be::<u32>()?;
        let s = self.reader.read_be::<u32>()?;
        let d = self.reader.read_be::<u32>()?;
        let a = self.reader.read_be::<u8>()?;
        let l = self.reader.read_be::<u8>()?;
        proof {
            if self.reader@.fits((a + l) as nat) {
                lemma_byte_values(self.reader@, (a + l) as nat);
            }
        }
        let n = self.reader.read_vector_be::<u8>(a as usize + l as usize)?;

        Ok(OpCode::FntDef { k: k, c: c, s: s, d: d, a: a, l: l, n: n })
    }

    pub(crate) fn handle_fnt_def1(&mut self) -> (result: DviousResult<OpCode>)
        ensures
            final(self).handles(*old(self), 243, result),
    {
        let k = self.reader.read_be::<u8>()?;
        self.handle_fnt_def(k as i32)
    }

    pub(crate) fn handle_fnt_def2(&mut self) -> (result: DviousResult<OpCode>)
        ensures
            final(self).handles(*old(self), 244, result),
    {
        let k = self.reader.read_be::<u16>()?;
        self.handle_fnt_def(k as i32)
    }

    pub(crate) fn handle_fnt_def3(&mut self) -> (result: DviousResult<OpCode>)
        ensures
            final(self).handles(*old(self), 245, result),
    {
        let k = self.reader.read_be::<u24>()?;
        self.handle_fnt_def(i32::from(k))
    }

    pub(crate) fn handle_fnt_def4(&mut self) -> (result: DviousResult<OpCode>)
        ensures
            final(self).handles(*old(self), 246, result),
    {
        let k = self.reader.read_be::<i32>()?;
        self.handle_fnt_def(k)
    }

    // Pre and post

    /// Reads a preamble: five fields of fourteen bytes in all, and a comment
    /// of as many bytes as the last of them says.
    pub(crate) fn handle_pre(&mut self) -> (result: DviousResult<OpCode>)
        ensures
            match result {
                Ok(opcode) => {
                    &&& old(self).reader@.fits(14)
                    &&& old(self).reader@.fits(
                        (14 + old(self).reader@.bytes[old(self).reader@.at as int + 13]) as nat,
                    )
                    &&& opcode@ == instruction(
                        PRE,
                        old(self).reader@.bytes,
                        old(self).reader@.at as int,
                        old(self).anchors(),
                    )
                    &&& final(self).reader@ == old(self).reader@.advance(
                        (14 + old(self).reader@.bytes[old(self).reader@.at as int + 13]) as nat,
                    )
                    &&& final(self).last_bop == old(self).last_bop
                    &&& final(self).last_post == old(self).last_post
                    &&& final(self).number_of_instructions == old(self).number_of_instructions
                },
                Err(error) => {
                    &&& !(old(self).reader@.fits(14) && old(self).reader@.fits(
                        (14 + old(self).reader@.bytes[old(self).reader@.at as int + 13]) as nat,
                    ))
                    &&& error@ == Failure::IndexOutOfBounds
                },
            },
            final(self).handles(*old(self), PRE, result),
    {
        let i = self.reader.read_be::<u8>()?;
        let num = self.reader.read_be::<u32>()?;
        let den = self.reader.read_be::<u32>()?;
        let mag = self.reader.read_be::<u32>()?;
        let k = self.reader.read_be::<u8>()?;
        proof {
            if self.reader@.fits(k as nat) {
                lemma_byte_values(self.reader@, k as nat);
            }
        }

        Ok(
            OpCode::Pre {
                i: i,
                num: num,
                den: den,
                mag: mag,
                k: k,
                x: self.reader.read_vector_be::<u8>(k as usize)?,
            },
        )
    }

    /// Reads a postamble: the file's pointer to the last page is read and
    /// dropped, and `p` is the index of the last `Bop` that this decode saw.
    pub(crate) fn handle_post(&mut self) -> (result: DviousResult<OpCode>)
        ensures
            match result {
                Ok(opcode) => {
                    &&& old(self).reader@.fits(28)
                    &&& opcode@ == instruction(
                        POST,
                        old(self).reader@.bytes,
                        old(self).reader@.at as int,
                        old(self).anchors(),
                    )
                    &&& opcode@ matches Instruction::Post { p, .. } && p == index_view(
                        old(self).last_bop,
                    )
                    &&& final(self).reader@ == old(self).reader@.advance(28)
                    &&& final(self).last_bop == old(self).last_bop
                    &&& final(self).last_post == Some(old(self).number_of_instructions)
                    &&& final(self).number_of_instructions == old(self).number_of_instructions
                },
                Err(error) => !old(self).reader@.fits(28) && error@ == Failure::IndexOutOfBounds,
            },
            final(self).handles(*old(self), POST, result),
    {
        // The file's own pointer to the last page counts bytes; instructions are counted here.
        self.reader.read_be::<i32>()?;
        self.last_post = Option::Some(self.number_of_instructions);

        Ok(
            OpCode::Post {
                p: self.last_bop,
                num: self.reader.read_be::<u32>()?,
                den: self.reader.read_be::<u32>()?,
                mag: self.reader.read_be::<u32>()?,
                l: self.reader.read_be::<u32>()?,
                u: self.reader.read_be::<u32>()?,
                s: self.reader.read_be::<u16>()?,
                t: self.reader.read_be::<u16>()?,
            },
        )
    }

    /// Reads the end of a postamble: the file's pointer to the postamble is
    /// read and dropped, `q` is the index of the last `Post` that this decode
    /// saw, and all the padding behind the version byte is taken in.
    pub(crate) fn handle_post_post(&mut self) -> (result: DviousResult<OpCode>)
        ensures
            match result {
                Ok(opcode) => {
                    &&& old(self).reader@.fits(5)
                    &&& opcode@ == Instruction::PostPost {
                        q: index_view(old(self).last_post),
                        i: old(self).reader@.bytes[old(self).reader@.at as int + 4],
                    }
                    &&& final(self).reader@ == old(self).reader@.advance(
                        5 + padding_len(old(self).reader@.bytes, old(self).reader@.at as int + 5),
                    )
                    &&& final(self).reader@.at <= final(self).reader@.bytes.len()
                    &&& final(self).reader@.at < final(self).reader@.bytes.len()
                        ==> final(self).reader@.bytes[final(self).reader@.at as int] != PADDING
                    &&& final(self).last_bop == old(self).last_bop
                    &&& final(self).last_post == old(self).last_post
                    &&& final(self).number_of_instructions == old(self).number_of_instructions
                },
                Err(error) => !old(self).reader@.fits(5) && error@ == Failure::IndexOutOfBounds,
            },
            final(self).handles(*old(self), POST_POST, result),
    {
        let ghost start = self.reader@;
        proof {
            if start.fits(5) {
                lemma_byte_value(start.advance(4));
                lemma_padding_is_maximal(start.bytes, start.at as int + 5);
            }
        }
        // Consume unused pointer to post command
        self.reader.read_be::<i32>()?;

        let result = OpCode::PostPost { q: self.last_post, i: self.reader.read_be::<u8>()? };

        // Consume padding
        while self.reader.has_more() && self.reader.peek_be::<u8>()? == PADDING
            invariant
                start == old(self).reader@,
                self.reader@.bytes == start.bytes,
                start.at + 5 <= self.reader@.at,
                padding_len(start.bytes, (start.at + 5) as int) == self.reader@.at - (start.at + 5)
                    + padding_len(start.bytes, self.reader@.at as int),
                self.number_of_instructions == old(self).number_of_instructions,
                self.last_bop == old(self).last_bop,
                self.last_post == old(self).last_post,
                result@ == instruction(
                    POST_POST,
                    start.bytes,
                    start.at as int,
                    old(self).anchors(),
                ),
            decreases start.bytes.len() - self.reader@.at,
        {
            proof {
                lemma_byte_value(self.reader@);
            }
            self.reader.read_be::<u8>()?;
        }
        proof {
            if self.reader@.fits(1) {
                lemma_byte_value(self.reader@);
            }
        }

        Ok(result)
    }
}

} // verus!
