//! The TFM reader: from the bytes of a font-metric file to its tables.

use crate::errors::{DviousError, DviousResult, Failure};
use crate::fonts::tfm_format::{
    body_at, char_count, char_info_at, char_infos_at, char_range_message,
    encoding_too_long_message, extensions_at, fixword_at, fixwords_at,
    font_id_too_long_message, header_at, header_len, invalid_tag_message, is_text,
    length_mismatch_message, lig_kerns_at, metric_at, metric_from, misc_len, preamble_at,
    sum_mismatch_message, tag_of, text_of, unread_rest_message, HeaderView, MetricView,
    ENCODING_FIELD_LEN, FONT_ID_FIELD_LEN, MAX_CHAR_CODE, PREAMBLE_LEN,
};
use crate::util::big_endian::lemma_fixed_width_ranges;
use crate::util::byte_reader::{
    lemma_byte_value, lemma_byte_values, lemma_reader_within_buffer, ByteReader, Cursor,
};
use crate::util::decimal::push_decimal;
use crate::util::num::Fixword;
use std::collections::HashMap;
use vstd::prelude::*;
use vstd::string::StringExecFns;
use vstd::utf8::{decode_utf8, valid_utf8};

verus! {

broadcast use {
    lemma_fixed_width_ranges,
    lemma_reader_within_buffer,
    vstd::std_specs::hash::group_hash_axioms,
};

/// `String::from_utf8` succeeds exactly where the bytes are valid UTF-8, and
/// the string that it gives then holds the characters that the bytes encode.
pub assume_specification[ String::from_utf8 ](vec: Vec<u8>) -> (result: Result<
    String,
    std::string::FromUtf8Error,
>)
    ensures
        result is Ok <==> valid_utf8(vec@),
        result matches Ok(text) ==> text@ == decode_utf8(vec@),
;

/// The metrics of one font: its header and its tables, as the file holds them.
#[derive(Debug, PartialEq)]
pub struct TexFontMetric {
    pub header: TfmMetricHeader,
    pub char_info_table: HashMap<u8, TfmCharInfo>,
    pub width_table: Vec<Fixword>,
    pub heigth_table: Vec<Fixword>,
    pub depth_table: Vec<Fixword>,
    pub italic_table: Vec<Fixword>,
    pub lig_kern_table: Vec<TfmLigatureCommand>,
    pub kern_table: Vec<Fixword>,
    pub extension_table: Vec<TfmExtensionRecipe>,
    pub param_table: Vec<Fixword>,
}

/// The header of a font metric; the fields that a short header lacks are `None`.
#[derive(Debug, PartialEq)]
pub struct TfmMetricHeader {
    pub checksum: u32,
    pub design_size: Fixword,
    pub encoding: Option<String>,
    pub font_identifier: Option<String>,
    pub face: Option<u8>,
    pub misc: Vec<u8>,
}

/// What the file says of one character: where its dimensions stand in the
/// tables of the font, and its tag.
#[derive(Debug, PartialEq)]
pub struct TfmCharInfo {
    pub character: u8,
    pub width_index: u8,
    pub height_index: u8,
    pub depth_index: u8,
    pub italic_index: u8,
    pub tag: TfmCharInfoTag,
}

/// What the remainder byte of a character means.
#[derive(Debug, PartialEq)]
pub enum TfmCharInfoTag {
    /// The remainder is not used.
    NoTag,
    /// The remainder is where the character's lig/kern program starts.
    Ligature(u8),
    /// The remainder is the next larger character of the same shape.
    List(u8),
    /// The remainder is the index of the character's extensible recipe.
    Extensible(u8),
}

/// One step of a lig/kern program.
#[derive(Debug, PartialEq)]
pub struct TfmLigatureCommand {
    pub skip_byte: u8,
    pub next_char: u8,
    pub op_byte: u8,
    pub remainder: u8,
}

/// The pieces that an extensible character is built from.
#[derive(Debug, PartialEq)]
pub struct TfmExtensionRecipe {
    pub top: u8,
    pub mid: u8,
    pub bot: u8,
    pub rep: u8,
}

/// The characters of an optional string.
pub open spec fn text_view(text: Option<String>) -> Option<Seq<char>> {
    match text {
        Some(text) => Some(text@),
        None => None,
    }
}

impl View for TfmMetricHeader {
    type V = HeaderView;

    open spec fn view(&self) -> HeaderView {
        HeaderView {
            checksum: self.checksum,
            design_size: self.design_size,
            encoding: text_view(self.encoding),
            font_identifier: text_view(self.font_identifier),
            face: self.face,
            misc: self.misc@,
        }
    }
}

impl View for TexFontMetric {
    type V = MetricView;

    open spec fn view(&self) -> MetricView {
        MetricView {
            header: self.header@,
            char_info_table: self.char_info_table@,
            width_table: self.width_table@,
            heigth_table: self.heigth_table@,
            depth_table: self.depth_table@,
            italic_table: self.italic_table@,
            lig_kern_table: self.lig_kern_table@,
            kern_table: self.kern_table@,
            extension_table: self.extension_table@,
            param_table: self.param_table@,
        }
    }
}

/// A reader of one font-metric buffer: made for the buffer, asked once for
/// the metric, and dropped.
pub struct TfmMetricReader {
    reader: ByteReader,
}

impl View for TfmMetricReader {
    type V = Cursor;

    closed spec fn view(&self) -> Cursor {
        self.reader@
    }
}

/// A reader stands within its buffer, and the buffer is one that a machine holds.
pub broadcast proof fn lemma_metric_reader_within_buffer(reader: TfmMetricReader)
    ensures
        #![trigger reader@]
        reader@.at <= reader@.bytes.len() <= usize::MAX,
{
}

fn invalid_tag(tag_value: u8) -> (message: String)
    ensures
        message@ == invalid_tag_message(tag_value as nat),
{
    let mut message = String::from_str("TFM character information specified invalid tag: ");
    push_decimal(&mut message, tag_value as u64);
    message
}

fn length_mismatch(declared: usize, actual: usize) -> (message: String)
    ensures
        message@ == length_mismatch_message(declared as nat, actual as nat),
{
    let mut message = String::from_str("TFM specified to have [");
    push_decimal(&mut message, declared as u64);
    message.append("] bytes, but file on disk contains [");
    push_decimal(&mut message, actual as u64);
    message.append("] bytes");
    message
}

fn char_range(bc: u16, ec: u16) -> (message: String)
    ensures
        message@ == char_range_message(bc as nat, ec as nat),
{
    let mut message = String::from_str("The character code range [");
    push_decimal(&mut message, bc as u64);
    message.append("]..[");
    push_decimal(&mut message, ec as u64);
    message.append("] is illegal!");
    message
}

fn sum_mismatch(declared: usize, sum: usize) -> (message: String)
    ensures
        message@ == sum_mismatch_message(declared as nat, sum as nat),
{
    let mut message = String::from_str("File says to contain [");
    push_decimal(&mut message, declared as u64);
    message.append("] bytes, but summing individual lengths adds up to [");
    push_decimal(&mut message, sum as u64);
    message.append("]");
    message
}

fn encoding_too_long(len: u8) -> (message: String)
    ensures
        message@ == encoding_too_long_message(len as nat),
{
    let mut message = String::from_str("TFM header encoding specified to have [");
    push_decimal(&mut message, len as u64);
    message.append("] bytes, which is more than the allowed 0..39");
    message
}

fn font_id_too_long(len: u8) -> (message: String)
    ensures
        message@ == font_id_too_long_message(len as nat),
{
    let mut message = String::from_str("TFM header font identifier specified to have [");
    push_decimal(&mut message, len as u64);
    message.append("] bytes, which is more than the allowed 0..19");
    message
}

fn unread_rest(read: usize, len: usize) -> (message: String)
    ensures
        message@ == unread_rest_message(read as nat, len as nat),
{
    let mut message = String::from_str("Expected reader to reach end of input, but only read [");
    push_decimal(&mut message, read as u64);
    message.append("/");
    push_decimal(&mut message, len as u64);
    message.append("] bytes");
    message
}

impl TfmMetricReader {
    pub fn new(bytes: Vec<u8>) -> (reader: TfmMetricReader)
        ensures
            reader@ == (Cursor { bytes: bytes@, at: 0 }),
    {
        TfmMetricReader { reader: ByteReader::new(bytes) }
    }

    /// Reads a whole font metric: the preamble and its checks, the header,
    /// and the tables, up to the end of the buffer. A preamble whose
    /// character codes do not run upwards within one byte is rejected, as is
    /// one whose lengths do not agree with the buffer or with each other.
    #[verifier::rlimit(50)]
    pub fn read(&mut self) -> (result: DviousResult<TexFontMetric>)
        ensures
            match result {
                Ok(metric) => {
                    &&& metric_from(old(self)@.bytes, old(self)@.at as int) == Ok::<
                        MetricView,
                        Failure,
                    >(metric@)
                    &&& final(self)@ == (Cursor {
                        bytes: old(self)@.bytes,
                        at: old(self)@.bytes.len(),
                    })
                },
                Err(error) => metric_from(old(self)@.bytes, old(self)@.at as int) == Err::<
                    MetricView,
                    Failure,
                >(error@),
            },
    {
        let ghost start = self@;
        proof {
            reveal(metric_from);
        }
        // Length of the entire file in bytes, lf itself is in words (1 word = 4 bytes)
        let lf = 4 * self.reader.read_be::<u16>()? as usize;
        if lf != self.reader.len() {
            return Err(DviousError::TfmParseError(length_mismatch(lf, self.reader.len())));
        }
        let lh = self.reader.read_be::<u16>()?;  // Length of header data
        let bc = self.reader.read_be::<u16>()?;  // Smallest character code
        let ec = self.reader.read_be::<u16>()?;  // Largest character code
        let nw = self.reader.read_be::<u16>()?;  // Number of entries in width table
        let nh = self.reader.read_be::<u16>()?;  // Number of entries in height table
        let nd = self.reader.read_be::<u16>()?;  // Number of entries in depth table
        let ni = self.reader.read_be::<u16>()?;  // Number of entries italic correction table
        let nl = self.reader.read_be::<u16>()?;  // Number of entries in lig/kern table
        let nk = self.reader.read_be::<u16>()?;  // Number of entries in kern table
        let ne = self.reader.read_be::<u16>()?;  // Number of entries in extensible characters table
        let np = self.reader.read_be::<u16>()?;  // Number of font parameters
        let ghost preamble = preamble_at(start.bytes, start.at as int);

        // Sanity checks
        if bc > ec {
            return Err(DviousError::TfmParseError(char_range(bc, ec)));
        }
        if ec > MAX_CHAR_CODE {
            return Err(DviousError::TfmParseError(char_range(bc, ec)));
        }
        let sum_of_lengths = (6 + lh as usize + (ec as usize - bc as usize + 1) + nw as usize
            + nh as usize + nd as usize + ni as usize + nl as usize + nk as usize + ne as usize
            + np as usize) * 4;
        if lf != sum_of_lengths {
            return Err(DviousError::TfmParseError(sum_mismatch(lf, sum_of_lengths)));
        }
        // Parsing
        let ghost outcome = metric_from(start.bytes, start.at as int);
        assert(outcome == body_at(start.bytes, start.at + PREAMBLE_LEN, preamble));

        proof {
            reveal(body_at);
        }
        let header = self.read_header(lh)?;
        let ghost tables = self@;
        let ghost end = tables.at + preamble.tables_len();
        assert(outcome == if end > start.bytes.len() {
            Err::<MetricView, Failure>(Failure::IndexOutOfBounds)
        } else if end < start.bytes.len() {
            Err::<MetricView, Failure>(
                Failure::TfmParse(unread_rest_message(end as nat, start.bytes.len())),
            )
        } else {
            Ok::<MetricView, Failure>(metric_at(start.bytes, tables.at as int, preamble, header@))
        });
        let char_info_table = self.read_char_info_table(bc as u8, ec as u8)?;
        let width_table = self.read_fixword_table(nw)?;
        let heigth_table = self.read_fixword_table(nh)?;
        let depth_table = self.read_fixword_table(nd)?;
        let italic_table = self.read_fixword_table(ni)?;
        let lig_kern_table = self.read_lig_kern_table(nl)?;
        let kern_table = self.read_fixword_table(nk)?;
        let extension_table = self.read_extension_table(ne)?;
        let param_table = self.read_fixword_table(np)?;

        // The lengths were checked to add up, so that nothing can be left.
        if self.reader.has_more() {
            return Err(
                DviousError::TfmParseError(
                    unread_rest(self.reader.position(), self.reader.len()),
                ),
            );
        }
        Ok(
            TexFontMetric {
                header,
                char_info_table,
                width_table,
                heigth_table,
                depth_table,
                italic_table,
                lig_kern_table,
                kern_table,
                extension_table,
                param_table,
            },
        )
    }

    /// Reads a header that declares `header_size` words. The fields that the
    /// declared size reaches are read whole: two words, then the encoding,
    /// the font identifier and the face; what the size declares beyond them
    /// is kept as it is.
    pub fn read_header(&mut self, header_size: u16) -> (result: DviousResult<TfmMetricHeader>)
        ensures
            final(self)@.bytes == old(self)@.bytes,
            match result {
                Ok(header) => {
                    &&& header_at(old(self)@.bytes, old(self)@.at as int, header_size as nat)
                        == Ok::<HeaderView, Failure>(header@)
                    &&& final(self)@ == old(self)@.advance(header_len(header_size as nat))
                },
                Err(error) => header_at(old(self)@.bytes, old(self)@.at as int, header_size as nat)
                    == Err::<HeaderView, Failure>(error@),
            },
    {
        let ghost start = self@;
        proof {
            reveal(header_at);
        }
        let mut words_read = 0_u16;
        let checksum = self.reader.read_be::<u32>()?;
        words_read += 1;
        let design_size = self.read_fixword()?;
        words_read += 1;

        // Handle encoding information
        let encoding = if words_read < header_size {
            proof {
                if self@.fits(1) {
                    lemma_byte_value(self@);
                }
            }
            let encoding_len = self.reader.read_be::<u8>()?;
            words_read += 10;
            if encoding_len > 39 {
                return Err(DviousError::TfmParseError(encoding_too_long(encoding_len)));
            }
            let s = self.read_utf8_string(encoding_len as usize)?;
            self.reader.skip_bytes(u32::from(ENCODING_FIELD_LEN - encoding_len))?;
            Option::Some(s)
        } else {
            Option::None
        };

        // Font identifier
        let font_identifier = if words_read < header_size {
            // The font identifier is saved in Pascal format,
            // the first byte indicates its length
            proof {
                if self@.fits(1) {
                    lemma_byte_value(self@);
                }
            }
            let font_id_len = self.reader.read_be::<u8>()?;
            if font_id_len > 19 {
                return Err(DviousError::TfmParseError(font_id_too_long(font_id_len)));
            }
            let s = self.read_utf8_string(font_id_len as usize)?;
            self.reader.skip_bytes(u32::from(FONT_ID_FIELD_LEN - font_id_len - 1))?;
            words_read += 5;
            Option::Some(s)
        } else {
            Option::None
        };

        // Face
        let face = if words_read < header_size {
            proof {
                if self@.fits(4) {
                    lemma_byte_value(self@.advance(3));
                }
            }
            self.reader.read_be::<u8>()?;
            self.reader.read_be::<u16>()?;
            let face_byte = self.reader.read_be::<u8>()?;

            words_read += 1;
            Option::Some(face_byte)
        } else {
            Option::None
        };

        // Misc
        let mut misc = Vec::new();
        let misc_bytes = if words_read < header_size {
            (header_size - words_read) as usize * 4
        } else {
            0
        };
        let ghost rest = self@;
        let ghost outcome = header_at(start.bytes, start.at as int, header_size as nat);
        let ghost read_so_far = HeaderView {
            checksum,
            design_size,
            encoding: text_view(encoding),
            font_identifier: text_view(font_identifier),
            face,
            misc: rest.upcoming(misc_bytes as nat),
        };
        assert(misc_bytes == misc_len(header_size as nat));
        assert(rest == start.advance((header_len(header_size as nat) - misc_bytes) as nat));
        assert(outcome == if rest.fits(misc_bytes as nat) {
            Ok::<HeaderView, Failure>(read_so_far)
        } else {
            Err::<HeaderView, Failure>(Failure::IndexOutOfBounds)
        });

        for i in 0..misc_bytes
            invariant
                start == old(self)@,
                rest.bytes == start.bytes,
                outcome == header_at(start.bytes, start.at as int, header_size as nat),
                !rest.fits(misc_bytes as nat) ==> outcome == Err::<HeaderView, Failure>(
                    Failure::IndexOutOfBounds,
                ),
                rest.fits(i as nat),
                self@ == rest.advance(i as nat),
                misc@ == rest.upcoming(i as nat),
        {
            proof {
                if self@.fits(1) {
                    lemma_byte_value(self@);
                }
            }
            let b = self.reader.read_be::<u8>()?;
            misc.push(b);
            assert(misc@ =~= rest.upcoming((i + 1) as nat));
        }

        Ok(TfmMetricHeader { checksum, design_size, encoding, font_identifier, face, misc })
    }

    /// Reads the records of the characters `bc` to `ec`, four bytes each;
    /// there are none where `bc` lies above `ec`.
    pub fn read_char_info_table(&mut self, bc: u8, ec: u8) -> (result: DviousResult<
        HashMap<u8, TfmCharInfo>,
    >)
        ensures
            final(self)@.bytes == old(self)@.bytes,
            match result {
                Ok(table) => {
                    &&& old(self)@.fits(4 * char_count(bc as nat, ec as nat))
                    &&& table@ == char_infos_at(
                        old(self)@.bytes,
                        old(self)@.at as int,
                        bc as nat,
                        ec as nat,
                    )
                    &&& final(self)@ == old(self)@.advance(4 * char_count(bc as nat, ec as nat))
                },
                Err(error) => !old(self)@.fits(4 * char_count(bc as nat, ec as nat)) && error@
                    == Failure::IndexOutOfBounds,
            },
    {
        let mut result = HashMap::new();
        let ghost start = self@;
        let mut code = bc as u16;

        while code <= ec as u16
            invariant
                start == old(self)@,
                bc <= code,
                code <= ec + 1 || code == bc,
                self@ == start.advance((4 * (code - bc)) as nat),
                result@ == Map::new(
                    |character: u8| bc <= character < code,
                    |character: u8|
                        char_info_at(start.bytes, start.at + 4 * (character - bc), character),
                ),
            decreases ec + 1 - code,
        {
            let character = code as u8;
            proof {
                if self@.fits(4) {
                    lemma_byte_value(self@);
                    lemma_byte_value(self@.advance(1));
                    lemma_byte_value(self@.advance(2));
                    lemma_byte_value(self@.advance(3));
                }
            }
            let first_byte = self.reader.read_be::<u8>()?;
            let second_byte = self.reader.read_be::<u8>()?;
            let third_byte = self.reader.read_be::<u8>()?;
            let fourth_byte = self.reader.read_be::<u8>()?;
            proof {
                assert(second_byte >> 4 == second_byte / 16) by (bit_vector);
                assert(second_byte & 0x0F == second_byte % 16) by (bit_vector);
                assert(third_byte >> 2 == third_byte / 4) by (bit_vector);
                assert(third_byte & 0b0000_0011 == third_byte % 4) by (bit_vector);
            }

            let width_index = first_byte;
            let height_index = (second_byte >> 4) * 16;
            let depth_index = second_byte & 0x0F;
            let italic_index = (third_byte >> 2) * 4;
            let tag_value = third_byte & 0b0000_0011;
            let remainder = fourth_byte;

            let tag = self.read_char_info_table_tag(tag_value, remainder)?;

            let char_info_table = TfmCharInfo {
                character,
                width_index,
                height_index,
                depth_index,
                italic_index,
                tag,
            };
            result.insert(character, char_info_table);
            code += 1;
            assert(result@ =~= Map::new(
                |character: u8| bc <= character < code,
                |character: u8|
                    char_info_at(start.bytes, start.at + 4 * (character - bc), character),
            ));
        }

        assert(result@ =~= char_infos_at(start.bytes, start.at as int, bc as nat, ec as nat));
        Ok(result)
    }

    /// The tag that the two tag bits `tag_value` make of `remainder`; values
    /// that two bits cannot hold are rejected.
    pub fn read_char_info_table_tag(&self, tag_value: u8, remainder: u8) -> (result: DviousResult<
        TfmCharInfoTag,
    >)
        ensures
            match result {
                Ok(tag) => tag_of(tag_value, remainder) == Ok::<TfmCharInfoTag, Failure>(tag),
                Err(error) => tag_of(tag_value, remainder) == Err::<TfmCharInfoTag, Failure>(
                    error@,
                ),
            },
    {
        let tag = match tag_value {
            0 => TfmCharInfoTag::NoTag,
            1 => TfmCharInfoTag::Ligature(remainder),
            2 => TfmCharInfoTag::List(remainder),
            3 => TfmCharInfoTag::Extensible(remainder),
            _ => { return Err(DviousError::TfmParseError(invalid_tag(tag_value))) },
        };
        Ok(tag)
    }

    /// Reads `nl` lig/kern commands of four bytes each.
    pub fn read_lig_kern_table(&mut self, nl: u16) -> (result: DviousResult<
        Vec<TfmLigatureCommand>,
    >)
        ensures
            final(self)@.bytes == old(self)@.bytes,
            match result {
                Ok(table) => {
                    &&& old(self)@.fits(4 * nl as nat)
                    &&& table@ == lig_kerns_at(old(self)@.bytes, old(self)@.at as int, nl as nat)
                    &&& final(self)@ == old(self)@.advance(4 * nl as nat)
                },
                Err(error) => !old(self)@.fits(4 * nl as nat) && error@
                    == Failure::IndexOutOfBounds,
            },
    {
        let number_of_commands = nl as usize;
        let mut result = Vec::with_capacity(number_of_commands);
        let ghost start = self@;

        for i in 0..number_of_commands
            invariant
                number_of_commands == nl,
                start == old(self)@,
                self@ == start.advance(4 * i as nat),
                result@ == lig_kerns_at(start.bytes, start.at as int, i as nat),
        {
            proof {
                if self@.fits(4) {
                    lemma_byte_values(self@, 4);
                    lemma_byte_value(self@);
                    lemma_byte_value(self@.advance(1));
                    lemma_byte_value(self@.advance(2));
                    lemma_byte_value(self@.advance(3));
                }
            }
            let skip_byte = self.reader.read_be::<u8>()?;
            let next_char = self.reader.read_be::<u8>()?;
            let op_byte = self.reader.read_be::<u8>()?;
            let remainder = self.reader.read_be::<u8>()?;
            let cmd = TfmLigatureCommand { skip_byte, next_char, op_byte, remainder };
            result.push(cmd);
            assert(result@ =~= lig_kerns_at(start.bytes, start.at as int, (i + 1) as nat));
        }
        Ok(result)
    }

    /// Reads `ne` extensible recipes of four bytes each.
    pub fn read_extension_table(&mut self, ne: u16) -> (result: DviousResult<
        Vec<TfmExtensionRecipe>,
    >)
        ensures
            final(self)@.bytes == old(self)@.bytes,
            match result {
                Ok(table) => {
                    &&& old(self)@.fits(4 * ne as nat)
                    &&& table@ == extensions_at(old(self)@.bytes, old(self)@.at as int, ne as nat)
                    &&& final(self)@ == old(self)@.advance(4 * ne as nat)
                },
                Err(error) => !old(self)@.fits(4 * ne as nat) && error@
                    == Failure::IndexOutOfBounds,
            },
    {
        let n = ne as usize;
        let mut result = Vec::with_capacity(n);
        let ghost start = self@;
        for i in 0..n
            invariant
                n == ne,
                start == old(self)@,
                self@ == start.advance(4 * i as nat),
                result@ == extensions_at(start.bytes, start.at as int, i as nat),
        {
            proof {
                if self@.fits(4) {
                    lemma_byte_value(self@);
                    lemma_byte_value(self@.advance(1));
                    lemma_byte_value(self@.advance(2));
                    lemma_byte_value(self@.advance(3));
                }
            }
            let top = self.reader.read_be::<u8>()?;
            let mid = self.reader.read_be::<u8>()?;
            let bot = self.reader.read_be::<u8>()?;
            let rep = self.reader.read_be::<u8>()?;
            let ext = TfmExtensionRecipe { top, mid, bot, rep };
            result.push(ext);
            assert(result@ =~= extensions_at(start.bytes, start.at as int, (i + 1) as nat));
        }
        Ok(result)
    }

    /// Reads one fixed-point number of four bytes.
    pub fn read_fixword(&mut self) -> (result: DviousResult<Fixword>)
        ensures
            match result {
                Ok(fixword) => {
                    &&& old(self)@.fits(4)
                    &&& fixword == fixword_at(old(self)@.bytes, old(self)@.at as int)
                    &&& final(self)@ == old(self)@.advance(4)
                },
                Err(error) => {
                    &&& !old(self)@.fits(4)
                    &&& error@ == Failure::IndexOutOfBounds
                    &&& final(self)@ == old(self)@
                },
            },
    {
        let b = self.reader.read_be::<i32>()?;
        Ok(Fixword(b))
    }

    /// Reads `number_of_fixwords` fixed-point numbers of four bytes each.
    pub fn read_fixword_table(&mut self, number_of_fixwords: u16) -> (result: DviousResult<
        Vec<Fixword>,
    >)
        ensures
            final(self)@.bytes == old(self)@.bytes,
            match result {
                Ok(table) => {
                    &&& old(self)@.fits(4 * number_of_fixwords as nat)
                    &&& table@ == fixwords_at(
                        old(self)@.bytes,
                        old(self)@.at as int,
                        number_of_fixwords as nat,
                    )
                    &&& final(self)@ == old(self)@.advance(4 * number_of_fixwords as nat)
                },
                Err(error) => !old(self)@.fits(4 * number_of_fixwords as nat) && error@
                    == Failure::IndexOutOfBounds,
            },
    {
        let n = number_of_fixwords as usize;
        let mut result = Vec::with_capacity(n);
        let ghost start = self@;
        for i in 0..n
            invariant
                n == number_of_fixwords,
                start == old(self)@,
                self@ == start.advance(4 * i as nat),
                result@ == fixwords_at(start.bytes, start.at as int, i as nat),
        {
            let fixword = self.read_fixword()?;
            result.push(fixword);
            assert(result@ =~= fixwords_at(start.bytes, start.at as int, (i + 1) as nat));
        }
        Ok(result)
    }

    /// Reads `k` bytes as a string of UTF-8.
    pub fn read_utf8_string(&mut self, k: usize) -> (result: DviousResult<String>)
        ensures
            final(self)@.bytes == old(self)@.bytes,
            match result {
                Ok(text) => {
                    &&& old(self)@.fits(k as nat)
                    &&& is_text(old(self)@.upcoming(k as nat))
                    &&& text@ == text_of(old(self)@.upcoming(k as nat))
                    &&& final(self)@ == old(self)@.advance(k as nat)
                },
                Err(error) => if old(self)@.fits(k as nat) {
                    !is_text(old(self)@.upcoming(k as nat)) && error@ == Failure::Utf8
                } else {
                    error@ == Failure::IndexOutOfBounds
                },
            },
    {
        proof {
            reveal(is_text);
            reveal(text_of);
            if self@.fits(k as nat) {
                lemma_byte_values(self@, k as nat);
            }
            assert(k * 1 == k);
        }
        let vec = self.reader.read_vector_be::<u8>(k)?;
        match String::from_utf8(vec) {
            Ok(s) => Ok(s),
            Err(error) => Err(DviousError::from(error)),
        }
    }
}

} // verus!
