//! The layout of a TFM file, stated over byte sequences.
//!
//! A file is a preamble of twelve 16-bit words, a header, and nine tables in
//! fixed order. All lengths in the preamble count 32-bit words.

use crate::errors::Failure;
use crate::fonts::tfm::{TfmCharInfo, TfmCharInfoTag, TfmExtensionRecipe, TfmLigatureCommand};
use crate::util::big_endian::{be_signed, be_unsigned};
use crate::util::decimal::decimal;
use crate::util::num::Fixword;
use vstd::prelude::*;
use vstd::utf8::{decode_utf8, valid_utf8};

verus! {

/// How many bytes the preamble occupies.
pub const PREAMBLE_LEN: usize = 24;

/// The longest text that the encoding field of a header holds.
pub const ENCODING_FIELD_LEN: u8 = 39;

/// The length of the font identifier field of a header, its length byte included.
pub const FONT_ID_FIELD_LEN: u8 = 20;

/// The largest character code: a character code is one byte.
pub const MAX_CHAR_CODE: u16 = 255;

/// A header as the contracts see it.
pub struct HeaderView {
    pub checksum: u32,
    pub design_size: Fixword,
    pub encoding: Option<Seq<char>>,
    pub font_identifier: Option<Seq<char>>,
    pub face: Option<u8>,
    pub misc: Seq<u8>,
}

/// A font metric as the contracts see it.
pub struct MetricView {
    pub header: HeaderView,
    pub char_info_table: Map<u8, TfmCharInfo>,
    pub width_table: Seq<Fixword>,
    pub heigth_table: Seq<Fixword>,
    pub depth_table: Seq<Fixword>,
    pub italic_table: Seq<Fixword>,
    pub lig_kern_table: Seq<TfmLigatureCommand>,
    pub kern_table: Seq<Fixword>,
    pub extension_table: Seq<TfmExtensionRecipe>,
    pub param_table: Seq<Fixword>,
}

/// The twelve words of a preamble.
pub struct Preamble {
    /// Length of the entire file.
    pub lf: nat,
    /// Length of the header.
    pub lh: nat,
    /// Smallest character code.
    pub bc: nat,
    /// Largest character code.
    pub ec: nat,
    /// Number of entries in the width table.
    pub nw: nat,
    /// Number of entries in the height table.
    pub nh: nat,
    /// Number of entries in the depth table.
    pub nd: nat,
    /// Number of entries in the italic correction table.
    pub ni: nat,
    /// Number of entries in the lig/kern table.
    pub nl: nat,
    /// Number of entries in the kern table.
    pub nk: nat,
    /// Number of entries in the extensible character table.
    pub ne: nat,
    /// Number of font parameters.
    pub np: nat,
}

impl Preamble {
    /// The length that the parts of the file add up to: six words of
    /// preamble, the header, one word for each character, and the tables.
    pub open spec fn sum_of_lengths(self) -> int {
        6 + self.lh + (self.ec - self.bc + 1) + self.nw + self.nh + self.nd + self.ni + self.nl
            + self.nk + self.ne + self.np
    }

    /// How many bytes the tables behind the header occupy: one word for
    /// each character from `bc` to `ec`, and the declared tables.
    pub open spec fn tables_len(self) -> nat {
        4 * (char_count(self.bc, self.ec) + self.nw + self.nh + self.nd + self.ni + self.nl
            + self.nk + self.ne + self.np)
    }
}

/// The 16-bit word at `at`.
pub open spec fn half_word_at(bytes: Seq<u8>, at: int) -> nat {
    be_unsigned(bytes.subrange(at, at + 2))
}

/// The unsigned 32-bit word at `at`.
pub open spec fn word_at(bytes: Seq<u8>, at: int) -> u32 {
    be_unsigned(bytes.subrange(at, at + 4)) as u32
}

/// The fixed-point number at `at`: a signed 32-bit word that counts units of 2^-20.
pub open spec fn fixword_at(bytes: Seq<u8>, at: int) -> Fixword {
    Fixword(be_signed(bytes.subrange(at, at + 4)) as i32)
}

/// The preamble in the `PREAMBLE_LEN` bytes at `at`.
pub open spec fn preamble_at(bytes: Seq<u8>, at: int) -> Preamble {
    Preamble {
        lf: half_word_at(bytes, at),
        lh: half_word_at(bytes, at + 2),
        bc: half_word_at(bytes, at + 4),
        ec: half_word_at(bytes, at + 6),
        nw: half_word_at(bytes, at + 8),
        nh: half_word_at(bytes, at + 10),
        nd: half_word_at(bytes, at + 12),
        ni: half_word_at(bytes, at + 14),
        nl: half_word_at(bytes, at + 16),
        nk: half_word_at(bytes, at + 18),
        ne: half_word_at(bytes, at + 20),
        np: half_word_at(bytes, at + 22),
    }
}

// Messages

pub open spec fn length_mismatch_message(declared: nat, actual: nat) -> Seq<char> {
    "TFM specified to have ["@ + decimal(declared) + "] bytes, but file on disk contains ["@
        + decimal(actual) + "] bytes"@
}

pub open spec fn char_range_message(bc: nat, ec: nat) -> Seq<char> {
    "The character code range ["@ + decimal(bc) + "]..["@ + decimal(ec) + "] is illegal!"@
}

pub open spec fn sum_mismatch_message(declared: nat, sum: nat) -> Seq<char> {
    "File says to contain ["@ + decimal(declared)
        + "] bytes, but summing individual lengths adds up to ["@ + decimal(sum) + "]"@
}

pub open spec fn encoding_too_long_message(len: nat) -> Seq<char> {
    "TFM header encoding specified to have ["@ + decimal(len)
        + "] bytes, which is more than the allowed 0..39"@
}

pub open spec fn font_id_too_long_message(len: nat) -> Seq<char> {
    "TFM header font identifier specified to have ["@ + decimal(len)
        + "] bytes, which is more than the allowed 0..19"@
}

pub open spec fn invalid_tag_message(tag_value: nat) -> Seq<char> {
    "TFM character information specified invalid tag: "@ + decimal(tag_value)
}

pub open spec fn unread_rest_message(read: nat, len: nat) -> Seq<char> {
    "Expected reader to reach end of input, but only read ["@ + decimal(read) + "/"@ + decimal(
        len,
    ) + "] bytes"@
}

// Header

/// Whether `bytes` are the UTF-8 encoding of some text.
#[verifier::opaque]
pub open spec fn is_text(bytes: Seq<u8>) -> bool {
    valid_utf8(bytes)
}

/// The text that `bytes` encode in UTF-8.
#[verifier::opaque]
pub open spec fn text_of(bytes: Seq<u8>) -> Seq<char> {
    decode_utf8(bytes)
}

/// A text field at `at`: a length byte that may not exceed `capacity`, that
/// many bytes of UTF-8, and padding up to `capacity` bytes behind the length
/// byte. The checks fail in this order.
pub open spec fn text_field_at(bytes: Seq<u8>, at: int, capacity: nat, too_long: Seq<char>)
    -> Result<Seq<char>, Failure> {
    if at + 1 > bytes.len() {
        Err(Failure::IndexOutOfBounds)
    } else if bytes[at] > capacity {
        Err(Failure::TfmParse(too_long))
    } else if at + 1 + bytes[at] > bytes.len() {
        Err(Failure::IndexOutOfBounds)
    } else if !is_text(bytes.subrange(at + 1, at + 1 + bytes[at])) {
        Err(Failure::Utf8)
    } else if at + 1 + capacity > bytes.len() {
        Err(Failure::IndexOutOfBounds)
    } else {
        Ok(text_of(bytes.subrange(at + 1, at + 1 + bytes[at])))
    }
}

/// The encoding field of a header at `at`.
pub open spec fn encoding_at(bytes: Seq<u8>, at: int) -> Result<Seq<char>, Failure> {
    text_field_at(
        bytes,
        at,
        ENCODING_FIELD_LEN as nat,
        encoding_too_long_message(bytes[at] as nat),
    )
}

/// The font identifier field of a header at `at`.
pub open spec fn font_id_at(bytes: Seq<u8>, at: int) -> Result<Seq<char>, Failure> {
    text_field_at(
        bytes,
        at,
        (FONT_ID_FIELD_LEN - 1) as nat,
        font_id_too_long_message(bytes[at] as nat),
    )
}

/// A header of more than two words has an encoding field.
pub open spec fn has_encoding(header_size: nat) -> bool {
    header_size > 2
}

/// A header of more than twelve words has a font identifier field.
pub open spec fn has_font_id(header_size: nat) -> bool {
    header_size > 12
}

/// A header of more than seventeen words has a face word.
pub open spec fn has_face(header_size: nat) -> bool {
    header_size > 17
}

/// How many bytes of a header of `header_size` words lie behind its face word.
pub open spec fn misc_len(header_size: nat) -> nat {
    if header_size > 18 {
        (4 * (header_size - 18)) as nat
    } else {
        0
    }
}

/// How many bytes a header that declares `header_size` words occupies: the
/// fields that it has are read whole, also where it declares less.
pub open spec fn header_len(header_size: nat) -> nat {
    if !has_encoding(header_size) {
        8
    } else if !has_font_id(header_size) {
        48
    } else if !has_face(header_size) {
        68
    } else {
        72 + misc_len(header_size)
    }
}

/// The header of `header_size` words at `at`, or the first failure in the
/// order of its fields.
#[verifier::opaque]
pub open spec fn header_at(bytes: Seq<u8>, at: int, header_size: nat) -> Result<
    HeaderView,
    Failure,
> {
    if at + 8 > bytes.len() {
        Err(Failure::IndexOutOfBounds)
    } else if has_encoding(header_size) && encoding_at(bytes, at + 8) is Err {
        Err(encoding_at(bytes, at + 8)->Err_0)
    } else if has_font_id(header_size) && font_id_at(bytes, at + 48) is Err {
        Err(font_id_at(bytes, at + 48)->Err_0)
    } else if at + header_len(header_size) > bytes.len() {
        Err(Failure::IndexOutOfBounds)
    } else {
        Ok(
            HeaderView {
                checksum: word_at(bytes, at),
                design_size: fixword_at(bytes, at + 4),
                encoding: if has_encoding(header_size) {
                    Some(encoding_at(bytes, at + 8)->Ok_0)
                } else {
                    None
                },
                font_identifier: if has_font_id(header_size) {
                    Some(font_id_at(bytes, at + 48)->Ok_0)
                } else {
                    None
                },
                face: if has_face(header_size) {
                    Some(bytes[at + 71])
                } else {
                    None
                },
                misc: bytes.subrange(
                    at + header_len(header_size) - misc_len(header_size),
                    at + header_len(header_size),
                ),
            },
        )
    }
}

// Tables

/// The tag of a character from the two low bits of its third byte, with the
/// fourth byte as its remainder.
pub open spec fn tag_of(tag_value: u8, remainder: u8) -> Result<TfmCharInfoTag, Failure> {
    if tag_value == 0 {
        Ok(TfmCharInfoTag::NoTag)
    } else if tag_value == 1 {
        Ok(TfmCharInfoTag::Ligature(remainder))
    } else if tag_value == 2 {
        Ok(TfmCharInfoTag::List(remainder))
    } else if tag_value == 3 {
        Ok(TfmCharInfoTag::Extensible(remainder))
    } else {
        Err(Failure::TfmParse(invalid_tag_message(tag_value as nat)))
    }
}

/// The record of `character` in the four bytes at `at`. The height index is
/// the high nibble of the second byte, left in place; the italic index is the
/// six high bits of the third byte, left in place.
pub open spec fn char_info_at(bytes: Seq<u8>, at: int, character: u8) -> TfmCharInfo {
    TfmCharInfo {
        character,
        width_index: bytes[at],
        height_index: ((bytes[at + 1] / 16) * 16) as u8,
        depth_index: bytes[at + 1] % 16,
        italic_index: ((bytes[at + 2] / 4) * 4) as u8,
        tag: tag_of(bytes[at + 2] % 4, bytes[at + 3])->Ok_0,
    }
}

/// How many characters the codes from `first` to `last` are.
pub open spec fn char_count(first: nat, last: nat) -> nat {
    if first <= last {
        (last - first + 1) as nat
    } else {
        0
    }
}

/// The records of the characters `first` to `last`, which start at `at`:
/// the record of each character stands under its code.
pub open spec fn char_infos_at(bytes: Seq<u8>, at: int, first: nat, last: nat) -> Map<
    u8,
    TfmCharInfo,
> {
    Map::new(
        |character: u8| first <= character <= last,
        |character: u8| char_info_at(bytes, at + 4 * (character - first), character),
    )
}

/// The `count` fixed-point numbers that start at `at`.
pub open spec fn fixwords_at(bytes: Seq<u8>, at: int, count: nat) -> Seq<Fixword> {
    Seq::new(count, |i: int| fixword_at(bytes, at + 4 * i))
}

/// The lig/kern command in the four bytes at `at`.
pub open spec fn lig_kern_at(bytes: Seq<u8>, at: int) -> TfmLigatureCommand {
    TfmLigatureCommand {
        skip_byte: bytes[at],
        next_char: bytes[at + 1],
        op_byte: bytes[at + 2],
        remainder: bytes[at + 3],
    }
}

/// The `count` lig/kern commands that start at `at`.
pub open spec fn lig_kerns_at(bytes: Seq<u8>, at: int, count: nat) -> Seq<TfmLigatureCommand> {
    Seq::new(count, |i: int| lig_kern_at(bytes, at + 4 * i))
}

/// The extensible recipe in the four bytes at `at`.
pub open spec fn extension_at(bytes: Seq<u8>, at: int) -> TfmExtensionRecipe {
    TfmExtensionRecipe {
        top: bytes[at],
        mid: bytes[at + 1],
        bot: bytes[at + 2],
        rep: bytes[at + 3],
    }
}

/// The `count` extensible recipes that start at `at`.
pub open spec fn extensions_at(bytes: Seq<u8>, at: int, count: nat) -> Seq<TfmExtensionRecipe> {
    Seq::new(count, |i: int| extension_at(bytes, at + 4 * i))
}

// The whole file

/// The metric whose header is `header` and whose tables start at `at`.
pub open spec fn metric_at(bytes: Seq<u8>, at: int, preamble: Preamble, header: HeaderView)
    -> MetricView {
    let widths = at + 4 * char_count(preamble.bc, preamble.ec);
    let heights = widths + 4 * preamble.nw;
    let depths = heights + 4 * preamble.nh;
    let italics = depths + 4 * preamble.nd;
    let lig_kerns = italics + 4 * preamble.ni;
    let kerns = lig_kerns + 4 * preamble.nl;
    let extensions = kerns + 4 * preamble.nk;
    let params = extensions + 4 * preamble.ne;
    MetricView {
        header,
        char_info_table: char_infos_at(bytes, at, preamble.bc, preamble.ec),
        width_table: fixwords_at(bytes, widths, preamble.nw),
        heigth_table: fixwords_at(bytes, heights, preamble.nh),
        depth_table: fixwords_at(bytes, depths, preamble.nd),
        italic_table: fixwords_at(bytes, italics, preamble.ni),
        lig_kern_table: lig_kerns_at(bytes, lig_kerns, preamble.nl),
        kern_table: fixwords_at(bytes, kerns, preamble.nk),
        extension_table: extensions_at(bytes, extensions, preamble.ne),
        param_table: fixwords_at(bytes, params, preamble.np),
    }
}

/// What stands behind a preamble that has passed its checks, for a header
/// at `at`: the header, the tables, and nothing more.
#[verifier::opaque]
pub open spec fn body_at(bytes: Seq<u8>, at: int, preamble: Preamble) -> Result<
    MetricView,
    Failure,
> {
    let tables = at + header_len(preamble.lh);
    let end = tables + preamble.tables_len();
    match header_at(bytes, at, preamble.lh) {
        Err(failure) => Err(failure),
        Ok(header) => if end > bytes.len() {
            Err(Failure::IndexOutOfBounds)
        } else if end < bytes.len() {
            Err(Failure::TfmParse(unread_rest_message(end as nat, bytes.len())))
        } else {
            Ok(metric_at(bytes, tables, preamble, header))
        },
    }
}

/// The metric that the bytes from `at` on hold, or the first failure: the
/// buffer must be as long as the first word says, the character range must
/// not be empty nor reach beyond `MAX_CHAR_CODE`, and the parts must add up
/// to the declared length, before any of them is read.
#[verifier::opaque]
pub open spec fn metric_from(bytes: Seq<u8>, at: int) -> Result<MetricView, Failure> {
    let preamble = preamble_at(bytes, at);
    if at + 2 > bytes.len() {
        Err(Failure::IndexOutOfBounds)
    } else if 4 * preamble.lf != bytes.len() {
        Err(Failure::TfmParse(length_mismatch_message(4 * preamble.lf, bytes.len())))
    } else if at + PREAMBLE_LEN > bytes.len() {
        Err(Failure::IndexOutOfBounds)
    } else if preamble.bc > preamble.ec {
        Err(Failure::TfmParse(char_range_message(preamble.bc, preamble.ec)))
    } else if preamble.ec > MAX_CHAR_CODE {
        Err(Failure::TfmParse(char_range_message(preamble.bc, preamble.ec)))
    } else if preamble.lf != preamble.sum_of_lengths() {
        Err(
            Failure::TfmParse(
                sum_mismatch_message(4 * preamble.lf, (4 * preamble.sum_of_lengths()) as nat),
            ),
        )
    } else {
        body_at(bytes, at + PREAMBLE_LEN, preamble)
    }
}

/// The metric that a file holds, or the first failure.
pub open spec fn metric(bytes: Seq<u8>) -> Result<MetricView, Failure> {
    metric_from(bytes, 0)
}

} // verus!
