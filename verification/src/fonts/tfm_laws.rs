//! What holds of every font-metric buffer, proved from the layout.

use crate::errors::Failure;
use crate::fonts::tfm::TfmCharInfoTag;
use crate::fonts::tfm_format::{
    body_at, char_info_at, char_range_message, encoding_at, encoding_too_long_message,
    font_id_too_long_message, has_encoding, has_face, has_font_id, header_at, header_len,
    length_mismatch_message, metric, metric_from, misc_len, preamble_at, sum_mismatch_message,
    tag_of, HeaderView, MetricView, ENCODING_FIELD_LEN, FONT_ID_FIELD_LEN, MAX_CHAR_CODE,
    PREAMBLE_LEN,
};
use vstd::prelude::*;

verus! {

/// A buffer that holds a metric is four times as long as its first word
/// says, its parts add up to that word, and its character range is not
/// empty and lies within the codes of one byte; it is all preamble, header
/// and tables.
pub proof fn lemma_metric_lengths_agree(bytes: Seq<u8>)
    requires
        metric(bytes) is Ok,
    ensures
        4 * preamble_at(bytes, 0).lf == bytes.len(),
        preamble_at(bytes, 0).lf == preamble_at(bytes, 0).sum_of_lengths(),
        preamble_at(bytes, 0).bc <= preamble_at(bytes, 0).ec <= MAX_CHAR_CODE,
        PREAMBLE_LEN + header_len(preamble_at(bytes, 0).lh) + preamble_at(bytes, 0).tables_len()
            == bytes.len(),
{
    reveal(metric_from);
    reveal(body_at);
}

/// The metric of a buffer has the tables that the preamble declares, each of
/// the declared length, a record for each character code from `bc` to `ec`
/// and for no other, and the header fields that the header's length reaches.
pub proof fn lemma_metric_has_declared_shape(bytes: Seq<u8>)
    requires
        metric(bytes) is Ok,
    ensures
        ({
            let preamble = preamble_at(bytes, 0);
            let metric = metric(bytes)->Ok_0;
            &&& metric.width_table.len() == preamble.nw
            &&& metric.heigth_table.len() == preamble.nh
            &&& metric.depth_table.len() == preamble.nd
            &&& metric.italic_table.len() == preamble.ni
            &&& metric.lig_kern_table.len() == preamble.nl
            &&& metric.kern_table.len() == preamble.nk
            &&& metric.extension_table.len() == preamble.ne
            &&& metric.param_table.len() == preamble.np
            &&& forall|character: u8|
                metric.char_info_table.contains_key(character) <==> preamble.bc <= character
                    <= preamble.ec
            &&& forall|character: u8| #[trigger]
                metric.char_info_table.contains_key(character)
                    ==> metric.char_info_table[character].character == character
            &&& metric.header.encoding is Some <==> has_encoding(preamble.lh)
            &&& metric.header.font_identifier is Some <==> has_font_id(preamble.lh)
            &&& metric.header.face is Some <==> has_face(preamble.lh)
            &&& metric.header.misc.len() == misc_len(preamble.lh)
        }),
{
    reveal(metric_from);
    reveal(body_at);
    reveal(header_at);
}

/// A buffer whose length is not four times its first word is rejected with
/// the message that names both lengths.
pub proof fn lemma_wrong_length_is_rejected(bytes: Seq<u8>)
    requires
        bytes.len() >= 2,
        4 * preamble_at(bytes, 0).lf != bytes.len(),
    ensures
        metric(bytes) == Err::<MetricView, Failure>(
            Failure::TfmParse(
                length_mismatch_message(4 * preamble_at(bytes, 0).lf, bytes.len()),
            ),
        ),
{
    reveal(metric_from);
}

/// A buffer of the declared length whose first character lies above its
/// last is rejected with the message that names both.
pub proof fn lemma_empty_char_range_is_rejected(bytes: Seq<u8>)
    requires
        bytes.len() >= PREAMBLE_LEN,
        4 * preamble_at(bytes, 0).lf == bytes.len(),
        preamble_at(bytes, 0).bc > preamble_at(bytes, 0).ec,
    ensures
        metric(bytes) == Err::<MetricView, Failure>(
            Failure::TfmParse(
                char_range_message(preamble_at(bytes, 0).bc, preamble_at(bytes, 0).ec),
            ),
        ),
{
    reveal(metric_from);
}

/// A buffer of the declared length whose last character code is no code of
/// one byte is rejected with the message that names the range.
pub proof fn lemma_char_code_beyond_a_byte_is_rejected(bytes: Seq<u8>)
    requires
        bytes.len() >= PREAMBLE_LEN,
        4 * preamble_at(bytes, 0).lf == bytes.len(),
        preamble_at(bytes, 0).ec > MAX_CHAR_CODE,
    ensures
        metric(bytes) == Err::<MetricView, Failure>(
            Failure::TfmParse(
                char_range_message(preamble_at(bytes, 0).bc, preamble_at(bytes, 0).ec),
            ),
        ),
{
    reveal(metric_from);
}

/// Where the preamble passes its checks, the header and the tables reach the
/// end of the buffer: no byte is left behind them.
pub proof fn lemma_no_byte_is_left_unread(bytes: Seq<u8>)
    requires
        bytes.len() >= PREAMBLE_LEN,
        4 * preamble_at(bytes, 0).lf == bytes.len(),
        preamble_at(bytes, 0).bc <= preamble_at(bytes, 0).ec <= MAX_CHAR_CODE,
        preamble_at(bytes, 0).lf == preamble_at(bytes, 0).sum_of_lengths(),
    ensures
        PREAMBLE_LEN + header_len(preamble_at(bytes, 0).lh) + preamble_at(bytes, 0).tables_len()
            >= bytes.len(),
{
}

/// A buffer of the declared length whose parts do not add up to that length
/// is rejected with the message that names both sums.
pub proof fn lemma_wrong_sum_is_rejected(bytes: Seq<u8>)
    requires
        bytes.len() >= PREAMBLE_LEN,
        4 * preamble_at(bytes, 0).lf == bytes.len(),
        preamble_at(bytes, 0).bc <= preamble_at(bytes, 0).ec <= MAX_CHAR_CODE,
        preamble_at(bytes, 0).lf != preamble_at(bytes, 0).sum_of_lengths(),
    ensures
        metric(bytes) == Err::<MetricView, Failure>(
            Failure::TfmParse(
                sum_mismatch_message(
                    4 * preamble_at(bytes, 0).lf,
                    (4 * preamble_at(bytes, 0).sum_of_lengths()) as nat,
                ),
            ),
        ),
{
    reveal(metric_from);
}

/// A header whose encoding field declares more than 39 bytes is rejected.
pub proof fn lemma_long_encoding_is_rejected(bytes: Seq<u8>, at: int, header_size: nat)
    requires
        has_encoding(header_size),
        0 <= at,
        at + 8 < bytes.len(),
        bytes[at + 8] > ENCODING_FIELD_LEN,
    ensures
        header_at(bytes, at, header_size) == Err::<HeaderView, Failure>(
            Failure::TfmParse(encoding_too_long_message(bytes[at + 8] as nat)),
        ),
{
    reveal(header_at);
}

/// A header whose font identifier field declares more than 19 bytes is
/// rejected, where its encoding field is in order.
pub proof fn lemma_long_font_id_is_rejected(bytes: Seq<u8>, at: int, header_size: nat)
    requires
        has_font_id(header_size),
        0 <= at,
        at + 48 < bytes.len(),
        encoding_at(bytes, at + 8) is Ok,
        bytes[at + 48] >= FONT_ID_FIELD_LEN,
    ensures
        header_at(bytes, at, header_size) == Err::<HeaderView, Failure>(
            Failure::TfmParse(font_id_too_long_message(bytes[at + 48] as nat)),
        ),
{
    reveal(header_at);
}

/// Two bits always make a tag: every character record has one, and it goes
/// by the two low bits of the record's third byte.
pub proof fn lemma_char_info_tag(bytes: Seq<u8>, at: int, character: u8)
    ensures
        tag_of(bytes[at + 2] % 4, bytes[at + 3]) is Ok,
        char_info_at(bytes, at, character).tag == (if bytes[at + 2] % 4 == 0 {
            TfmCharInfoTag::NoTag
        } else if bytes[at + 2] % 4 == 1 {
            TfmCharInfoTag::Ligature(bytes[at + 3])
        } else if bytes[at + 2] % 4 == 2 {
            TfmCharInfoTag::List(bytes[at + 3])
        } else {
            TfmCharInfoTag::Extensible(bytes[at + 3])
        }),
{
}

} // verus!
