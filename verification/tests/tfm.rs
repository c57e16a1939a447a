use dvious::errors::DviousError;
use dvious::fonts::tfm::{
    TfmCharInfo, TfmCharInfoTag, TfmExtensionRecipe, TfmLigatureCommand, TfmMetricHeader,
    TfmMetricReader,
};
use dvious::util::num::Fixword;

/// The real number that a fixword stands for.
fn to_f64(fixword: Fixword) -> f64 {
    f64::from(fixword.0) * 2.0_f64.powi(-20)
}

/// The fixword that stands for a real number.
fn fixword(value: f64) -> Fixword {
    Fixword((value * 2.0_f64.powi(20)) as i32)
}

// Sanity checks

#[test]
fn test_read_preamble_invalid_character_code_range() {
    let data = vec![
        0x00, 0x08,
        0x00, 0x00,
        0x00, 0x0E,
        0x00, 0x0D,
        0x00, 0x00,
        0x00, 0x00,
        0x00, 0x00,
        0x00, 0x00,
        0x00, 0x00,
        0x00, 0x00,
        0x00, 0x00,
        0x00, 0x00,
        0x00, 0x00,
        0x00, 0x00,
        0x00, 0x00,
        0x00, 0x00,
    ];
    let mut tfm_reader = TfmMetricReader::new(data);

    if let DviousError::TfmParseError(error_message) = tfm_reader.read().err().unwrap() {
        assert_eq!(error_message, "The character code range [14]..[13] is illegal!");
    } else {
        panic!("Expected TfmParseError")
    }
}

// Header

#[test]
fn test_read_header() {
    let data = vec![
        0xAA, 0xBB, 0xCC, 0xDD,

        0x00, 0xA0, 0x00, 0x00,

        0x04, 0x54, 0x65, 0x73, 0x74, 0x00, 0x00, 0x00,
        0x00, 0x00, 0x00, 0x00, 0x00, 0x00, 0x00, 0x00,
        0x00, 0x00, 0x00, 0x00, 0x00, 0x00, 0x00, 0x00,
        0x00, 0x00, 0x00, 0x00, 0x00, 0x00, 0x00, 0x00,
        0x00, 0x00, 0x00, 0x00, 0x00, 0x00, 0x00, 0x00,

        0x09, 0x48, 0x45, 0x4c, 0x56, 0x45, 0x54, 0x49,
        0x43, 0x41, 0x00, 0x00, 0x00, 0x00, 0x00, 0x00,
        0x00, 0x00, 0x00, 0x00,

        0x00, 0x00, 0x00, 0x12,

        0xAA, 0xBB, 0xCC, 0xDD
    ];
    let number_of_bytes = data.len() as u16;
    let mut tfm_reader = TfmMetricReader::new(data);

    let header = tfm_reader.read_header(number_of_bytes / 4).unwrap();

    assert_eq!(
        header,
        TfmMetricHeader {
            checksum: 0xAABBCCDD,
            design_size: fixword(10.0),
            encoding: Some("Test".to_string()),
            font_identifier: Some("HELVETICA".to_string()),
            face: Option::Some(0x12),
            misc: vec![0xAA, 0xBB, 0xCC, 0xDD]
        }
    );
}

// Char info

#[test]
fn test_read_charinfo() {
    let data = vec![0x42, 0xAB, 0b101010_10, 0xCD, 0x23, 0xCD, 0b010101_01, 0xEF];
    let mut tfm_reader = TfmMetricReader::new(data);

    let char_info_table = tfm_reader.read_char_info_table(0x60, 0x61).unwrap();

    assert_eq!(
        char_info_table.len(),
        2,
        "Expected only 2 char info entries!"
    );
    assert_eq!(
        char_info_table[&0x60],
        TfmCharInfo {
            character: 0x60,
            width_index: 0x42,
            height_index: 0xA * 16,
            depth_index: 0xB,
            italic_index: 42 * 4,
            tag: TfmCharInfoTag::List(0xCD),
        }
    );
    assert_eq!(
        char_info_table[&0x61],
        TfmCharInfo {
            character: 0x61,
            width_index: 0x23,
            height_index: 0xC * 16,
            depth_index: 0xD,
            italic_index: 21 * 4,
            tag: TfmCharInfoTag::Ligature(0xEF),
        }
    );
}

#[test]
fn test_read_charinfo_tag_none() {
    let data = vec![];
    let tfm_reader = TfmMetricReader::new(data);

    let tag = tfm_reader.read_char_info_table_tag(0, 0x42).unwrap();

    assert_eq!(tag, TfmCharInfoTag::NoTag);
}

#[test]
fn test_read_charinfo_tag_ligature() {
    let data = vec![];
    let tfm_reader = TfmMetricReader::new(data);

    let tag = tfm_reader.read_char_info_table_tag(1, 0x42).unwrap();

    assert_eq!(tag, TfmCharInfoTag::Ligature(0x42));
}

#[test]
fn test_read_charinfo_tag_list() {
    let data = vec![];
    let tfm_reader = TfmMetricReader::new(data);

    let tag = tfm_reader.read_char_info_table_tag(2, 0x42).unwrap();

    assert_eq!(tag, TfmCharInfoTag::List(0x42));
}

#[test]
fn test_read_charinfo_tag_extensible() {
    let data = vec![];
    let tfm_reader = TfmMetricReader::new(data);

    let tag = tfm_reader.read_char_info_table_tag(3, 0x42).unwrap();

    assert_eq!(tag, TfmCharInfoTag::Extensible(0x42));
}

// Ligature/Kern table

#[test]
fn test_read_lig_kern_table() {
    let data = vec![0xDE, 0xAD, 0xBE, 0xEF, 0xCA, 0xFE, 0xBA, 0xBE];
    let mut tfm_reader = TfmMetricReader::new(data);

    let lig_kern_table = tfm_reader.read_lig_kern_table(2).unwrap();

    assert_eq!(
        lig_kern_table,
        vec![
            TfmLigatureCommand {
                skip_byte: 0xDE,
                next_char: 0xAD,
                op_byte: 0xBE,
                remainder: 0xEF,
            },
            TfmLigatureCommand {
                skip_byte: 0xCA,
                next_char: 0xFE,
                op_byte: 0xBA,
                remainder: 0xBE,
            },
        ]
    );
}

// Extension table

#[test]
fn test_read_extension_table() {
    let data = vec![0xDE, 0xAD, 0xBE, 0xEF, 0xCA, 0xFE, 0xBA, 0xBE];
    let mut tfm_reader = TfmMetricReader::new(data);

    let extension_table = tfm_reader.read_extension_table(2).unwrap();

    assert_eq!(
        extension_table,
        vec![
            TfmExtensionRecipe {
                top: 0xDE,
                mid: 0xAD,
                bot: 0xBE,
                rep: 0xEF,
            },
            TfmExtensionRecipe {
                top: 0xCA,
                mid: 0xFE,
                bot: 0xBA,
                rep: 0xBE,
            },
        ]
    );
}

// Fixword

#[test]
fn test_read_fixword_min() {
    let mut tfm_reader = TfmMetricReader::new(vec![0x80, 0x00, 0x00, 0x00]);

    let fixword = tfm_reader.read_fixword().unwrap();

    assert_eq!(to_f64(fixword), -2048.0);
}

#[test]
fn test_read_fixword_max() {
    let mut tfm_reader = TfmMetricReader::new(vec![0x7F, 0xFF, 0xFF, 0xFF]);

    let fixword = tfm_reader.read_fixword().unwrap();

    assert_eq!(to_f64(fixword), 2048.0 - 2.0_f64.powi(-20));
}

#[test]
fn test_read_fixword_table() {
    let data = vec![
        0x80, 0x00, 0x00, 0x00,
        0x00, 0x00, 0x00, 0x00,
        0x00, 0x0A, 0xBC, 0x00,
    ];
    let mut tfm_reader = TfmMetricReader::new(data);

    let fixword_table = tfm_reader.read_fixword_table(3).unwrap();

    let values: Vec<f64> = fixword_table.into_iter().map(to_f64).collect();
    assert_eq!(values, vec![-2048.0, 0.0, 0.6708984375]);
}

// Read string

#[test]
fn test_read_string() {
    let mut tfm_reader = TfmMetricReader::new(vec![0x54, 0x65, 0x73, 0x74]);

    let result = tfm_reader.read_utf8_string(4).unwrap();

    assert_eq!(result, "Test".to_string());
}
