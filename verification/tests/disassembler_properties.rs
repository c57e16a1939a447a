use dvious::dvi::disassembler::disassemble;
use dvious::dvi::opcodes::OpCode;
use dvious::errors::DviousError;

fn bop(page: i32, previous: i32) -> Vec<u8> {
    let mut bytes = vec![139];
    bytes.extend_from_slice(&page.to_be_bytes());
    for _ in 0..9 {
        bytes.extend_from_slice(&0_i32.to_be_bytes());
    }
    bytes.extend_from_slice(&previous.to_be_bytes());
    bytes
}

fn post(pointer: i32) -> Vec<u8> {
    let mut bytes = vec![248];
    bytes.extend_from_slice(&pointer.to_be_bytes());
    bytes.extend_from_slice(&25_400_000_u32.to_be_bytes());
    bytes.extend_from_slice(&473_628_672_u32.to_be_bytes());
    bytes.extend_from_slice(&1000_u32.to_be_bytes());
    bytes.extend_from_slice(&43_725_786_u32.to_be_bytes());
    bytes.extend_from_slice(&30_785_863_u32.to_be_bytes());
    bytes.extend_from_slice(&3_u16.to_be_bytes());
    bytes.extend_from_slice(&2_u16.to_be_bytes());
    bytes
}

fn post_post(pointer: i32, padding: usize) -> Vec<u8> {
    let mut bytes = vec![249];
    bytes.extend_from_slice(&pointer.to_be_bytes());
    bytes.push(2);
    bytes.extend(std::iter::repeat(0xDF).take(padding));
    bytes
}

#[test]
fn empty_buffer_has_no_instructions() {
    assert_eq!(disassemble(vec![]).unwrap(), vec![]);
}

#[test]
fn right1_extends_the_sign() {
    assert_eq!(
        disassemble(vec![143, 0xD6]).unwrap(),
        vec![OpCode::Right { b: -42 }]
    );
}

#[test]
fn three_byte_displacements_extend_the_sign() {
    assert_eq!(
        disassemble(vec![145, 0xFF, 0xFF, 0xFE]).unwrap(),
        vec![OpCode::Right { b: -2 }]
    );
    assert_eq!(
        disassemble(vec![159, 0x80, 0x00, 0x00]).unwrap(),
        vec![OpCode::Down { a: -8_388_608 }]
    );
    assert_eq!(
        disassemble(vec![150, 0x7F, 0xFF, 0xFF]).unwrap(),
        vec![OpCode::W { b: 8_388_607 }]
    );
}

#[test]
fn narrow_character_codes_are_not_sign_extended() {
    assert_eq!(
        disassemble(vec![128, 0xFF]).unwrap(),
        vec![OpCode::SetChar { c: 255 }]
    );
    assert_eq!(
        disassemble(vec![134, 0xFF, 0xFF]).unwrap(),
        vec![OpCode::Put { c: 65_535 }]
    );
    assert_eq!(
        disassemble(vec![237, 0xFF, 0xFF, 0xFF]).unwrap(),
        vec![OpCode::Fnt { k: 16_777_215 }]
    );
}

#[test]
fn four_byte_operands_are_signed() {
    assert_eq!(
        disassemble(vec![131, 0xFF, 0xFF, 0xFF, 0xFF]).unwrap(),
        vec![OpCode::SetChar { c: -1 }]
    );
    assert_eq!(
        disassemble(vec![136, 0x80, 0x00, 0x00, 0x00]).unwrap(),
        vec![OpCode::Put { c: i32::MIN }]
    );
    assert_eq!(
        disassemble(vec![238, 0xFF, 0xFF, 0xFF, 0xFE]).unwrap(),
        vec![OpCode::Fnt { k: -2 }]
    );
    assert_eq!(
        disassemble(vec![146, 0xFF, 0xFF, 0xEF, 0x98]).unwrap(),
        vec![OpCode::Right { b: -4200 }]
    );
}

#[test]
fn rules_read_two_signed_words() {
    assert_eq!(
        disassemble(vec![132, 0xFF, 0xFF, 0xFF, 0xFF, 0x00, 0x00, 0x00, 0x07]).unwrap(),
        vec![OpCode::SetRule { a: -1, b: 7 }]
    );
    assert_eq!(
        disassemble(vec![137, 0x00, 0x00, 0x00, 0x07, 0xFF, 0xFF, 0xFF, 0xFE]).unwrap(),
        vec![OpCode::PutRule { a: 7, b: -2 }]
    );
}

#[test]
fn first_font_number_opcode_selects_font_171() {
    assert_eq!(
        disassemble(vec![171]).unwrap(),
        vec![OpCode::Fnt { k: 171 }]
    );
    assert_eq!(
        disassemble(vec![234]).unwrap(),
        vec![OpCode::Fnt { k: 234 }]
    );
}

#[test]
fn every_byte_above_249_is_an_unknown_opcode() {
    for byte in 250..=255_u8 {
        match disassemble(vec![byte]) {
            Err(DviousError::UnknownOpcodeError(found)) => assert_eq!(found, byte),
            other => panic!("expected an unknown opcode, got {:?}", other),
        }
    }
}

#[test]
fn unknown_opcode_behind_good_instructions_fails_the_decode() {
    match disassemble(vec![65, 138, 252, 66]) {
        Err(DviousError::UnknownOpcodeError(found)) => assert_eq!(found, 252),
        other => panic!("expected an unknown opcode, got {:?}", other),
    }
}

#[test]
fn truncated_operands_are_out_of_bounds() {
    let truncated: Vec<Vec<u8>> = vec![
        vec![128],
        vec![129, 0x01],
        vec![130, 0x01, 0x02],
        vec![131, 0x01, 0x02, 0x03],
        vec![132, 0, 0, 0, 1, 0, 0, 0],
        vec![139, 0, 0, 0, 1],
        vec![143],
        vec![151, 0, 0, 0],
        vec![239],
        vec![239, 3, 1, 2],
        vec![242, 0, 0, 0],
        vec![243, 1, 0, 0, 0, 0, 0, 0, 0, 0, 0, 0, 0, 0, 1],
        vec![243, 1, 0, 0, 0, 0, 0, 0, 0, 0, 0, 0, 0, 0, 1, 1, 65],
        vec![247, 2, 0, 0, 0, 1],
        vec![247, 2, 0, 0, 0, 1, 0, 0, 0, 1, 0, 0, 0, 1, 2, 65],
        vec![248, 0, 0, 0, 0],
        vec![249, 0, 0, 0, 0],
        vec![65, 66, 128],
    ];
    for bytes in truncated {
        let shown = format!("{:?}", bytes);
        assert!(
            matches!(disassemble(bytes), Err(DviousError::IndexOutOfBoundsError)),
            "expected out of bounds for {}",
            shown
        );
    }
}

#[test]
fn extension_of_huge_declared_length_is_out_of_bounds() {
    assert!(matches!(
        disassemble(vec![242, 0xFF, 0xFF, 0xFF, 0xFF, 1, 2, 3]),
        Err(DviousError::IndexOutOfBoundsError)
    ));
}

#[test]
fn empty_extension_has_no_payload() {
    assert_eq!(
        disassemble(vec![239, 0]).unwrap(),
        vec![OpCode::Xxx { k: 0, x: vec![] }]
    );
}

#[test]
fn extension_length_of_three_bytes_is_unsigned() {
    let mut bytes = vec![241, 0x00, 0x01, 0x00];
    bytes.extend(std::iter::repeat(7).take(256));

    assert_eq!(
        disassemble(bytes).unwrap(),
        vec![OpCode::Xxx {
            k: 256,
            x: vec![7; 256]
        }]
    );
}

#[test]
fn font_name_may_be_longer_than_one_length_byte_says() {
    let mut bytes = vec![243, 9];
    bytes.extend_from_slice(&1_u32.to_be_bytes());
    bytes.extend_from_slice(&2_u32.to_be_bytes());
    bytes.extend_from_slice(&3_u32.to_be_bytes());
    bytes.push(200);
    bytes.push(100);
    bytes.extend(std::iter::repeat(b'a').take(300));
    bytes.push(138);

    assert_eq!(
        disassemble(bytes).unwrap(),
        vec![
            OpCode::FntDef {
                k: 9,
                c: 1,
                s: 2,
                d: 3,
                a: 200,
                l: 100,
                n: vec![b'a'; 300]
            },
            OpCode::Nop
        ]
    );
}

#[test]
fn instructions_come_out_in_file_order() {
    let mut bytes = vec![247, 2];
    bytes.extend_from_slice(&25_400_000_u32.to_be_bytes());
    bytes.extend_from_slice(&473_628_672_u32.to_be_bytes());
    bytes.extend_from_slice(&1000_u32.to_be_bytes());
    bytes.push(3);
    bytes.extend_from_slice(b"TeX");
    bytes.extend(bop(1, -1));
    bytes.extend_from_slice(&[141, 65, 148, 0xD6, 66, 142, 140]);

    let opcodes = disassemble(bytes).unwrap();

    assert_eq!(
        opcodes,
        vec![
            OpCode::Pre {
                i: 2,
                num: 25_400_000,
                den: 473_628_672,
                mag: 1000,
                k: 3,
                x: b"TeX".to_vec()
            },
            OpCode::Bop {
                c0: 1,
                c1: 0,
                c2: 0,
                c3: 0,
                c4: 0,
                c5: 0,
                c6: 0,
                c7: 0,
                c8: 0,
                c9: 0,
                p: -1
            },
            OpCode::Push,
            OpCode::SetChar { c: 65 },
            OpCode::W { b: -42 },
            OpCode::SetChar { c: 66 },
            OpCode::Pop,
            OpCode::Eop,
        ]
    );
}

#[test]
fn post_names_the_instruction_index_of_the_last_bop() {
    let mut bytes = vec![138];
    bytes.extend(bop(1, -1));
    bytes.extend_from_slice(&[65, 140]);
    bytes.extend(bop(2, 1));
    bytes.extend_from_slice(&[66, 140]);
    bytes.extend(post(46));
    bytes.extend(post_post(92, 4));

    let opcodes = disassemble(bytes).unwrap();

    assert_eq!(opcodes.len(), 9);
    assert!(matches!(opcodes[1], OpCode::Bop { c0: 1, p: -1, .. }));
    assert!(matches!(opcodes[4], OpCode::Bop { c0: 2, p: 1, .. }));
    assert_eq!(
        opcodes[7],
        OpCode::Post {
            p: Some(4),
            num: 25_400_000,
            den: 473_628_672,
            mag: 1000,
            l: 43_725_786,
            u: 30_785_863,
            s: 3,
            t: 2
        }
    );
    assert_eq!(opcodes[8], OpCode::PostPost { q: Some(7), i: 2 });
}

#[test]
fn post_before_any_bop_names_none() {
    let mut bytes = post(0);
    bytes.extend(bop(1, -1));
    bytes.extend(post(0));

    let opcodes = disassemble(bytes).unwrap();

    assert!(matches!(opcodes[0], OpCode::Post { p: None, .. }));
    assert!(matches!(opcodes[2], OpCode::Post { p: Some(1), .. }));
}

#[test]
fn post_post_names_the_last_post() {
    let mut bytes = post(0);
    bytes.extend(post(0));
    bytes.extend(post_post(0, 0));

    let opcodes = disassemble(bytes).unwrap();

    assert_eq!(opcodes[2], OpCode::PostPost { q: Some(1), i: 2 });
}

#[test]
fn post_post_takes_in_all_padding() {
    for padding in [0, 1, 4, 7, 100] {
        assert_eq!(
            disassemble(post_post(7, padding)).unwrap(),
            vec![OpCode::PostPost { q: None, i: 2 }]
        );
    }
}

#[test]
fn what_follows_the_padding_is_decoded() {
    let mut bytes = post_post(7, 3);
    bytes.extend_from_slice(&[138, 0xDF]);

    assert_eq!(
        disassemble(bytes).unwrap(),
        vec![
            OpCode::PostPost { q: None, i: 2 },
            OpCode::Nop,
            OpCode::Fnt { k: 223 }
        ]
    );
}

#[test]
fn padding_byte_elsewhere_selects_font_223() {
    assert_eq!(
        disassemble(vec![0xDF, 0xDF]).unwrap(),
        vec![OpCode::Fnt { k: 223 }, OpCode::Fnt { k: 223 }]
    );
}
