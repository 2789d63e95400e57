use minilisp::codegen::{ASMGenerator, CodeSink};
use minilisp::common::RegisterX;
use minilisp::image::{elf_object, macho_object};
use minilisp::listing::{code_bytes, format_listing};
use minilisp::text::push_hex_padded;

#[test]
fn code_bytes_are_little_endian() {
    assert_eq!(code_bytes(&[0xd65f03c0, 0x01020304]), vec![0xc0, 0x03, 0x5f, 0xd6, 0x04, 0x03, 0x02, 0x01]);
    assert_eq!(code_bytes(&[]), Vec::<u8>::new());
}

#[test]
fn hex_is_zero_padded() {
    let mut s = String::new();
    push_hex_padded(&mut s, 0x2c, 8);
    assert_eq!(s, "0000002c");
    let mut s = String::from("x");
    push_hex_padded(&mut s, 0x123456789a, 8);
    assert_eq!(s, "x123456789a");
    let mut s = String::new();
    push_hex_padded(&mut s, 0, 1);
    assert_eq!(s, "0");
}

#[test]
fn format_listing_writes_one_line_per_instruction() {
    let lines = vec![
        (0u64, Some("ret".to_string()), Some("".to_string())),
        (4u64, None, Some("x0".to_string())),
    ];
    assert_eq!(
        format_listing("T", &lines),
        "T\n============\n0x00000000:\tret\t\n0x00000004:\t\tx0\n"
    );
}

#[test]
fn generator_listing_disassembles_its_code() {
    let mut g = ASMGenerator::new();
    g.gen_ret_instruction(RegisterX::X30);
    assert_eq!(g.asm_listing().unwrap(), "Disassembly:\n============\n0x00000000:\tret\t\n");
}

#[test]
fn elf_object_wraps_the_code() {
    let bytes = elf_object(&[0xd65f03c0]).unwrap();
    assert_eq!(&bytes[0..4], b"\x7fELF");
    assert!(bytes.len() > 64);
    assert!(bytes.windows(4).any(|w| w == [0xc0, 0x03, 0x5f, 0xd6]));
    assert!(bytes.windows(7).any(|w| w == b"_start\0"));
}

#[test]
fn macho_object_wraps_the_code() {
    let bytes = macho_object(&[0xd65f03c0]).unwrap();
    assert_eq!(&bytes[0..4], &[0xcf, 0xfa, 0xed, 0xfe]);
    assert!(bytes.windows(4).any(|w| w == [0xc0, 0x03, 0x5f, 0xd6]));
}
