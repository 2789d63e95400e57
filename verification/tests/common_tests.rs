use minilisp::common::{calc_b_imm26, calc_bcond_imm19, BitmaskImmediate};

#[test]
fn bitmask_imm_encoding_test() {
    let tests: [u64; 9] = [
        1,
        2,
        3,
        4,
        0x5555555555555555,
        0xF0F0F0F0F0F0F0F0,
        0x0FF00FF00FF00FF0,
        0xFF,
        0xFFFFFFFFFFFFFFFE,
    ];
    for v in tests.iter().copied() {
        let result = BitmaskImmediate::try_from(v);
        match result {
            Some(b) => {
                println!(
                    "value=0x{:016x} -> n={} imms=0x{:x} immr=0x{:x} enc=0x{:08x}",
                    v,
                    b.n,
                    b.imms,
                    b.immr,
                    b.to_u32()
                );
            }
            None => {
                println!("value=0x{:016x} -> NOT encodable", v);
            }
        }
        assert!(result.is_some(), "Value 0x{:016x} is not encodable", v);
    }
}

#[test]
fn calc_bcond_imm19_test() {
    let (imm, imm19_bin) = calc_bcond_imm19(0x18, 0x88);
    assert_eq!(imm, 56);
    assert_eq!(imm19_bin, 0x38);
    let (imm, imm19_bin) = calc_bcond_imm19(0x2c, 0x08);
    assert_eq!(imm, -18);
    assert_eq!(imm19_bin, 0xfffee);
}

#[test]
fn calc_b_imm26_test() {
    let (imm, imm26_bin) = calc_b_imm26(0x70, 0x08);
    assert_eq!(imm, -26);
    assert_eq!(imm26_bin, 0x3ffffe6);
    let (imm, imm26_bin) = calc_b_imm26(0x74, 0x78);
    assert_eq!(imm, 1);
    assert_eq!(imm26_bin, 0x1);
}

#[test]
fn calc_bl_imm26_test() {
    let (_, imm26_bin) = calc_bcond_imm19(0x2c, 0);
    assert_eq!(imm26_bin, 0xfffea);
}
