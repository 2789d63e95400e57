use minilisp::object::{
    object_address, object_decode_bool, object_decode_char, object_decode_integer, object_encode_bool,
    object_encode_char, object_encode_integer, object_error, object_false, object_nil, object_true,
};

#[test]
fn integers_round_trip() {
    for v in [0i64, 1, -1, 123456789, -987654321, 0x1fff_ffff_ffff_fffe, -0x1fff_ffff_ffff_ffff] {
        let w = object_encode_integer(v);
        assert_eq!(w & 3, 0);
        assert_eq!(object_decode_integer(w), v);
    }
    assert_eq!(object_encode_integer(1), 4);
}

#[test]
fn chars_round_trip() {
    assert_eq!(object_encode_char('a' as i32), 0x610f);
    assert_eq!(object_decode_char(object_encode_char('a' as i32)), b'a');
    assert_eq!(object_decode_char(object_encode_char(0x141)), 0x41);
}

#[test]
fn booleans_and_constants() {
    assert_eq!(object_encode_bool(true), 63);
    assert_eq!(object_encode_bool(false), 31);
    assert!(object_decode_bool(object_true()));
    assert!(!object_decode_bool(object_false()));
    assert_eq!(object_nil(), 0x2f);
    assert_eq!(object_error(), 0x3f);
}

#[test]
fn address_strips_tag_bits() {
    assert_eq!(object_address(0x1237), 0x1230);
    assert_eq!(object_address(0x10), 0x10);
}
