use macroquad_fun::hex_color::{hex_color, hex_color_to_opt_u8_slice, hex_duo_to_u8, hex_to_u8};

#[test]
fn test_short_strings_return_none() {
    assert_eq!(hex_color_to_opt_u8_slice(""), None);
    assert_eq!(hex_color_to_opt_u8_slice("#"), None);
    assert_eq!(hex_color_to_opt_u8_slice("#abcde"), None);
}

#[test]
fn test_invalid_hex_codes_returns_none() {
    assert_eq!(hex_color_to_opt_u8_slice("zzzzzz"), None);
    assert_eq!(hex_color_to_opt_u8_slice("zz0000"), None);
    assert_eq!(hex_color_to_opt_u8_slice("00zz00"), None);
    assert_eq!(hex_color_to_opt_u8_slice("0000zz"), None);
}

#[test]
fn test_without_hash_works() {
    assert_eq!(hex_color_to_opt_u8_slice("000000"), Some([0, 0, 0]));
    assert_eq!(hex_color_to_opt_u8_slice("ff1831"), Some([255, 24, 49]));
    assert_eq!(hex_color_to_opt_u8_slice("ffffff"), Some([255, 255, 255]));
}

#[test]
fn test_with_hash_works() {
    assert_eq!(hex_color_to_opt_u8_slice("#000000"), Some([0, 0, 0]));
    assert_eq!(hex_color_to_opt_u8_slice("#ff1831"), Some([255, 24, 49]));
    assert_eq!(hex_color_to_opt_u8_slice("#ffffff"), Some([255, 255, 255]));
}

#[test]
fn test_hex_color_works() {
    let black_from_hex = hex_color("#000000");
    assert_eq!(black_from_hex.rgb(), [0, 0, 0]);
    assert_eq!(black_from_hex, hex_color("000000"));
}

#[test]
fn hex_digits_of_both_cases() {
    assert_eq!(hex_to_u8('0'), Some(0));
    assert_eq!(hex_to_u8('9'), Some(9));
    assert_eq!(hex_to_u8('a'), Some(10));
    assert_eq!(hex_to_u8('F'), Some(15));
    assert_eq!(hex_to_u8('g'), None);
    assert_eq!(hex_to_u8('#'), None);
}

#[test]
fn hex_pairs() {
    assert_eq!(hex_duo_to_u8('f', 'f'), Some(255));
    assert_eq!(hex_duo_to_u8('1', '8'), Some(24));
    assert_eq!(hex_duo_to_u8('A', 'b'), Some(171));
    assert_eq!(hex_duo_to_u8('x', '0'), None);
    assert_eq!(hex_duo_to_u8('0', 'x'), None);
}

#[test]
fn trailing_text_and_mixed_case_are_accepted() {
    assert_eq!(hex_color_to_opt_u8_slice("#AbCdEf99"), Some([171, 205, 239]));
    assert_eq!(hex_color_to_opt_u8_slice("##00000"), None);
    assert_eq!(hex_color_to_opt_u8_slice("é00000"), None);
    assert_eq!(hex_color("#102030").rgb(), [16, 32, 48]);
}
