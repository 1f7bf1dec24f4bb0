use composer::hexcode::{decode_exact, encode_prefixed, from_hex_str, trim_start_0x};

#[test]
fn reads_bytes_behind_a_prefix() {
    assert_eq!(from_hex_str::<2>("0xab01"), Some([0xab, 0x01]));
}

#[test]
fn reads_bytes_without_a_prefix() {
    assert_eq!(from_hex_str::<3>("00ff10"), Some([0x00, 0xff, 0x10]));
}

#[test]
fn reads_digits_of_either_case() {
    assert_eq!(from_hex_str::<4>("0xDeadBEEF"), Some([0xde, 0xad, 0xbe, 0xef]));
}

#[test]
fn the_high_digit_comes_first() {
    assert_eq!(from_hex_str::<1>("1f"), Some([0x1f]));
    assert_eq!(from_hex_str::<1>("f1"), Some([0xf1]));
}

#[test]
fn strips_every_leading_prefix() {
    assert_eq!(from_hex_str::<1>("0x0x0xff"), Some([0xff]));
    assert_eq!(trim_start_0x(b"0x0x12"), b"12");
}

#[test]
fn keeps_a_prefix_that_is_not_in_front() {
    assert_eq!(trim_start_0x(b"120x"), b"120x");
    assert_eq!(from_hex_str::<2>("120x"), None);
}

#[test]
fn an_upper_case_prefix_is_no_prefix() {
    assert_eq!(trim_start_0x(b"0Xff"), b"0Xff");
    assert_eq!(from_hex_str::<1>("0Xff"), None);
}

#[test]
fn a_lone_zero_is_no_prefix() {
    assert_eq!(trim_start_0x(b"0"), b"0");
    assert_eq!(trim_start_0x(b""), b"");
    assert_eq!(trim_start_0x(b"0x"), b"");
}

#[test]
fn refuses_an_odd_number_of_digits() {
    assert_eq!(from_hex_str::<1>("abc"), None);
    assert_eq!(from_hex_str::<1>("a"), None);
}

#[test]
fn refuses_too_few_and_too_many_digits() {
    assert_eq!(from_hex_str::<2>("ab"), None);
    assert_eq!(from_hex_str::<2>("abcdef"), None);
    assert_eq!(from_hex_str::<2>(""), None);
    assert_eq!(from_hex_str::<0>(""), Some([]));
}

#[test]
fn refuses_what_is_no_hex_digit() {
    assert_eq!(from_hex_str::<1>("ag"), None);
    assert_eq!(from_hex_str::<1>("g0"), None);
    assert_eq!(from_hex_str::<1>(" 1"), None);
    assert_eq!(from_hex_str::<1>("/0"), None);
    assert_eq!(from_hex_str::<1>(":0"), None);
    assert_eq!(from_hex_str::<1>("@0"), None);
    assert_eq!(from_hex_str::<1>("G0"), None);
    assert_eq!(from_hex_str::<1>("`0"), None);
}

#[test]
fn refuses_letters_outside_ascii() {
    assert_eq!(from_hex_str::<1>("é"), None);
    assert_eq!(from_hex_str::<2>("éé"), None);
}

#[test]
fn decode_exact_takes_no_prefix() {
    assert_eq!(decode_exact::<1>(b"0xff"), None);
    assert_eq!(decode_exact::<2>(b"0a0B"), Some([0x0a, 0x0b]));
}

#[test]
fn writes_lower_case_digits_behind_the_prefix() {
    assert_eq!(encode_prefixed(&[0x00, 0xab, 0xff, 0x09]), "0x00abff09");
    assert_eq!(encode_prefixed(&[]), "0x");
}

#[test]
fn what_was_written_is_read_back() {
    let bytes: [u8; 5] = [0, 1, 0x7f, 0x80, 0xff];
    let text = encode_prefixed(&bytes);
    assert_eq!(from_hex_str::<5>(&text), Some(bytes));
}
