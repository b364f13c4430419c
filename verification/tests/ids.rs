use deeprecall::ids::{push_hex, uuid_text};
use deeprecall::oauth::{upper_hex_char, url_encode};
use deeprecall::params::{json_to_param, SqlParam};
use deeprecall::json::Json;

fn samples() -> Vec<u128> {
    let mut values = vec![0u128, 1, 15, 16, 255, u128::MAX, u128::MAX - 1, 1 << 127, 1 << 64];
    let mut x: u128 = 0x9e3779b97f4a7c15f39cc0605cedc834;
    for _ in 0..2000 {
        x = x.wrapping_mul(0xda942042e4dd58b5).wrapping_add(0x2545f4914f6cdd1d) ^ (x >> 61);
        values.push(x);
    }
    for shift in 0..128 {
        values.push(1u128 << shift);
        values.push(u128::MAX >> shift);
        values.push(0xfedcba9876543210_0123456789abcdef_u128.rotate_left(shift));
    }
    values
}

#[test]
fn identifiers_are_spelled_as_the_uuid_crate_spells_them() {
    for value in samples() {
        assert_eq!(uuid_text(value), uuid::Uuid::from_u128(value).to_string(), "{:x}", value);
    }
    assert_eq!(uuid_text(0x550e8400_e29b_41d4_a716_446655440000), "550e8400-e29b-41d4-a716-446655440000");
}

#[test]
fn spelled_identifiers_parse_back() {
    for value in samples().into_iter().take(200) {
        let text = Json::String(uuid_text(value));
        assert_eq!(json_to_param("t", "id", &text), SqlParam::Uuid(value));
    }
}

#[test]
fn hexadecimal_digits_are_the_lowest_of_the_value() {
    let hex = |value: u128, digits: u8| -> String {
        let mut out = Vec::new();
        push_hex(&mut out, value, digits);
        out.into_iter().collect()
    };
    assert_eq!(hex(0xabc, 0), "");
    assert_eq!(hex(0xabc, 1), "c");
    assert_eq!(hex(0xabc, 2), "bc");
    assert_eq!(hex(0xabc, 5), "00abc");
    assert_eq!(hex(u128::MAX, 32), "f".repeat(32));
    assert_eq!(hex(1, 40), format!("{:040x}", 1));
}

#[test]
fn texts_are_percent_encoded_as_the_urlencoding_crate_encodes_them() {
    for code in 0..=0x10ffffu32 {
        if let Some(c) = char::from_u32(code) {
            let text = c.to_string();
            assert_eq!(url_encode(&text), urlencoding::encode(&text).into_owned(), "{:x}", code);
        }
    }
    for text in ["", "abc", "a b&c=d/e?f", "http://localhost:3001/auth/callback", "ä€𝄞~._-", "%41"] {
        assert_eq!(url_encode(text), urlencoding::encode(text).into_owned());
    }
    assert_eq!(url_encode("a b"), "a%20b");
    assert_eq!(url_encode("é"), "%C3%A9");
    assert_eq!(upper_hex_char(0), '0');
    assert_eq!(upper_hex_char(9), '9');
    assert_eq!(upper_hex_char(10), 'A');
    assert_eq!(upper_hex_char(15), 'F');
}
