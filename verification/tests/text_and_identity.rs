use minelts::auth::{offline_access_token, offline_uuid, uuid_hyphenated};
use minelts::digest::sha1_bytes;
use minelts::text::{
    chars_of, join_strings, parse_u32, replace_chars, split_chars, str_eq_ignore_ascii_case,
    trim_chars, u64_to_decimal, Separator,
};

fn s(v: &str) -> Vec<char> {
    v.chars().collect()
}

#[test]
fn parse_u32_follows_from_str() {
    assert_eq!(parse_u32("42"), Some(42));
    assert_eq!(parse_u32("+7"), Some(7));
    assert_eq!(parse_u32("0"), Some(0));
    assert_eq!(parse_u32("4294967295"), Some(u32::MAX));
    assert_eq!(parse_u32("4294967296"), None);
    assert_eq!(parse_u32(""), None);
    assert_eq!(parse_u32("+"), None);
    assert_eq!(parse_u32("-1"), None);
    assert_eq!(parse_u32("1a"), None);
    for t in ["12", "+3", "", "+", "-0", "99999999999", "007"] {
        assert_eq!(parse_u32(t), t.parse::<u32>().ok(), "{t}");
    }
}

#[test]
fn decimal_roundtrip_on_values() {
    for n in [0u64, 7, 10, 512, 2048, 4294967295] {
        let text = u64_to_decimal(n);
        assert_eq!(text, n.to_string());
        if n <= u32::MAX as u64 {
            assert_eq!(parse_u32(&text), Some(n as u32));
        }
    }
}

#[test]
fn split_keeps_empty_pieces() {
    let pieces = split_chars(&s("a::b:"), &Separator::Char(':'));
    let got: Vec<String> = pieces.iter().map(|p| p.iter().collect()).collect();
    assert_eq!(got, vec!["a", "", "b", ""]);
    let ws = split_chars(&s(" x  y"), &Separator::Whitespace);
    assert_eq!(ws.len(), 4);
}

#[test]
fn trim_removes_unicode_whitespace() {
    let t: String = trim_chars(&s("\u{3000} Alex\t\n")).iter().collect();
    assert_eq!(t, "Alex");
    let once: String = trim_chars(&s("  a b  ")).iter().collect();
    let twice: String = trim_chars(&s(&once)).iter().collect();
    assert_eq!(once, twice);
    assert_eq!(once, "  a b  ".trim());
}

#[test]
fn replace_scans_left_to_right() {
    let r: String = replace_chars(&s("aaa"), &s("aa"), &s("b")).iter().collect();
    assert_eq!(r, "aaa".replace("aa", "b"));
    let r2: String = replace_chars(&s("x${a}y${a}"), &s("${a}"), &s("1")).iter().collect();
    assert_eq!(r2, "x1y1");
    let r3: String = replace_chars(&s("plain"), &s("${a}"), &s("1")).iter().collect();
    assert_eq!(r3, "plain");
}

#[test]
fn join_and_case_insensitive_compare() {
    let v = vec!["a".to_string(), "b".to_string(), "c".to_string()];
    assert_eq!(join_strings(&v, ";"), "a;b;c");
    assert_eq!(join_strings(&Vec::new(), ";"), "");
    assert!(str_eq_ignore_ascii_case("A9993E", "a9993e"));
    assert!(!str_eq_ignore_ascii_case("a9993e", "a9993f"));
    assert!(!str_eq_ignore_ascii_case("abc", "abcd"));
    assert_eq!(chars_of("hé").len(), 2);
}

#[test]
fn sha1_of_known_inputs() {
    assert_eq!(sha1_bytes(b"abc"), "a9993e364706816aba3e25717850c26c9cd0d89d");
    assert_eq!(sha1_bytes(b""), "da39a3ee5e6b4b0d3255bfef95601890afd80709");
}

#[test]
fn offline_uuid_of_known_names() {
    let notch = offline_uuid("Notch");
    assert_eq!(uuid_hyphenated(&notch), "b50ad385-829d-3141-a216-7e7d7539ba7f");
    assert_eq!(uuid_hyphenated(&offline_uuid("Steve")), "5627dd98-e6be-3c21-b8a8-e92344183641");
    assert_eq!(uuid_hyphenated(&offline_uuid("Ñandú")), "e84d4d3b-134e-3567-b164-fe027678edc8");
    assert_eq!(offline_uuid("Notch"), notch);
    assert_eq!(offline_access_token(), "0");
}

#[test]
fn hyphenated_shape() {
    let text = uuid_hyphenated(&offline_uuid("Alex"));
    assert_eq!(text.len(), 36);
    for i in [8, 13, 18, 23] {
        assert_eq!(text.as_bytes()[i], b'-');
    }
    assert_eq!(text.as_bytes()[14], b'3');
    let zero = uuid_hyphenated(&[0u8; 16]);
    assert_eq!(zero, "00000000-0000-0000-0000-000000000000");
    let ff = uuid_hyphenated(&[0xffu8; 16]);
    assert_eq!(ff, "ffffffff-ffff-ffff-ffff-ffffffffffff");
}
