use fuse_mutation::variant::is_text_ok;
use fuse_mutation::variant::is_transcodable;
use fuse_mutation::variant::is_well_formed;
use fuse_mutation::variant::to_comparable;

fn encode(text: &[u8]) -> Vec<u8> {
    jsonb::parse_value(text).unwrap().to_vec()
}

#[test]
fn values_of_the_encoder_are_well_formed() {
    let texts: Vec<&[u8]> = vec![
        b"null",
        b"true",
        b"false",
        b"0",
        b"-1",
        b"255",
        b"65536",
        b"4294967296",
        b"18446744073709551615",
        b"-9223372036854775808",
        b"1.5",
        b"\"\"",
        b"\"text\"",
        b"[]",
        b"{}",
        b"[1,\"a\",null,[2,[3]],{\"k\":[true]}]",
        b"{\"a\":{\"b\":{\"c\":[1,2,3]}},\"d\":\"e\",\"f\":null}",
    ];
    for text in texts {
        assert!(is_well_formed(&encode(text)));
    }
}

#[test]
fn the_comparable_form_is_that_of_the_transcoder() {
    assert_eq!(to_comparable(&encode(b"true")), Some(vec![0, 2]));
    assert_eq!(to_comparable(&encode(b"false")), Some(vec![0, 1]));
    assert_eq!(to_comparable(&encode(b"null")), Some(vec![0, 7]));
    assert_eq!(to_comparable(&encode(b"\"ab\"")), Some(vec![0, 4, b'a', b'b']));
    assert_eq!(
        to_comparable(&encode(b"1")),
        Some(vec![0, 3, 0xBF, 0xF0, 0, 0, 0, 0, 0, 0])
    );
    assert_eq!(to_comparable(&encode(b"[true]")), Some(vec![0, 6, 1, 2]));
    assert_eq!(
        to_comparable(&encode(b"{\"k\":false}")),
        Some(vec![0, 5, 1, 4, b'k', 1, 1])
    );
    for text in [&b"[1,\"a\",null,[2,[3]],{\"k\":[true]}]"[..], b"{\"a\":{\"b\":2}}"] {
        let raw = encode(text);
        let mut expected = Vec::new();
        jsonb::convert_to_comparable(&raw, &mut expected);
        assert_eq!(to_comparable(&raw), Some(expected));
    }
}

#[test]
fn a_hand_made_value_is_read_as_the_layout_says() {
    // A single scalar: header, one entry, no data.
    let truth = vec![0x20, 0, 0, 0, 0x40, 0, 0, 0];
    assert_eq!(truth, encode(b"true"));
    assert!(is_well_formed(&truth));
    // An array of two: header, two entries, the data of the string.
    let array = vec![0x80, 0, 0, 2, 0x30, 0, 0, 0, 0x10, 0, 0, 1, b'z'];
    assert_eq!(array, encode(b"[false,\"z\"]"));
    assert!(is_well_formed(&array));
    assert_eq!(to_comparable(&array), Some(vec![0, 6, 1, 1, 1, 4, b'z']));
}

#[test]
fn values_that_end_early_are_not_well_formed() {
    let texts: Vec<&[u8]> = vec![
        b"\"text\"",
        b"12345",
        b"[1,\"a\",null,[2,[3]],{\"k\":[true]}]",
        b"{\"a\":{\"b\":{\"c\":[1,2,3]}},\"d\":\"e\"}",
    ];
    for text in texts {
        let raw = encode(text);
        for len in 1..raw.len() {
            let cut = &raw[..len];
            assert!(!is_well_formed(cut));
            assert!(!is_transcodable(cut));
            assert_eq!(to_comparable(cut), None);
        }
    }
}

#[test]
fn values_in_another_form_are_not_well_formed() {
    assert!(!is_well_formed(b""));
    assert!(!is_well_formed(b"true"));
    assert!(!is_well_formed(b"{\"a\":1}"));
    assert!(!is_well_formed(&[0x21, 0, 0, 0, 0x40, 0, 0, 0]));
    // Three entries are announced and one is there.
    assert!(!is_well_formed(&[0x80, 0, 0, 3, 0x30, 0, 0, 0]));
    // A string longer than what is left.
    assert!(!is_well_formed(&[0x20, 0, 0, 0, 0x10, 0, 0, 2, b'a']));
    // A number without a tag, and one with a tag that asks for more.
    assert!(!is_well_formed(&[0x20, 0, 0, 0, 0x20, 0, 0, 0]));
    assert!(!is_well_formed(&[0x20, 0, 0, 0, 0x20, 0, 0, 2, 0x60, 1]));
    assert!(!is_well_formed(&[0x20, 0, 0, 0, 0x20, 0, 0, 4, 0x40, 1, 2, 3]));
    assert!(!is_well_formed(&[0x20, 0, 0, 0, 0x20, 0, 0, 1, 0x70]));
    // An object whose keys reach beyond the end.
    assert!(!is_well_formed(&[0x40, 0, 0, 1, 0x10, 0, 0, 9, 0x30, 0, 0, 0, b'k']));
}

#[test]
fn nesting_is_counted_up_to_the_limit() {
    // `depth` arrays, one inside the other, around `true`.
    fn nested(depth: usize) -> Vec<u8> {
        let mut text = Vec::new();
        text.extend(std::iter::repeat(b'[').take(depth));
        text.extend_from_slice(b"true");
        text.extend(std::iter::repeat(b']').take(depth));
        encode(&text)
    }
    assert!(is_well_formed(&nested(1)));
    assert!(is_well_formed(&nested(100)));
    assert!(is_well_formed(&nested(255)));
    assert!(!is_well_formed(&nested(256)));
    assert!(!is_well_formed(&nested(300)));
    let deep = nested(255);
    let mut expected = Vec::new();
    jsonb::convert_to_comparable(&deep, &mut expected);
    assert_eq!(to_comparable(&deep), Some(expected));
}

/// Every value that passes for well formed is transcoded, whatever bytes
/// it is made of.
fn check_all(values: &[Vec<u8>]) -> usize {
    let mut passed = 0;
    for value in values {
        assert_eq!(
            is_transcodable(value),
            if matches!(value.first(), Some(0x80) | Some(0x40) | Some(0x20)) {
                is_well_formed(value)
            } else {
                is_text_ok(value)
            }
        );
        if is_transcodable(value) {
            let mut expected = Vec::new();
            jsonb::convert_to_comparable(value, &mut expected);
            assert_eq!(to_comparable(value), Some(expected));
            passed += 1;
        } else {
            assert_eq!(to_comparable(value), None);
        }
    }
    passed
}

#[test]
fn values_with_one_byte_changed_are_transcoded_where_they_pass() {
    let bytes = [0x00, 0x01, 0x02, 0x04, 0x08, 0x09, 0x10, 0x20, 0x30, 0x40, 0x50, 0x60, 0x70, 0x7f, 0x80, 0x90, 0xff];
    let texts: Vec<&[u8]> = vec![
        b"true",
        b"\"text\"",
        b"12345",
        b"-1.5",
        b"[]",
        b"{}",
        b"[1,\"a\",null,[2,[3]],{\"k\":[true]}]",
        b"{\"a\":{\"b\":{\"c\":[1,2,3]}},\"d\":\"e\",\"f\":null}",
        b"[[],{},[{}],{\"\":[]}]",
    ];
    let mut changed = Vec::new();
    for text in texts {
        let raw = encode(text);
        for at in 0..raw.len() {
            for b in bytes {
                let mut value = raw.clone();
                value[at] = b;
                changed.push(value);
            }
        }
    }
    let passed = check_all(&changed);
    assert!(passed > 100);
    assert!(changed.iter().any(|v| !is_transcodable(v)));
}

#[test]
fn values_with_two_bytes_changed_are_transcoded_where_they_pass() {
    let bytes = [0x00, 0x01, 0x05, 0x10, 0x20, 0x40, 0x50, 0x60, 0x80, 0xff];
    let texts: Vec<&[u8]> = vec![b"[1,[2],{\"k\":3}]", b"{\"a\":[\"b\"],\"c\":1}"];
    let mut changed = Vec::new();
    for text in texts {
        let raw = encode(text);
        for first in 0..raw.len() {
            for second in (first + 1)..raw.len() {
                for a in bytes {
                    for b in bytes {
                        let mut value = raw.clone();
                        value[first] = a;
                        value[second] = b;
                        changed.push(value);
                    }
                }
            }
        }
    }
    let passed = check_all(&changed);
    assert!(passed > 100);
}

#[test]
fn short_values_of_any_bytes_are_transcoded_where_they_pass() {
    // Every value of up to twelve bytes over a few bytes that matter.
    let bytes = [0x00u8, 0x01, 0x10, 0x20, 0x40, 0x50, 0x80];
    let mut values: Vec<Vec<u8>> = Vec::new();
    for first in [0x20u8, 0x40, 0x80] {
        for count in 0..3u8 {
            let header = vec![first, 0, 0, count];
            let mut frontier = vec![header];
            for _ in 0..2 {
                let mut next = Vec::new();
                for value in &frontier {
                    for a in bytes {
                        for b in [0u8, 1, 2] {
                            let mut longer = value.clone();
                            longer.extend_from_slice(&[a, 0, 0, b]);
                            next.push(longer);
                        }
                    }
                }
                values.extend(next.iter().cloned());
                frontier = next;
            }
        }
    }
    let mut with_data = Vec::new();
    for value in &values {
        for tail in [&[][..], &[0x00], &[0x40, 7], &[0x50, 1, 2], &[0x60, 1, 2, 3, 4, 5, 6, 7, 8], &[0x80, 0, 0, 0], &[0x40, 0, 0, 0, 0x40]] {
            let mut longer = value.clone();
            longer.extend_from_slice(tail);
            with_data.push(longer);
        }
    }
    assert!(check_all(&with_data) > 50);
}

fn transcoded(value: &[u8]) -> Vec<u8> {
    let mut expected = Vec::new();
    jsonb::convert_to_comparable(value, &mut expected);
    expected
}

#[test]
fn text_is_transcoded_as_the_value_that_it_spells() {
    for text in [&b"true"[..], b"\"ab\"", b"1", b"null", b"[true]", b"{\"k\":false}", b"\t[1, 2]\n"] {
        assert!(is_text_ok(text));
        assert!(is_transcodable(text));
        assert!(!is_well_formed(text));
        assert_eq!(to_comparable(text), Some(transcoded(text)));
    }
    assert_eq!(to_comparable(b"true"), Some(vec![0, 2]));
    assert_eq!(to_comparable(b"\"ab\""), to_comparable(&encode(b"\"ab\"")));
    assert_eq!(to_comparable(b"[true]"), Some(vec![0, 6, 1, 2]));
    assert_eq!(to_comparable(b"{\"k\":false}"), to_comparable(&encode(b"{\"k\":false}")));
}

#[test]
fn text_that_does_not_parse_is_kept_behind_a_mark() {
    assert_eq!(to_comparable(b""), Some(vec![0, 0]));
    assert_eq!(to_comparable(b"tru"), Some(vec![0, 0, b't', b'r', b'u']));
    assert_eq!(to_comparable(b"[1,"), Some(vec![0, 0, b'[', b'1', b',']));
    for text in [&b"\"\\"[..], b"\"\\u", b"\"\\u12\"", b"\"\\ud800\\u\"", b"\"\\ud800\\u{12\"", b"{1:2}", b"-", b"1e", b"]", b"\\\""] {
        assert!(is_transcodable(text));
        assert_eq!(to_comparable(text), Some(transcoded(text)));
    }
}

#[test]
fn a_text_that_starts_with_a_space_is_taken_for_a_binary_value() {
    assert!(!is_transcodable(b" true"));
    assert_eq!(to_comparable(b" true"), None);
    assert!(is_text_ok(b" true"));
}

#[test]
fn text_is_read_up_to_the_limit_of_nesting() {
    fn nested(open: u8, close: u8, depth: usize) -> Vec<u8> {
        let mut text = vec![open; depth];
        text.extend(std::iter::repeat(close).take(depth));
        text
    }
    for depth in [1, 2, 100, 254, 255] {
        let text = nested(b'[', b']', depth);
        assert!(is_text_ok(&text));
        assert_eq!(to_comparable(&text), Some(transcoded(&text)));
        assert!(is_text_ok(&vec![b'['; depth]));
        assert_eq!(to_comparable(&vec![b'{'; depth]), Some(transcoded(&vec![b'{'; depth])));
    }
    for depth in [256, 257, 1000] {
        assert!(!is_text_ok(&nested(b'[', b']', depth)));
        assert!(!is_text_ok(&vec![b'['; depth]));
        assert_eq!(to_comparable(&nested(b'[', b']', depth)), None);
    }
    // Many containers side by side are no deeper than one of them.
    let mut wide = b"[".to_vec();
    for i in 0..1000 {
        if i > 0 {
            wide.push(b',');
        }
        wide.extend_from_slice(b"[{\"k\":[1]}]");
    }
    wide.push(b']');
    assert!(is_text_ok(&wide));
    assert_eq!(to_comparable(&wide), Some(transcoded(&wide)));
    // Brackets inside strings open nothing.
    let mut quoted = b"[\"".to_vec();
    quoted.extend(std::iter::repeat(b'[').take(1000));
    quoted.extend_from_slice(b"\\\"[[\\u{[[[[}[\\u[[[[\\\\\"]");
    assert!(is_text_ok(&quoted));
    assert_eq!(to_comparable(&quoted), Some(transcoded(&quoted)));
}

#[test]
fn a_text_that_is_too_long_is_not_read() {
    let long = vec![b'1'; 0x100_0001];
    assert!(!is_text_ok(&long));
    assert!(!is_transcodable(&long));
    assert!(is_text_ok(&long[..0x100_0000]));
}

#[test]
fn texts_of_any_bytes_are_transcoded_where_they_pass() {
    // Every text of up to six bytes over the bytes that steer the parser.
    let bytes = [b'"', b'\\', b'u', b'{', b'}', b'[', b']', b',', b':', b'1', b'n', b'd', b'8', 0xC3];
    let mut texts: Vec<Vec<u8>> = vec![vec![]];
    let mut frontier: Vec<Vec<u8>> = vec![vec![]];
    for _ in 0..5 {
        let mut next = Vec::new();
        for text in &frontier {
            for b in bytes {
                let mut longer = text.clone();
                longer.push(b);
                next.push(longer);
            }
        }
        texts.extend(next.iter().cloned());
        frontier = next;
    }
    let mut passed = 0;
    for text in &texts {
        assert!(is_transcodable(text));
        assert_eq!(to_comparable(text), Some(transcoded(text)));
        passed += 1;
    }
    assert!(passed > 500_000);
}

#[test]
fn texts_with_bytes_changed_are_transcoded_where_they_pass() {
    let bytes = [b'"', b'\\', b'u', b'{', b'}', b'[', b']', b',', b':', b'0', b'-', b'e', b'.', b'd', b'D', b'8', b'c', b' ', 0x00, 0xFF];
    let texts: Vec<&[u8]> = vec![
        b"[1,\"a\",null,[2,[3]],{\"k\":[true]}]",
        b"{\"a\":{\"b\":{\"c\":[1,2,3]}},\"d\":\"e\\n\\u0041\\ud83d\\ude00\",\"f\":-1.5e3}",
        b"\"\\u{0041}\\ud800\\u{dc00}\\udc00x\\\"\"",
        b"[\"\\ud800\\u0041\",\"\\ud800\",\"\\ud800\\\\\",\"\\ud800\\ud800\"]",
    ];
    let mut passed = 0;
    for text in texts {
        assert_eq!(to_comparable(text), Some(transcoded(text)));
        for first in 0..text.len() {
            for a in bytes {
                let mut one = text.to_vec();
                one[first] = a;
                if is_transcodable(&one) {
                    assert_eq!(to_comparable(&one), Some(transcoded(&one)));
                    passed += 1;
                }
                let step = if text.len() > 40 { 7 } else { 1 };
                let mut second = first + 1;
                while second < text.len() {
                    for b in [b'"', b'\\', b'u', b'{', b'[', b']', b'd'] {
                        let mut two = one.clone();
                        two[second] = b;
                        if is_transcodable(&two) {
                            assert_eq!(to_comparable(&two), Some(transcoded(&two)));
                            passed += 1;
                        }
                    }
                    second += step;
                }
            }
        }
    }
    assert!(passed > 10_000);
}
