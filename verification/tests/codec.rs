use webcache::json::{read_decimal, read_quoted, write_decimal, write_quoted};
use webcache::{decode, encode, Doc, Timestamp};

fn sample() -> Doc<Vec<u8>> {
    Doc::at(
        b"{\"schemas\":[]}".to_vec(),
        Some("\"abc\"".to_string()),
        None,
        Timestamp { secs: 1_700_000_000, nanos: 123_456_789 },
    )
}

fn quoted(content: &[u8]) -> Vec<u8> {
    let mut out = Vec::new();
    write_quoted(&mut out, content);
    out
}

fn decimal(n: u64) -> Vec<u8> {
    let mut out = Vec::new();
    write_decimal(&mut out, n);
    out
}

#[test]
fn stored_form_is_the_compact_json_object() {
    let bytes = encode(&sample());
    let expected = "{\"etag\":\"\\\"abc\\\"\",\"date\":null,\"time\":{\"secs_since_epoch\":1700000000,\"nanos_since_epoch\":123456789},\"body\":{\"schemas\":[]}}";
    assert_eq!(String::from_utf8(bytes).unwrap(), expected);
}

#[test]
fn stored_form_is_what_serde_json_reads() {
    let bytes = encode(&sample());
    let value: serde_json::Value = serde_json::from_slice(&bytes).unwrap();
    assert_eq!(value["etag"], serde_json::Value::String("\"abc\"".to_string()));
    assert_eq!(value["date"], serde_json::Value::Null);
    assert_eq!(value["time"]["secs_since_epoch"], serde_json::Value::from(1_700_000_000u64));
    assert_eq!(value["time"]["nanos_since_epoch"], serde_json::Value::from(123_456_789u32));
    assert!(value["body"]["schemas"].as_array().unwrap().is_empty());
    // And it is what serde_json writes for the same value, byte for byte.
    assert_eq!(serde_json::to_vec(&value["etag"]).unwrap(), quoted(b"\"abc\""));
}

#[test]
fn decode_inverts_encode() {
    let docs = vec![
        sample(),
        Doc::at(Vec::new(), None, None, Timestamp { secs: 0, nanos: 0 }),
        Doc::at(
            b"}".to_vec(),
            Some(String::new()),
            Some("Wed, 21 Oct 2015 07:28:00 GMT".to_string()),
            Timestamp { secs: u64::MAX, nanos: u32::MAX },
        ),
        Doc::at(
            vec![0, 255, b'"', b'\\', b'}', b'}'],
            Some("tab\there \u{1} \u{1f} \u{7f} caf\u{e9} \u{1F600} \"q\" \\ / \n\r\u{8}\u{c}".to_string()),
            Some("null".to_string()),
            Timestamp { secs: 9, nanos: 999_999_999 },
        ),
    ];
    for doc in docs {
        let bytes = encode(&doc);
        assert_eq!(decode(&bytes), Some(doc));
    }
}

#[test]
fn decode_takes_stored_forms_only() {
    let good = encode(&sample());
    assert!(decode(&good).is_some());

    // Truncated anywhere, it is no stored form.
    for cut in 0..good.len() {
        let doc = decode(&good[..cut]);
        if let Some(found) = doc {
            // A shorter body is the only thing a cut can leave intact.
            assert_eq!(encode(&found), good[..cut].to_vec());
        }
    }
    assert_eq!(decode(b""), None);
    assert_eq!(decode(b"{}"), None);
    assert_eq!(decode(b"null"), None);

    let variants: Vec<&str> = vec![
        // white space
        "{ \"etag\":null,\"date\":null,\"time\":{\"secs_since_epoch\":1,\"nanos_since_epoch\":2},\"body\":0}",
        // other order
        "{\"date\":null,\"etag\":null,\"time\":{\"secs_since_epoch\":1,\"nanos_since_epoch\":2},\"body\":0}",
        // leading zero
        "{\"etag\":null,\"date\":null,\"time\":{\"secs_since_epoch\":01,\"nanos_since_epoch\":2},\"body\":0}",
        // seconds beyond 64 bits
        "{\"etag\":null,\"date\":null,\"time\":{\"secs_since_epoch\":18446744073709551616,\"nanos_since_epoch\":2},\"body\":0}",
        // nanoseconds beyond 32 bits
        "{\"etag\":null,\"date\":null,\"time\":{\"secs_since_epoch\":1,\"nanos_since_epoch\":4294967296},\"body\":0}",
        // negative
        "{\"etag\":null,\"date\":null,\"time\":{\"secs_since_epoch\":-1,\"nanos_since_epoch\":2},\"body\":0}",
        // an escape that the writer does not write
        "{\"etag\":\"\\/\",\"date\":null,\"time\":{\"secs_since_epoch\":1,\"nanos_since_epoch\":2},\"body\":0}",
        "{\"etag\":\"\\u0041\",\"date\":null,\"time\":{\"secs_since_epoch\":1,\"nanos_since_epoch\":2},\"body\":0}",
        "{\"etag\":\"\\u000a\",\"date\":null,\"time\":{\"secs_since_epoch\":1,\"nanos_since_epoch\":2},\"body\":0}",
        "{\"etag\":\"\\u001F\",\"date\":null,\"time\":{\"secs_since_epoch\":1,\"nanos_since_epoch\":2},\"body\":0}",
        // a number where a string or null belongs
        "{\"etag\":7,\"date\":null,\"time\":{\"secs_since_epoch\":1,\"nanos_since_epoch\":2},\"body\":0}",
        // no closing brace
        "{\"etag\":null,\"date\":null,\"time\":{\"secs_since_epoch\":1,\"nanos_since_epoch\":2},\"body\":0",
    ];
    for text in variants {
        assert_eq!(decode(text.as_bytes()), None, "{}", text);
    }

    // A raw control character and bytes that are no UTF-8 inside a string.
    let mut raw = b"{\"etag\":\"a".to_vec();
    raw.push(0x0A);
    raw.extend_from_slice(b"\",\"date\":null,\"time\":{\"secs_since_epoch\":1,\"nanos_since_epoch\":2},\"body\":0}");
    assert_eq!(decode(&raw), None);
    let mut bad = b"{\"etag\":\"".to_vec();
    bad.extend_from_slice(&[0xC3, 0x28]);
    bad.extend_from_slice(b"\",\"date\":null,\"time\":{\"secs_since_epoch\":1,\"nanos_since_epoch\":2},\"body\":0}");
    assert_eq!(decode(&bad), None);
}

#[test]
fn decode_reads_each_field() {
    let text = "{\"etag\":\"W/\\\"1\\\"\",\"date\":\"d\\n\\u0001\",\"time\":{\"secs_since_epoch\":0,\"nanos_since_epoch\":4294967295},\"body\":[1,{\"a\":\"}\"}]}";
    let doc = decode(text.as_bytes()).unwrap();
    assert_eq!(doc.etag, Some("W/\"1\"".to_string()));
    assert_eq!(doc.date, Some("d\n\u{1}".to_string()));
    assert_eq!(doc.time, Timestamp { secs: 0, nanos: u32::MAX });
    assert_eq!(doc.body, b"[1,{\"a\":\"}\"}]".to_vec());
}

#[test]
fn strings_are_escaped_as_serde_json_escapes_them() {
    assert_eq!(quoted(b""), b"\"\"".to_vec());
    assert_eq!(quoted(b"plain"), b"\"plain\"".to_vec());
    assert_eq!(quoted(b"\"\\"), b"\"\\\"\\\\\"".to_vec());
    assert_eq!(quoted(&[8, 9, 10, 12, 13]), b"\"\\b\\t\\n\\f\\r\"".to_vec());
    assert_eq!(quoted(&[0, 11, 0x1F]), b"\"\\u0000\\u000b\\u001f\"".to_vec());
    assert_eq!(quoted(&[0x20, 0x2F, 0x7F]), b"\" /\x7f\"".to_vec());
    for code in 0u32..0x3000 {
        if let Some(c) = char::from_u32(code) {
            let text = format!("a{}b", c);
            assert_eq!(quoted(text.as_bytes()), serde_json::to_vec(&text).unwrap(), "{:?}", c);
        }
    }
}

#[test]
fn every_byte_reads_back_from_its_escape() {
    for b in 0u8..=255 {
        let content = vec![b'x', b, b'y'];
        let mut bytes = b"..".to_vec();
        write_quoted(&mut bytes, &content);
        let end = bytes.len();
        bytes.extend_from_slice(b"tail");
        assert_eq!(read_quoted(&bytes, 2), Some((content, end)), "byte {}", b);
    }
}

#[test]
fn strings_that_are_not_strings() {
    assert_eq!(read_quoted(b"", 0), None);
    assert_eq!(read_quoted(b"\"", 0), None);
    assert_eq!(read_quoted(b"\"abc", 0), None);
    assert_eq!(read_quoted(b"abc\"", 0), None);
    assert_eq!(read_quoted(b"\"\\", 0), None);
    assert_eq!(read_quoted(b"\"\\x\"", 0), None);
    assert_eq!(read_quoted(b"\"\\u00\"", 0), None);
    assert_eq!(read_quoted(b"\"\\u0100\"", 0), None);
    assert_eq!(read_quoted(b"\"\\u0020\"", 0), None);
    assert_eq!(read_quoted(b"\"\\u0008\"", 0), None);
    assert_eq!(read_quoted(b"\"\\u001G\"", 0), None);
    assert_eq!(read_quoted(b"\"ok\"", 5), None);
    assert_eq!(read_quoted(b"\"ok\"", 3), None);
    assert_eq!(read_quoted(b"\"ok\"", 0), Some((b"ok".to_vec(), 4)));
    assert_eq!(read_quoted(b"x\"\"", 1), Some((Vec::new(), 3)));
}

#[test]
fn numbers_are_written_in_decimal() {
    assert_eq!(decimal(0), b"0".to_vec());
    assert_eq!(decimal(7), b"7".to_vec());
    assert_eq!(decimal(10), b"10".to_vec());
    assert_eq!(decimal(1_700_000_000), b"1700000000".to_vec());
    assert_eq!(decimal(u64::MAX), b"18446744073709551615".to_vec());
    let mut out = b"n=".to_vec();
    write_decimal(&mut out, 305);
    assert_eq!(out, b"n=305".to_vec());
}

#[test]
fn numbers_read_back() {
    assert_eq!(read_decimal(b"0", 0, u64::MAX), Some((0, 1)));
    assert_eq!(read_decimal(b"0,", 0, u64::MAX), Some((0, 1)));
    assert_eq!(read_decimal(b"007", 0, u64::MAX), Some((0, 1)));
    assert_eq!(read_decimal(b"x42}", 1, u64::MAX), Some((42, 3)));
    assert_eq!(read_decimal(b"18446744073709551615", 0, u64::MAX), Some((u64::MAX, 20)));
    assert_eq!(read_decimal(b"18446744073709551616", 0, u64::MAX), None);
    assert_eq!(read_decimal(b"99999999999999999999999", 0, u64::MAX), None);
    assert_eq!(read_decimal(b"4294967295", 0, 4294967295), Some((4294967295, 10)));
    assert_eq!(read_decimal(b"4294967296", 0, 4294967295), None);
    assert_eq!(read_decimal(b"10", 0, 9), None);
    assert_eq!(read_decimal(b"9", 0, 9), Some((9, 1)));
    assert_eq!(read_decimal(b"", 0, u64::MAX), None);
    assert_eq!(read_decimal(b"-1", 0, u64::MAX), None);
    assert_eq!(read_decimal(b"+1", 0, u64::MAX), None);
    assert_eq!(read_decimal(b"a", 0, u64::MAX), None);
    assert_eq!(read_decimal(b"12", 2, u64::MAX), None);
    assert_eq!(read_decimal(b"12", 9, u64::MAX), None);
    for n in [1u64, 9, 10, 11, 99, 100, 12345, u32::MAX as u64, u64::MAX - 1] {
        let text = decimal(n);
        assert_eq!(read_decimal(&text, 0, u64::MAX), Some((n, text.len())));
    }
}
