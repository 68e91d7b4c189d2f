//! Text, addresses and encodings.

use edgetunnel::address::{
    format_decimal_segments, format_hex_segments, format_ipv4, format_ipv6, parse_ipv4,
    segments_of,
};
use edgetunnel::codec::sanitize;
use edgetunnel::identity::{key_text, push_hex_pairs, uuid_of_digest};
use edgetunnel::preferred::read_entries;
use edgetunnel::text::{
    chars_of, contains_text, decimal_text, find_char, hexadecimal_text, is_white_space, join,
    parse_u16, replace_char, rfind_char, same_text, slice_text, split_first, split_last,
    starts_with_text, strip_text, trim, trim_end_of,
};
use edgetunnel::traffic::{first_bytes, first_message, first_write};
use edgetunnel::upgrade::wants_websocket;

fn words(list: &[&str]) -> Vec<String> {
    list.iter().map(|s| s.to_string()).collect()
}

#[test]
fn white_space_is_that_of_std() {
    for n in 0..=0x10ffffu32 {
        if let Some(c) = char::from_u32(n) {
            assert_eq!(is_white_space(c), c.is_whitespace(), "{:x}", n);
        }
    }
}

#[test]
fn texts_are_cut_and_put_together() {
    assert_eq!(chars_of("aé节"), vec!['a', 'é', '节']);
    assert_eq!(slice_text(&vec!['a', 'é', '节', '!'], 1, 3), "é节");
    assert!(same_text("节点", "节点"));
    assert!(!same_text("节点", "节"));
    assert!(!same_text("ab", "ac"));
    assert!(contains_text("mozilla clash/1.0", "clash"));
    assert!(contains_text("clash", ""));
    assert!(!contains_text("clas", "clash"));
    assert!(!contains_text("clsah", "clash"));
    assert!(starts_with_text("/s/x", "/s"));
    assert!(!starts_with_text("/t/x", "/s"));
    assert!(!starts_with_text("/", "/s"));
    assert_eq!(strip_text("/s/x", "/s"), "/x");
    assert_eq!(replace_char("a-b-", '-', '+'), "a+b+");
    assert_eq!(find_char(&chars_of("a:b:c"), ':', 0), 1);
    assert_eq!(find_char(&chars_of("a:b:c"), ':', 2), 3);
    assert_eq!(find_char(&chars_of("abc"), ':', 0), 3);
    assert_eq!(rfind_char(&chars_of("a:b:c"), ':'), Some(3));
    assert_eq!(rfind_char(&chars_of("abc"), ':'), None);
    assert_eq!(split_first("a:b:c", ':'), ("a".to_string(), Some("b:c".to_string())));
    assert_eq!(split_first("abc", ':'), ("abc".to_string(), None));
    assert_eq!(split_last("a:b:c", ':'), (Some("a:b".to_string()), "c".to_string()));
    assert_eq!(split_last("abc", ':'), (None, "abc".to_string()));
    assert_eq!(trim(" \t a b \u{3000}\r"), "a b");
    assert_eq!(trim(" \t"), "");
    assert_eq!(trim_end_of("2a02::///", '/'), "2a02::");
    assert_eq!(trim_end_of("///", '/'), "");
    assert_eq!(join(&words(&["a", "b", ""]), "\n"), "a\nb\n");
    assert_eq!(join(&words(&[]), "\n"), "");
}

#[test]
fn numbers_are_written() {
    assert_eq!(decimal_text(0), "0");
    assert_eq!(decimal_text(443), "443");
    assert_eq!(decimal_text(u64::MAX), "18446744073709551615");
    assert_eq!(hexadecimal_text(0), "0");
    assert_eq!(hexadecimal_text(0xdb8), "db8");
    assert_eq!(hexadecimal_text(0xffff), "ffff");
}

#[test]
fn ports_are_read_as_std_reads_them() {
    for text in [
        "0", "1", "443", "65535", "65536", "70000", "99999999999999999999999", "+443", "-1", "-0",
        "+", "-", "", " 443", "443 ", "4a", "00443", "000000000000065535", "+00080", "４４３",
    ] {
        assert_eq!(parse_u16(text), text.parse::<u16>().ok(), "{:?}", text);
    }
}

#[test]
fn every_number_is_read_as_it_is_written() {
    for n in 0..=65535u16 {
        assert_eq!(parse_u16(&decimal_text(n as u64)), Some(n));
    }
}

#[test]
fn ipv4_addresses_are_read() {
    for (text, octets) in [
        ("0.0.0.0", [0, 0, 0, 0]),
        ("1.2.3.4", [1, 2, 3, 4]),
        ("127.0.0.1", [127, 0, 0, 1]),
        ("255.255.255.255", [255, 255, 255, 255]),
    ] {
        assert_eq!(parse_ipv4(text), Some(octets), "{:?}", text);
    }
    for text in [
        "256.1.1.1", "1.2.3", "1.2.3.4.5", "01.2.3.4", "1.2.3.04", "1.2.3.4 ", " 1.2.3.4", "1..3.4",
        "", "a.b.c.d", "1.2.3.+4", "1,2,3,4", "1.2.3.4:80", "0x1.2.3.4", "1.2.3.0004", "1.2.3.00",
        "::1",
    ] {
        assert_eq!(parse_ipv4(text), None, "{:?}", text);
    }
}

#[test]
fn ipv4_addresses_are_read_as_written() {
    for (o, text) in [
        ([0, 0, 0, 0], "0.0.0.0"),
        ([10, 0, 200, 99], "10.0.200.99"),
        ([255, 254, 100, 1], "255.254.100.1"),
    ] {
        assert_eq!(format_ipv4(o[0], o[1], o[2], o[3]), text);
        assert_eq!(parse_ipv4(text), Some(o));
    }
}

fn bytes_of(segments: [u16; 8]) -> Vec<u8> {
    segments.iter().flat_map(|s| s.to_be_bytes()).collect()
}

#[test]
fn ipv6_addresses_are_written() {
    for (segments, text) in [
        ([0, 0, 0, 0, 0, 0, 0, 0], "::"),
        ([0, 0, 0, 0, 0, 0, 0, 1], "::1"),
        ([1, 0, 0, 0, 0, 0, 0, 0], "1::"),
        ([0x2001, 0xdb8, 0, 0, 0, 0, 0, 1], "2001:db8::1"),
        ([1, 2, 3, 4, 5, 6, 7, 8], "1:2:3:4:5:6:7:8"),
        ([1, 0, 0, 4, 0, 0, 7, 8], "1::4:0:0:7:8"),
        ([1, 0, 3, 0, 5, 0, 7, 0], "1:0:3:0:5:0:7:0"),
        ([0, 0, 0, 4, 0, 0, 0, 0], "0:0:0:4::"),
        ([1, 0, 0, 0, 5, 0, 0, 0], "1::5:0:0:0"),
        ([0, 0, 3, 4, 5, 6, 7, 8], "::3:4:5:6:7:8"),
        ([1, 2, 3, 4, 5, 6, 0, 0], "1:2:3:4:5:6::"),
        ([0, 2, 3, 4, 5, 6, 7, 0], "0:2:3:4:5:6:7:0"),
        ([0, 0, 0, 0, 0, 0xffff, 0x102, 0x304], "::ffff:1.2.3.4"),
        ([0, 0, 0, 0, 0, 0xffff, 0, 0], "::ffff:0.0.0.0"),
        ([0, 0, 0, 0, 0, 0xfffe, 1, 2], "::fffe:1:2"),
        ([0, 0, 0, 0, 0, 0, 0x102, 0x304], "::102:304"),
        ([0x64, 0xff9b, 0, 0, 0, 0, 0x102, 0x304], "64:ff9b::102:304"),
        ([0xfe80, 0, 0, 0, 0xabcd, 0, 0, 0x10], "fe80::abcd:0:0:10"),
        ([0xffff; 8], "ffff:ffff:ffff:ffff:ffff:ffff:ffff:ffff"),
    ] {
        assert_eq!(format_ipv6(&bytes_of(segments)), text);
    }
}

#[test]
fn ipv6_addresses_are_written_by_segments() {
    let s = segments_of(&bytes_of([0x2001, 0xdb8, 0, 0, 0, 0, 0xff, 1]));
    assert_eq!(s, vec![0x2001, 0xdb8, 0, 0, 0, 0, 0xff, 1]);
    assert_eq!(format_hex_segments(&s, 0, 8), "2001:db8:0:0:0:0:ff:1");
    assert_eq!(format_hex_segments(&s, 2, 4), "0:0");
    assert_eq!(format_decimal_segments(&s), "8193:3512:0:0:0:0:255:1");
}

#[test]
fn keys_are_written_as_uuids() {
    let key: Vec<u8> = (0..16).map(|i| i * 16 + 15 - i).collect();
    assert_eq!(key_text(&key), "0f1e2d3c-4b5a-6978-8796-a5b4c3d2e1f0");
    let other: Vec<u8> = (0..16).collect();
    assert_ne!(key_text(&key), key_text(&other));
    let mut out = "k".to_string();
    push_hex_pairs(&mut out, &key, 1, 3);
    assert_eq!(out, "k1e2d");
}

#[test]
fn digests_become_keys_of_version_four() {
    assert_eq!(uuid_of_digest([0; 16]), "00000000-0000-4000-8000-000000000000");
    assert_eq!(uuid_of_digest([0xff; 16]), "ffffffff-ffff-4fff-bfff-ffffffffffff");
    let text = uuid_of_digest([0x5a; 16]);
    assert_eq!(text.as_bytes()[14], b'4');
    assert!(matches!(text.as_bytes()[19], b'8' | b'9' | b'a' | b'b'));
}

#[test]
fn protocol_headers_are_turned_to_the_standard_alphabet() {
    assert_eq!(sanitize("-_a-="), "+/a+=");
    assert_eq!(sanitize("+/"), "+/");
}

#[test]
fn entries_are_read() {
    let text = "  a:1#x \r\n\r\n\t\n b \n\u{3000}c#d#e";
    assert_eq!(read_entries(text), words(&["a:1#x", "b", "c#d#e"]));
    assert_eq!(read_entries(""), words(&[]));
    assert_eq!(read_entries("\n\n"), words(&[]));
    let by_std: Vec<String> =
        text.lines().map(|s| s.trim().to_string()).filter(|s| !s.is_empty()).collect();
    assert_eq!(read_entries(text), by_std);
}

#[test]
fn lists_that_are_put_together_have_the_entries_of_both() {
    let (a, b) = ("a\n \nb", " c\nd ");
    let mut both = read_entries(a);
    both.extend(read_entries(b));
    assert_eq!(read_entries(&format!("{}\n{}", a, b)), both);
}

#[test]
fn web_sockets_are_asked_for_in_any_case() {
    assert!(wants_websocket("websocket"));
    assert!(wants_websocket("WebSocket"));
    assert!(wants_websocket("WEBSOC\u{212a}ET"));
    assert!(!wants_websocket(""));
    assert!(!wants_websocket("h2c"));
    assert!(!wants_websocket("websocket "));
}

#[test]
fn traffic_begins() {
    assert_eq!(first_message(), vec![0, 0]);
    assert_eq!(first_write(vec![]), None);
    assert_eq!(first_write(vec![7]), Some(vec![7]));
    assert_eq!(first_bytes(&[1, 2, 3], 2), vec![1, 2]);
    assert_eq!(first_bytes(&[1, 2, 3], 0), Vec::<u8>::new());
}
