//! The bridge.

use base64::engine::general_purpose::{STANDARD_NO_PAD, URL_SAFE_NO_PAD};
use base64::Engine;
use edgetunnel::bridge::error::Error;
use edgetunnel::bridge::header::{
    decode_protocol, handle_socket, is_whole, read_request, try_handle_socket, validate_uuid,
};
use edgetunnel::bridge::routes::{route_request, Route};
use edgetunnel::bridge::stream::{client_step, server_step};
use edgetunnel::reply::Reply;
use edgetunnel::traffic::{ClientEvent, ClientStep};

const UUID: &str = "00010203-0405-0607-0809-0a0b0c0d0e0f";

fn header(kind: u8, addons: &[u8], port: u16, address: &[u8], data: &[u8]) -> Vec<u8> {
    let mut d: Vec<u8> = vec![0];
    d.extend(0..16u8);
    d.push(kind);
    d.push(addons.len() as u8);
    d.extend_from_slice(addons);
    d.extend_from_slice(&port.to_be_bytes());
    d.extend_from_slice(address);
    d.extend_from_slice(data);
    d
}

#[test]
fn bridge_requests_are_routed() {
    assert!(matches!(route_request("WebSocket"), Route::Tunnel));
    for upgrade in ["", "h2c", "websocket2"] {
        match route_request(upgrade) {
            Route::Answer(Reply::Error { message, status }) => {
                assert_eq!((message.as_str(), status), ("Not Found", 404))
            }
            _ => panic!("{}", upgrade),
        }
    }
}

#[test]
fn bridge_keys_are_checked() {
    let key: Vec<u8> = (0..16).collect();
    assert!(validate_uuid(&key, UUID));
    assert!(!validate_uuid(&key, &UUID.to_uppercase()));
    assert!(!validate_uuid(&key[..15], UUID));
    assert!(!validate_uuid(&[0; 16], UUID));
    assert!(!validate_uuid(&[], ""));
}

#[test]
fn bridge_protocol_headers_are_decoded() {
    let bytes = vec![0, 1, 2, 3];
    let text = URL_SAFE_NO_PAD.encode(&bytes);
    assert!(matches!(decode_protocol(Some(text)), Ok(b) if b == bytes));
    match decode_protocol(None) {
        Ok(_) => panic!(),
        Err(e) => assert_eq!(e.message(), "Missing protocol"),
    }
    for text in ["A", "AA==", "AB", "*"] {
        match decode_protocol(Some(text.to_string())) {
            Ok(_) => panic!("{}", text),
            Err(e) => assert_eq!(e.message(), "Invalid base64"),
        }
    }
}

#[test]
fn bridge_signs_are_refused() {
    let bytes = vec![0xfb, 0xff, 0xfe];
    for text in [URL_SAFE_NO_PAD.encode(&bytes), STANDARD_NO_PAD.encode(&bytes)] {
        assert!(matches!(decode_protocol(Some(text)), Err(Error::InvalidBase64)));
    }
}

#[test]
fn bridge_headers_with_addresses_are_read() {
    let d = header(1, &[9], 443, &[1, 2, 3, 4], b"abcdefgh");
    match handle_socket(&d, UUID) {
        Ok(q) => {
            assert_eq!((q.address.as_str(), q.port), ("1.2.3.4", 443));
            assert_eq!(q.initial_data, b"defgh");
        }
        Err(e) => panic!("{}", e.message()),
    }
    let mut ip = [0u8; 16];
    ip[0] = 0x20;
    ip[1] = 0x01;
    ip[15] = 0xa;
    let d = header(3, &[], 53, &ip, b"abcdefgh");
    match handle_socket(&d, UUID) {
        Ok(q) => {
            assert_eq!((q.address.as_str(), q.port), ("8193:0:0:0:0:0:0:10", 53));
            assert_eq!(q.initial_data, b"defgh");
        }
        Err(e) => panic!("{}", e.message()),
    }
}

#[test]
fn bridge_headers_with_names_are_read() {
    let d = header(2, &[], 0x1234, b"\x05a.com", b"xyz");
    match handle_socket(&d, UUID) {
        Ok(q) => {
            assert_eq!((q.address.as_str(), q.port), ("a.com", 0x1234));
            assert_eq!(q.initial_data, b"mxyz");
        }
        Err(e) => panic!("{}", e.message()),
    }
    let d = header(2, &[], 1, &[3, b'a', 0xff, b'b'], b"xyz");
    match handle_socket(&d, UUID) {
        Ok(q) => {
            assert_eq!(q.address, "a\u{fffd}b");
            assert_eq!(q.initial_data, b"yz");
        }
        Err(e) => panic!("{}", e.message()),
    }
}

#[test]
fn bridge_names_are_taken_as_given() {
    let d = header(2, &[], 1, b"\x02ab", b"xyz");
    match read_request(&d, UUID, "abcd") {
        Ok(q) => {
            assert_eq!(q.address, "abcd");
            assert_eq!(q.initial_data, b"yz");
        }
        Err(e) => panic!("{}", e.message()),
    }
    assert!(is_whole(&d, UUID, "abcdef"));
    assert!(!is_whole(&d, UUID, "abcdefg"));
}

#[test]
fn bridge_headers_are_refused() {
    let mut d = header(1, &[], 443, &[1, 2, 3, 4], b"abcdefgh");
    match handle_socket(&d, "another") {
        Ok(_) => panic!(),
        Err(e) => assert_eq!(e.message(), "Invalid UUID"),
    }
    d[17] = 4;
    match handle_socket(&d, UUID) {
        Ok(_) => panic!(),
        Err(e) => assert_eq!(e.message(), "Unsupported address type"),
    }
}

#[test]
fn bridge_headers_that_end_early_are_told() {
    let d = header(1, &[], 443, &[1, 2, 3, 4], b"abc");
    assert!(matches!(try_handle_socket(&d, UUID), Some(Ok(q)) if q.initial_data.is_empty()));
    for n in 0..d.len() {
        assert!(try_handle_socket(&d[..n], UUID).is_none(), "{}", n);
    }
    assert!(matches!(try_handle_socket(&d[..17], "another"), Some(Err(Error::InvalidUuid))));
    assert!(try_handle_socket(&d[..16], "another").is_none());
    let d = header(2, &[], 443, b"\x02ab", b"");
    assert!(matches!(try_handle_socket(&d, UUID), Some(Ok(_))));
    for n in 0..d.len() {
        assert!(try_handle_socket(&d[..n], UUID).is_none(), "{}", n);
    }
    let d = header(3, &[], 443, &[0; 16], b"");
    assert!(matches!(try_handle_socket(&d, UUID), Some(Ok(q)) if q.address == "0:0:0:0:0:0:0:0"));
    assert!(try_handle_socket(&d[..d.len() - 1], UUID).is_none());
    let d = header(0, &[], 443, b"", b"");
    let unknown = try_handle_socket(&d, UUID);
    assert!(matches!(unknown, Some(Err(Error::UnsupportedAddressType))));
}

#[test]
fn bridge_traffic_is_carried() {
    assert!(matches!(client_step(ClientEvent::Bytes(vec![1])), ClientStep::Write(d) if d == [1]));
    assert!(matches!(client_step(ClientEvent::Text), ClientStep::Skip));
    assert!(matches!(client_step(ClientEvent::Failed), ClientStep::Skip));
    assert!(matches!(client_step(ClientEvent::Ended), ClientStep::Stop));
    assert_eq!(server_step(&[1, 2, 3], 2), Some(vec![1, 2]));
    assert_eq!(server_step(&[1, 2, 3], 0), None);
}
