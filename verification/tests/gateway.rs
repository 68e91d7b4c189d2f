//! The gateway.

use base64::engine::general_purpose::{STANDARD, URL_SAFE};
use base64::Engine;
use edgetunnel::environment::EnvVars;
use edgetunnel::gateway::config::{generate_uuid, AppConfig};
use edgetunnel::gateway::dial::{
    check_doh_status, continue_connection, convert_ipv4_to_nat64, doh_url,
    establish_tcp_connection, resolve_domain_to_ipv4, target_of, Action, DohAnswer, DohResponse,
    Event, Stage,
};
use edgetunnel::gateway::error::Error;
use edgetunnel::gateway::header::{
    decode_protocol_header, parse_vless_header, DestinationAddress,
};
use edgetunnel::gateway::nodes::{get_preferred_list, has_list, process_nodes, refuses_status};
use edgetunnel::gateway::pages::{
    generate_clash_config, generate_v2ray_config, make_document, names_nodes, tips_page,
};
use edgetunnel::gateway::routes::{
    client_document, entry_of, handle_reverse_proxy, handle_subscription, pick_document, route_fallback,
    route_request, Document, Entry, Fallback,
};
use edgetunnel::gateway::stream::{
    client_step, closing, handle_socket_stream, open_with_header, server_step, Opening,
};
use edgetunnel::reply::Reply;
use edgetunnel::traffic::{ClientEvent, ClientStep, ServerEvent};

const SECRET_KEY: [u8; 16] =
    [94, 190, 34, 148, 236, 208, 64, 240, 142, 171, 118, 144, 210, 166, 238, 105];

fn words(list: &[&str]) -> Vec<String> {
    list.iter().map(|s| s.to_string()).collect()
}

fn no_vars() -> EnvVars {
    EnvVars { sub_path: None, txt_url: None, nat64: None, doh: None, proxy_ip: None }
}

fn secret() -> AppConfig {
    AppConfig::from_env(no_vars(), "secret")
}

fn header(key: &[u8], addons: &[u8], port: u16, kind: u8, address: &[u8], data: &[u8]) -> Vec<u8> {
    let mut d = vec![0];
    d.extend_from_slice(key);
    d.push(addons.len() as u8);
    d.extend_from_slice(addons);
    d.extend_from_slice(&port.to_be_bytes());
    d.push(kind);
    d.extend_from_slice(address);
    d.extend_from_slice(data);
    d
}

fn refusal(data: &[u8]) -> String {
    match parse_vless_header(data) {
        Ok(_) => panic!("accepted"),
        Err(e) => e.message(),
    }
}

fn dest(host: &str, port: u16, addr_type: u8) -> DestinationAddress {
    DestinationAddress { host: host.to_string(), port, addr_type }
}

#[test]
fn settings_have_defaults() {
    let c = secret();
    assert_eq!(c.sub_path, "secret");
    assert_eq!(c.uuid, "5ebe2294-ecd0-40f0-8eab-7690d2a6ee69");
    assert_eq!(c.txt_url, "https://raw.githubusercontent.com/ImLTHQ/edgetunnel/main/AutoTest.txt");
    assert_eq!(c.nat64_prefix, None);
    assert_eq!(c.doh_address, "1.1.1.1");
    assert_eq!(c.proxy_ip, None);
    assert_eq!((c.v2ray(), c.vless(), c.clash()), ("v2ray".into(), "vless".into(), "clash".into()));
}

#[test]
fn settings_come_from_the_environment() {
    let c = AppConfig::from_env(
        EnvVars {
            sub_path: Some("订阅路径".into()),
            txt_url: Some("https://list".into()),
            nat64: Some("64:ff9b::/".into()),
            doh: Some("9.9.9.9".into()),
            proxy_ip: Some("proxy:8443".into()),
        },
        "secret",
    );
    assert_eq!(c.sub_path, "订阅路径");
    assert_eq!(c.uuid, "9bee28ec-f7c8-41aa-856c-a79b286bb8e3");
    assert_eq!(c.txt_url, "https://list");
    assert_eq!(c.nat64_prefix.as_deref(), Some("64:ff9b::/"));
    assert_eq!(c.doh_address, "9.9.9.9");
    assert_eq!(c.proxy_ip.as_deref(), Some("proxy:8443"));
}

#[test]
fn uuids_belong_to_texts() {
    assert_eq!(generate_uuid("default"), "c21f969b-5f03-433d-83e0-4f8f136e7682");
    assert_eq!(generate_uuid("secret"), "5ebe2294-ecd0-40f0-8eab-7690d2a6ee69");
}

#[test]
fn protocol_headers_are_decoded_in_every_spelling() {
    let bytes = vec![0xfb, 0xff, 0xfe, 0x3e, 0x00];
    let standard = STANDARD.encode(&bytes);
    let url = URL_SAFE.encode(&bytes);
    assert!(standard.contains('+') && standard.contains('/') && standard.ends_with('='));
    assert!(matches!(decode_protocol_header(&standard), Ok(b) if b == bytes));
    assert!(matches!(decode_protocol_header(&url), Ok(b) if b == bytes));
    assert!(matches!(decode_protocol_header(""), Ok(b) if b.is_empty()));
}

#[test]
fn protocol_headers_that_are_not_base64_are_refused() {
    for text in ["A", "AA", "AAA", "AB==", "AA=A", "A A=", "!!!!", "AAAAA"] {
        match decode_protocol_header(text) {
            Ok(_) => panic!("{}", text),
            Err(e) => {
                let by_crate = STANDARD.decode(text).unwrap_err();
                assert_eq!(e.message(), format!("Base64 Decode Error: {}", by_crate));
            }
        }
    }
}

#[test]
fn headers_are_read_as_written() {
    let v4 = header(&SECRET_KEY, &[], 443, 1, &[1, 2, 3, 4], b"hello");
    match parse_vless_header(&v4) {
        Ok((key, to, data)) => {
            assert_eq!(key, SECRET_KEY);
            assert_eq!((to.host.as_str(), to.port, to.addr_type), ("1.2.3.4", 443, 1));
            assert_eq!(data, b"hello");
        }
        Err(e) => panic!("{}", e.message()),
    }
    let name = header(&SECRET_KEY, &[9, 9, 9], 0x1234, 2, b"\x0bexample.com", b"");
    match parse_vless_header(&name) {
        Ok((_, to, data)) => {
            assert_eq!((to.host.as_str(), to.port, to.addr_type), ("example.com", 0x1234, 2));
            assert!(data.is_empty());
        }
        Err(e) => panic!("{}", e.message()),
    }
    let mut ip = [0u8; 16];
    ip[0] = 0x20;
    ip[1] = 0x01;
    ip[15] = 1;
    let v6 = header(&SECRET_KEY, &[], 80, 3, &ip, &[0]);
    match parse_vless_header(&v6) {
        Ok((_, to, data)) => {
            assert_eq!((to.host.as_str(), to.port, to.addr_type), ("2001::1", 80, 3));
            assert_eq!(data, vec![0]);
        }
        Err(e) => panic!("{}", e.message()),
    }
}

#[test]
fn headers_that_end_early_are_refused() {
    assert_eq!(refusal(&[]), "VLESS header too short");
    assert_eq!(refusal(&[0; 19]), "VLESS header too short");
    assert_eq!(refusal(&[0; 20]), "Invalid VLESS address section");
    let mut long_addons = vec![0; 40];
    long_addons[17] = 20;
    assert_eq!(refusal(&long_addons), "Invalid VLESS address section");
    assert_eq!(refusal(&header(&SECRET_KEY, &[], 1, 1, &[1, 2, 3], &[])), "Incomplete IPv4 address");
    assert_eq!(refusal(&header(&SECRET_KEY, &[], 1, 2, &[], &[])), "Missing domain length");
    assert_eq!(refusal(&header(&SECRET_KEY, &[], 1, 2, b"\x04abc", &[])), "Incomplete domain name");
    assert_eq!(refusal(&header(&SECRET_KEY, &[], 1, 3, &[0; 15], &[])), "Incomplete IPv6 address");
}

#[test]
fn headers_that_make_no_sense_are_refused() {
    let kinds = header(&SECRET_KEY, &[], 1, 4, &[0; 16], &[]);
    assert_eq!(refusal(&kinds), "Unsupported address type: 4");
    let bad = header(&SECRET_KEY, &[], 1, 2, &[2, 0xc3, 0x28], &[]);
    let by_std = String::from_utf8(vec![0xc3, 0x28]).unwrap_err();
    assert_eq!(refusal(&bad), by_std.to_string());
}

#[test]
fn the_key_opens_a_tunnel() {
    let d = header(&SECRET_KEY, &[], 443, 2, b"\x05a.com", b"x");
    match handle_socket_stream(&STANDARD.encode(&d), &secret()) {
        Ok(Opening::Tunnel { dest, initial_data }) => {
            assert_eq!((dest.host.as_str(), dest.port, dest.addr_type), ("a.com", 443, 2));
            assert_eq!(initial_data, b"x");
        }
        _ => panic!(),
    }
    assert!(matches!(open_with_header(&d, &secret()), Ok(Opening::Tunnel { .. })));
}

#[test]
fn other_keys_are_turned_away() {
    let mut key = SECRET_KEY;
    key[15] ^= 1;
    let d = header(&key, &[], 443, 1, &[1, 2, 3, 4], &[]);
    match handle_socket_stream(&STANDARD.encode(&d), &secret()) {
        Ok(Opening::Refused { code, reason }) => {
            assert_eq!((code, reason.as_str()), (1000, "Invalid UUID"))
        }
        _ => panic!(),
    }
}

#[test]
fn tunnels_with_bad_headers_fail() {
    assert!(matches!(handle_socket_stream("", &secret()), Err(Error::HeaderTooShort)));
    assert!(matches!(handle_socket_stream("*", &secret()), Err(Error::Base64(_))));
}

#[test]
fn traffic_is_carried() {
    assert!(matches!(client_step(ClientEvent::Bytes(vec![1])), ClientStep::Write(d) if d == [1]));
    assert!(matches!(client_step(ClientEvent::Text), ClientStep::Skip));
    assert!(matches!(client_step(ClientEvent::Failed), ClientStep::Stop));
    assert!(matches!(client_step(ClientEvent::Ended), ClientStep::Stop));
    assert_eq!(server_step(&[1, 2, 3], ServerEvent::Read(2)), Some(vec![1, 2]));
    assert_eq!(server_step(&[1, 2, 3], ServerEvent::Read(0)), Some(vec![]));
    assert_eq!(server_step(&[1, 2, 3], ServerEvent::Failed), None);
    assert_eq!(server_step(&[1, 2, 3], ServerEvent::Ended), None);
    assert_eq!(closing(), (1000, "Closing".to_string()));
}

#[test]
fn nat64_addresses_are_made() {
    let made = convert_ipv4_to_nat64("1.2.30.255", "64:ff9b:://");
    assert!(matches!(made, Ok(t) if t == "[64:ff9b:::0102:1eff]"));
    let bare = convert_ipv4_to_nat64("0.0.0.0", "");
    assert!(matches!(bare, Ok(t) if t == "[:0000:0000]"));
    match convert_ipv4_to_nat64("example.com", "64:ff9b::") {
        Ok(_) => panic!(),
        Err(e) => assert_eq!(e.message(), "Invalid IPv4 format"),
    }
}

#[test]
fn name_servers_are_asked() {
    assert_eq!(
        doh_url("example.com", "1.1.1.1"),
        "https://1.1.1.1/dns-query?name=example.com&type=A"
    );
    let answer = |type_code: u16, data: &str| DohAnswer { data: data.to_string(), type_code };
    let found = resolve_domain_to_ipv4(DohResponse {
        answer: Some(vec![answer(5, "alias"), answer(1, "1.2.3.4"), answer(1, "5.6.7.8")]),
    });
    assert!(matches!(found, Ok(t) if t == "1.2.3.4"));
    for answer in [None, Some(vec![]), Some(vec![answer(28, "::1")])] {
        match resolve_domain_to_ipv4(DohResponse { answer }) {
            Ok(_) => panic!(),
            Err(e) => assert_eq!(e.message(), "No A record found in DoH response"),
        }
    }
}

#[test]
fn statuses_are_judged() {
    for status in [0, 100, 200, 404, 500, 65334, 65336, 65535] {
        assert!(!refuses_status(status));
        assert!(check_doh_status(status).is_ok());
        assert!(get_preferred_list(status, "a").is_ok());
    }
    assert!(refuses_status(65335));
    match check_doh_status(65335) {
        Ok(_) => panic!(),
        Err(e) => assert_eq!(e.message(), "DoH query failed with status 65335"),
    }
    match get_preferred_list(65335, "a") {
        Ok(_) => panic!(),
        Err(e) => assert_eq!(e.message(), "Failed to fetch preferred list: status 65335"),
    }
}

/// The places that are tried when all of them refuse.
fn attempts(to: &DestinationAddress, config: &AppConfig, answer: Option<&str>) -> Vec<String> {
    let mut tried = Vec::new();
    let (mut stage, mut action) = establish_tcp_connection(to);
    loop {
        let event = match action {
            Action::Connect(address) => {
                tried.push(address);
                Event::Refused
            }
            Action::Resolve(url) => {
                assert_eq!(url, doh_url(&to.host, &config.doh_address));
                match answer {
                    Some(ipv4) => Event::Resolved(ipv4.to_string()),
                    None => Event::Unresolved,
                }
            }
            Action::Use => panic!(),
            Action::Fail(e) => {
                assert_eq!(e.message(), "All connection methods failed");
                assert!(stage == Stage::Done);
                return tried;
            }
        };
        let (next_stage, next_action) = continue_connection(stage, event, to, config);
        stage = next_stage;
        action = next_action;
    }
}

#[test]
fn attempts_come_in_order() {
    let mut config = secret();
    let v4 = dest("1.2.3.4", 80, 1);
    let name = dest("a.com", 443, 2);
    let v6 = dest("::1", 443, 3);
    assert_eq!(attempts(&v4, &config, None), words(&["1.2.3.4:80"]));
    config.nat64_prefix = Some("64:".into());
    assert_eq!(attempts(&v4, &config, None), words(&["1.2.3.4:80", "[64::0102:0304]:80"]));
    config.proxy_ip = Some("proxy:1".into());
    assert_eq!(
        attempts(&v4, &config, None),
        words(&["1.2.3.4:80", "[64::0102:0304]:80", "proxy:1"])
    );
    assert_eq!(
        attempts(&name, &config, Some("9.8.7.6")),
        words(&["a.com:443", "[64::0908:0706]:443", "proxy:1"])
    );
    assert_eq!(attempts(&name, &config, Some("alias")), words(&["a.com:443", "proxy:1"]));
    assert_eq!(attempts(&name, &config, None), words(&["a.com:443", "proxy:1"]));
    assert_eq!(attempts(&v6, &config, None), words(&["::1:443", "proxy:1"]));
    config.nat64_prefix = None;
    assert_eq!(attempts(&name, &config, Some("9.8.7.6")), words(&["a.com:443", "proxy:1"]));
}

#[test]
fn the_first_connection_is_used() {
    let to = dest("a.com", 443, 2);
    for stage in [Stage::Direct, Stage::Nat64, Stage::Proxy] {
        let (stage, action) = continue_connection(stage, Event::Connected, &to, &secret());
        assert!(stage == Stage::Done);
        assert!(matches!(action, Action::Use));
    }
}

#[test]
fn targets_are_taken_apart() {
    assert_eq!(target_of("a.com:443"), Some(("a.com".to_string(), 443)));
    assert_eq!(target_of("[64::1]:80"), Some(("[64::1]".to_string(), 80)));
    assert_eq!(target_of("a.com"), None);
    assert_eq!(target_of("a.com:x"), None);
    match establish_tcp_connection(&dest("::1", 8080, 3)) {
        (_, Action::Connect(address)) => {
            assert_eq!(target_of(&address), Some(("::1".to_string(), 8080)))
        }
        _ => panic!(),
    }
}

#[test]
fn lists_are_fetched_from_somewhere() {
    assert!(has_list("https://list"));
    assert!(!has_list(""));
    assert!(!has_list(" \t\n"));
    let list = get_preferred_list(200, " a:1#x\n\nb ");
    assert!(matches!(list, Ok(l) if l == words(&["a:1#x", "b"])));
}

#[test]
fn nodes_are_read() {
    let list = words(&[
        "1.2.3.4:8443#one",
        "[2001:db8::1]:80#two#too",
        "a.com#three",
        "b.com:x",
        "8080",
        "#five",
        ":99#",
    ]);
    let node = |a: &str, p: u16, n: &str| (a.to_string(), p, n.to_string());
    assert_eq!(
        process_nodes(list, "host"),
        vec![
            node("host", 443, "原生节点"),
            node("1.2.3.4", 8443, "one"),
            node("[2001:db8::1]", 80, "two#too"),
            node("a.com", 443, "three"),
            node("b.com", 443, "节点 5"),
            node("8080", 8080, "节点 6"),
            node("", 443, "five"),
            node("", 99, ""),
        ]
    );
    assert_eq!(process_nodes(vec![], "h:7"), vec![node("h", 7, "原生节点")]);
    assert_eq!(process_nodes(vec![], "8080"), vec![node("8080", 8080, "原生节点")]);
    assert_eq!(process_nodes(vec![], "443"), vec![node("443", 443, "原生节点")]);
}

#[test]
fn links_are_listed() {
    let list = words(&["1.2.3.4:8443#a b", "c.com"]);
    match generate_v2ray_config("my.host", &secret(), list) {
        Reply::Document { content_type, body } => {
            assert_eq!(content_type, "text/plain;charset=utf-8");
            assert_eq!(
                body,
                "vless://5ebe2294-ecd0-40f0-8eab-7690d2a6ee69@my.host:443?encryption=none\
                 &security=tls&sni=my.host&fp=chrome&type=ws&host=my.host&path=%2F%3Fed%3D2560\
                 #%E5%8E%9F%E7%94%9F%E8%8A%82%E7%82%B9\n\
                 vless://5ebe2294-ecd0-40f0-8eab-7690d2a6ee69@1.2.3.4:8443?encryption=none\
                 &security=tls&sni=my.host&fp=chrome&type=ws&host=my.host&path=%2F%3Fed%3D2560\
                 #a%20b\n\
                 vless://5ebe2294-ecd0-40f0-8eab-7690d2a6ee69@c.com:443?encryption=none\
                 &security=tls&sni=my.host&fp=chrome&type=ws&host=my.host&path=%2F%3Fed%3D2560\
                 #%E8%8A%82%E7%82%B9%203"
            );
        }
        _ => panic!(),
    }
}

#[test]
fn yaml_is_made() {
    match generate_clash_config("my.host", &secret(), words(&["1.2.3.4:8443#one"])) {
        Reply::Document { content_type, body } => {
            assert_eq!(content_type, "text/plain;charset=utf-8");
            assert_eq!(
                body,
                r#"proxies:
  - name: 原生节点
    type: vless
    server: my.host
    port: 443
    uuid: 5ebe2294-ecd0-40f0-8eab-7690d2a6ee69
    udp: true
    tls: true
    sni: my.host
    network: ws
    ws-opts:
      path: "/?ed=2560"
      headers:
        Host: my.host
  - name: one
    type: vless
    server: 1.2.3.4
    port: 8443
    uuid: 5ebe2294-ecd0-40f0-8eab-7690d2a6ee69
    udp: true
    tls: true
    sni: my.host
    network: ws
    ws-opts:
      path: "/?ed=2560"
      headers:
        Host: my.host

proxy-groups:
  - name: 节点选择
    type: select
    proxies:
    - 原生节点
    - one
  - name: 自动选择
    type: url-test
    url: https://www.google.com/generate_204
    interval: 300
    proxies:
    - 原生节点
    - one

rules:
  - MATCH,节点选择
"#
            );
        }
        _ => panic!(),
    }
}

#[test]
fn people_get_a_page() {
    match tips_page(&secret()) {
        Reply::Html(page) => assert_eq!(
            page,
            r#"
<!DOCTYPE html>
<html>
<head>
    <title>订阅-secret</title>
    <meta charset="utf-8">
    <style>
      body { font-size: 25px; text-align: center; font-family: sans-serif; }
      strong { color: #4a4a4a; }
    </style>
</head>
<body>
    <strong>请把链接导入 clash 或 v2ray 客户端</strong>
</body>
</html>
"#
        ),
        _ => panic!(),
    }
}

#[test]
fn documents_are_picked() {
    let c = secret();
    assert!(handle_subscription("V2RayN/6.0", &c) == Document::V2ray);
    assert!(handle_subscription("ClashMeta v2rayN", &c) == Document::V2ray);
    assert!(handle_subscription("CLASH-verge", &c) == Document::Clash);
    assert!(handle_subscription("Mozilla/5.0", &c) == Document::Tips);
    assert!(pick_document("CLASH", &c) == Document::Tips);
    assert!(matches!(client_document("v2ray", &c), Ok(Document::V2ray)));
    assert!(matches!(client_document("clash", &c), Ok(Document::Clash)));
    match client_document("Clash", &c) {
        Err(Reply::Error { message, status }) => {
            assert_eq!((message.as_str(), status), ("Not Found", 404))
        }
        _ => panic!(),
    }
}

fn texts_of(reply: Reply<String>) -> (String, String) {
    match reply {
        Reply::Document { content_type, body } => (content_type, body),
        Reply::Html(page) => ("html".to_string(), page),
        Reply::Error { message, status } => (status.to_string(), message),
    }
}

#[test]
fn documents_are_made() {
    let c = secret();
    let list = || words(&["1.2.3.4:8443#one"]);
    let made = |d: Document| texts_of(make_document(d, "h", &c, list()));
    assert_eq!(made(Document::V2ray), texts_of(generate_v2ray_config("h", &c, list())));
    assert_eq!(made(Document::Clash), texts_of(generate_clash_config("h", &c, list())));
    assert_eq!(made(Document::Tips), texts_of(tips_page(&c)));
    assert_ne!(made(Document::V2ray), made(Document::Clash));
    assert!(names_nodes(Document::V2ray) && names_nodes(Document::Clash));
    assert!(!names_nodes(Document::Tips));
}

#[test]
fn paths_are_read() {
    assert!(matches!(entry_of(true, "/secret"), Entry::Subscription(s) if s == "secret"));
    match entry_of(true, "/secret/clash") {
        Entry::Client(sub_path, client) => {
            assert_eq!((sub_path.as_str(), client.as_str()), ("secret", "clash"))
        }
        _ => panic!(),
    }
    assert!(matches!(entry_of(false, "/secret"), Entry::Other));
    for path in ["", "/", "//", "secret", "/secret/", "//clash", "/a/b/c", "/a/b/", "/a//"] {
        assert!(matches!(entry_of(true, path), Entry::Other), "{}", path);
    }
}

#[test]
fn other_requests_are_routed() {
    let c = secret();
    assert!(matches!(route_fallback("WebSocket", "/secret", &c), Fallback::Tunnel));
    assert!(matches!(route_request(true, "/", &c), Fallback::Tunnel));
    match route_fallback("", "/secrethttps://a.com/x", &c) {
        Fallback::Proxy(url) => assert_eq!(url, "https://a.com/x"),
        _ => panic!(),
    }
    match route_fallback("", "/secret", &c) {
        Fallback::Answer(Reply::Error { message, status }) => {
            assert_eq!((message.as_str(), status), ("Target URL for proxy is empty", 400))
        }
        _ => panic!(),
    }
    match route_fallback("h2c", "/other", &c) {
        Fallback::Answer(Reply::Error { message, status }) => {
            assert_eq!((message.as_str(), status), ("Not Found", 404))
        }
        _ => panic!(),
    }
    match handle_reverse_proxy("/a/b", "/a") {
        Fallback::Proxy(url) => assert_eq!(url, "/b"),
        _ => panic!(),
    }
}

#[test]
fn secret_paths_are_encoded() {
    let c = AppConfig::from_env(no_vars(), "订阅 路径");
    match route_request(false, "/%E8%AE%A2%E9%98%85%20%E8%B7%AF%E5%BE%84/x", &c) {
        Fallback::Proxy(url) => assert_eq!(url, "/x"),
        _ => panic!(),
    }
}
