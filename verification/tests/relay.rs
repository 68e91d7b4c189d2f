//! The relay.

use base64::engine::general_purpose::{STANDARD, URL_SAFE};
use base64::Engine;
use edgetunnel::environment::EnvVars;
use edgetunnel::relay::config::{generate_uuid, Config};
use edgetunnel::relay::dial::{
    connect_socket, continue_connection, convert_ipv4_to_nat64, proxy_target,
    resolve_domain_to_ipv4, Action, DnsRecord, Event, Stage,
};
use edgetunnel::relay::error::Error;
use edgetunnel::relay::header::{base64_decode, parse_vless_header, verify_vless_key};
use edgetunnel::relay::nodes::{has_list, process_preferred_list};
use edgetunnel::relay::pages::{clash_config_file, make_document, tips_page, vless_config_file};
use edgetunnel::relay::routes::{
    document_by_agent, pick_document, route_request, route_with_header, Document, Route,
};
use edgetunnel::relay::stream::{client_step, handle_upgrade_websocket, server_step};
use edgetunnel::reply::Reply;
use edgetunnel::traffic::{ClientEvent, ClientStep, ServerEvent};

const UUID: &str = "73656372-0000-4000-8000-657400000000";
const KEY: [u8; 16] = [0x73, 0x65, 0x63, 0x72, 0, 0, 0x40, 0, 0x80, 0, 0x65, 0x74, 0, 0, 0, 0];

fn words(list: &[&str]) -> Vec<String> {
    list.iter().map(|s| s.to_string()).collect()
}

fn vars(sub_path: &str) -> EnvVars {
    EnvVars {
        sub_path: Some(sub_path.to_string()),
        txt_url: None,
        nat64: None,
        doh: None,
        proxy_ip: None,
    }
}

fn secret() -> Config {
    Config::configure(vars("secret"))
}

fn header(
    key: &[u8],
    addons: &[u8],
    command: u8,
    port: u16,
    kind: u8,
    address: &[u8],
    data: &[u8],
) -> Vec<u8> {
    let mut d = vec![0];
    d.extend_from_slice(key);
    d.push(addons.len() as u8);
    d.extend_from_slice(addons);
    d.push(command);
    d.extend_from_slice(&port.to_be_bytes());
    d.push(kind);
    d.extend_from_slice(address);
    d.extend_from_slice(data);
    d
}

fn refusal(data: &[u8]) -> String {
    match parse_vless_header(data, UUID) {
        Ok(_) => panic!("accepted"),
        Err(e) => e.message(),
    }
}

#[test]
fn relay_settings_have_defaults() {
    let c = Config::default();
    assert_eq!(c.sub_path, "订阅路径");
    assert_eq!(c.uuid, "");
    assert_eq!(c.txt_url, "https://raw.githubusercontent.com/ImLTHQ/edgetunnel/main/AutoTest.txt");
    assert_eq!(c.nat64_prefix, "2a02:898:146:64::");
    assert_eq!(c.doh_address, "1.1.1.1");
    assert_eq!(c.proxy_ip, "proxyip.cmliussss.net");
    assert_eq!((c.vless(), c.clash()), ("v2ray".to_string(), "clash".to_string()));
    assert_eq!(Config::from_env(None, "url").sub_path, "url");
    let c = Config::from_env(Some("env".into()), "url");
    assert_eq!((c.sub_path.as_str(), c.uuid.as_str()), ("env", ""));
}

#[test]
fn relay_settings_come_from_the_environment() {
    let c = Config::configure(EnvVars {
        sub_path: Some("secret".into()),
        txt_url: Some("".into()),
        nat64: Some("64::".into()),
        doh: Some("9.9.9.9".into()),
        proxy_ip: Some("p:1".into()),
    });
    assert_eq!((c.sub_path.as_str(), c.uuid.as_str()), ("secret", UUID));
    assert_eq!((c.txt_url.as_str(), c.nat64_prefix.as_str()), ("", "64::"));
    assert_eq!((c.doh_address.as_str(), c.proxy_ip.as_str()), ("9.9.9.9", "p:1"));
    let mut none = vars("");
    none.sub_path = None;
    assert_eq!(Config::configure(none).uuid, "e8aea2e9-0000-4000-8000-9885e8b7afe5");
}

#[test]
fn relay_uuids_are_read_off_the_path() {
    assert_eq!(generate_uuid(""), "00000000-0000-4000-8000-000000000000");
    assert_eq!(generate_uuid("secret"), UUID);
    assert_eq!(generate_uuid("订阅路径"), "e8aea2e9-0000-4000-8000-9885e8b7afe5");
    assert_eq!(generate_uuid("abcdefghijkl"), "61626364-0000-4000-8000-65666768696a");
}

#[test]
fn relay_keys_are_written() {
    assert_eq!(verify_vless_key(&KEY), UUID);
    let long: Vec<u8> = (0..20).map(|i| i * 12).collect();
    assert_eq!(verify_vless_key(&long), "000c1824-303c-4854-606c-7884909ca8b4");
}

#[test]
fn relay_protocol_headers_are_decoded() {
    let bytes = vec![0xfb, 0xff, 0xfe, 0x3e, 0x00];
    assert!(matches!(base64_decode(&STANDARD.encode(&bytes)), Ok(b) if b == bytes));
    assert!(matches!(base64_decode(&URL_SAFE.encode(&bytes)), Ok(b) if b == bytes));
    match base64_decode("A-") {
        Ok(_) => panic!(),
        Err(e) => {
            let by_crate = STANDARD.decode("A+").unwrap_err();
            assert_eq!(e.message(), format!("Base64 decode error: {}", by_crate));
        }
    }
}

#[test]
fn relay_headers_are_read_as_written() {
    let d = header(&KEY, &[7, 7], 1, 0x1f90, 1, &[8, 8, 4, 4], b"abc");
    match parse_vless_header(&d, UUID) {
        Ok(q) => {
            assert_eq!((q.address.as_str(), q.port), ("8.8.4.4", 8080));
            assert_eq!(q.initial_data, b"abc");
        }
        Err(e) => panic!("{}", e.message()),
    }
    let d = header(&KEY, &[], 1, 443, 2, "\u{6}节点".as_bytes(), b"");
    match parse_vless_header(&d, UUID) {
        Ok(q) => {
            assert_eq!((q.address.as_str(), q.port), ("节点", 443));
            assert!(q.initial_data.is_empty());
        }
        Err(e) => panic!("{}", e.message()),
    }
    let mut ip = [0u8; 16];
    ip[0] = 0x20;
    ip[1] = 0x01;
    ip[15] = 0xa;
    let d = header(&KEY, &[], 2, 53, 3, &ip, &[1, 2]);
    match parse_vless_header(&d, UUID) {
        Ok(q) => {
            assert_eq!((q.address.as_str(), q.port), ("2001:0:0:0:0:0:0:a", 53));
            assert_eq!(q.initial_data, vec![1, 2]);
        }
        Err(e) => panic!("{}", e.message()),
    }
}

#[test]
fn relay_headers_that_end_early_are_refused() {
    let whole = header(&KEY, &[], 1, 443, 1, &[1, 2, 3, 4], &[]);
    assert_eq!(refusal(&whole[..17]), "Invalid VLESS header");
    assert_eq!(refusal(&whole[..18]), "Invalid port index");
    assert_eq!(refusal(&whole[..20]), "Invalid port index");
    assert_eq!(refusal(&whole[..21]), "Invalid address type index");
    assert_eq!(refusal(&whole[..25]), "Invalid IPv4 address");
    assert_eq!(refusal(&header(&KEY, &[], 1, 1, 2, &[], &[])), "Invalid domain length");
    assert_eq!(refusal(&header(&KEY, &[], 1, 1, 2, b"\x04abc", &[])), "Invalid domain address");
    assert_eq!(refusal(&header(&KEY, &[], 1, 1, 3, &[0; 15], &[])), "Invalid IPv6 address");
}

#[test]
fn relay_headers_that_make_no_sense_are_refused() {
    assert_eq!(refusal(&header(&KEY, &[], 1, 1, 0, &[0; 16], &[])), "Unknown address type");
    let by_std = String::from_utf8(vec![0xff]).unwrap_err();
    assert_eq!(refusal(&header(&KEY, &[], 1, 1, 2, &[1, 0xff], &[])), by_std.to_string());
    let mut key = KEY;
    key[0] ^= 0x80;
    assert_eq!(refusal(&header(&key, &[], 1, 1, 1, &[1, 2, 3, 4], &[])), "Invalid UUID");
    assert_eq!(refusal(&[0; 18]), "Invalid UUID");
}

#[test]
fn relay_tunnels_are_opened_by_the_path() {
    let c = secret();
    let d = header(&KEY, &[], 1, 443, 2, b"\x05a.com", b"x");
    match handle_upgrade_websocket(Some(STANDARD.encode(&d)), &c) {
        Ok(Some(q)) => {
            assert_eq!((q.address.as_str(), q.port), ("a.com", 443));
            assert_eq!(q.initial_data, b"x");
        }
        _ => panic!(),
    }
    assert!(matches!(handle_upgrade_websocket(None, &c), Ok(None)));
    assert!(matches!(handle_upgrade_websocket(Some("*".into()), &c), Err(Error::Base64(_))));
    assert!(matches!(handle_upgrade_websocket(Some("".into()), &c), Err(Error::InvalidHeader)));
}

#[test]
fn relay_traffic_is_carried() {
    assert!(matches!(client_step(ClientEvent::Bytes(vec![1])), ClientStep::Write(d) if d == [1]));
    assert!(matches!(client_step(ClientEvent::Text), ClientStep::Stop));
    assert!(matches!(client_step(ClientEvent::Failed), ClientStep::Stop));
    assert!(matches!(client_step(ClientEvent::Ended), ClientStep::Stop));
    assert_eq!(server_step(&[1, 2, 3], ServerEvent::Read(3)), Some(vec![1, 2, 3]));
    assert_eq!(server_step(&[1, 2, 3], ServerEvent::Read(0)), None);
    assert_eq!(server_step(&[1, 2, 3], ServerEvent::Failed), None);
    assert_eq!(server_step(&[1, 2, 3], ServerEvent::Ended), None);
}

#[test]
fn relay_nat64_addresses_are_made() {
    assert_eq!(
        convert_ipv4_to_nat64([1, 2, 30, 255], "2a02:898:146:64::"),
        "[2a02:898:146:64::0102:1eff]"
    );
    assert_eq!(convert_ipv4_to_nat64([0, 0, 0, 0], "64:ff9b::/96/x"), "[64:ff9b::0000:0000]");
}

#[test]
fn relay_proxies_have_ports() {
    assert_eq!(proxy_target("p.net"), ("p.net".to_string(), 443));
    assert_eq!(proxy_target("p.net:8443"), ("p.net".to_string(), 8443));
    assert_eq!(proxy_target("p.net:8443:9"), ("p.net".to_string(), 8443));
    assert_eq!(proxy_target("p.net:x"), ("p.net".to_string(), 443));
    assert_eq!(proxy_target("2a02::1"), ("2a02".to_string(), 443));
}

#[test]
fn relay_names_are_resolved() {
    let record = |type_code: Option<u64>, data: Option<&str>| DnsRecord {
        type_code,
        data: data.map(|d| d.to_string()),
    };
    let found = resolve_domain_to_ipv4(Some(vec![
        record(None, Some("0.0.0.0")),
        record(Some(5), Some("alias")),
        record(Some(1), None),
        record(Some(1), Some("1.2.3.4")),
        record(Some(1), Some("5.6.7.8")),
    ]));
    assert!(matches!(found, Ok([1, 2, 3, 4])));
    match resolve_domain_to_ipv4(Some(vec![record(Some(1), Some("alias"))])) {
        Ok(_) => panic!(),
        Err(e) => assert_eq!(e.message(), "Failed to parse IPv4 address"),
    }
    for answers in [None, Some(vec![]), Some(vec![record(Some(28), Some("::1"))])] {
        match resolve_domain_to_ipv4(answers) {
            Ok(_) => panic!(),
            Err(e) => assert_eq!(e.message(), "No A record found"),
        }
    }
}

/// The places that are tried when all of them refuse, and what is said at the end.
fn attempts(address: &str, config: &Config, answer: Option<[u8; 4]>) -> (Vec<(String, u16)>, String) {
    let mut tried = Vec::new();
    let (mut stage, mut action) = connect_socket(address, 80);
    loop {
        let event = match action {
            Action::Connect(host, port) => {
                tried.push((host, port));
                Event::Refused
            }
            Action::Resolve(url) => {
                assert_eq!(url, format!("https://1.1.1.1/dns-query?name={}&type=A", address));
                match answer {
                    Some(ipv4) => Event::Resolved(ipv4),
                    None => Event::Unresolved,
                }
            }
            Action::Use => panic!(),
            Action::Fail(e) => {
                assert!(stage == Stage::Done);
                return (tried, e.message());
            }
        };
        let (next_stage, next_action) = continue_connection(stage, event, address, 80, config);
        stage = next_stage;
        action = next_action;
    }
}

#[test]
fn relay_attempts_come_in_order() {
    let at = |h: &str, p: u16| (h.to_string(), p);
    let mut c = secret();
    c.nat64_prefix = "64::".into();
    c.proxy_ip = "p:1".into();
    let all = "All connection methods failed".to_string();
    assert_eq!(
        attempts("1.2.3.4", &c, None),
        (vec![at("1.2.3.4", 80), at("[64::0102:0304]", 80), at("p", 1)], all.clone())
    );
    assert_eq!(
        attempts("a.com", &c, Some([9, 8, 7, 6])),
        (vec![at("a.com", 80), at("[64::0908:0706]", 80), at("p", 1)], all)
    );
    assert_eq!(
        attempts("a.com", &c, None),
        (vec![at("a.com", 80)], "Failed to resolve domain".to_string())
    );
    c.proxy_ip = "".into();
    assert_eq!(
        attempts("1.2.3.4", &c, None),
        (
            vec![at("1.2.3.4", 80), at("[64::0102:0304]", 80)],
            "NAT64 connection failed and no proxy configured".to_string()
        )
    );
    c.nat64_prefix = "".into();
    assert_eq!(
        attempts("1.2.3.4", &c, None),
        (
            vec![at("1.2.3.4", 80)],
            "Direct connection failed and no fallback configured".to_string()
        )
    );
    c.proxy_ip = "p".into();
    assert_eq!(
        attempts("1.2.3.4", &c, None),
        (
            vec![at("1.2.3.4", 80), at("p", 443)],
            "Direct and proxy connection failed".to_string()
        )
    );
}

#[test]
fn relay_uses_the_first_connection() {
    for stage in [Stage::Direct, Stage::Nat64, Stage::ProxyAfterNat64, Stage::ProxyOnly] {
        let (stage, action) = continue_connection(stage, Event::Connected, "a", 1, &secret());
        assert!(stage == Stage::Done);
        assert!(matches!(action, Action::Use));
    }
}

#[test]
fn relay_nodes_are_read() {
    assert!(has_list("x"));
    assert!(has_list(" "));
    assert!(!has_list(""));
    let list = words(&[
        "1.2.3.4:8443#one",
        "[2001:db8::1]:80#two#too",
        "a.com#three",
        "b.com:x",
        "8080",
        ":99#",
    ]);
    let nodes: Vec<(String, u16, String)> = process_preferred_list(&list, "h:7")
        .into_iter()
        .map(|n| (n.address, n.port, n.name))
        .collect();
    let node = |a: &str, p: u16, n: &str| (a.to_string(), p, n.to_string());
    assert_eq!(
        nodes,
        vec![
            node("h:7", 443, "原生节点"),
            node("1.2.3.4", 8443, "one"),
            node("[2001:db8::1]", 80, "two"),
            node("", 443, "three"),
            node("b.com", 443, "节点 4"),
            node("", 443, "节点 5"),
            node("", 99, ""),
        ]
    );
}

#[test]
fn relay_links_are_listed() {
    match vless_config_file(&secret(), &words(&["1.2.3.4:8443#a b"]), "my.host") {
        Reply::Document { content_type, body } => {
            assert_eq!(content_type, "text/plain;charset=utf-8");
            assert_eq!(
                body,
                "vless://73656372-0000-4000-8000-657400000000@my.host:443?encryption=none\
                 &security=tls&sni=my.host&fp=chrome&type=ws&host=my.host&path=%2F%3Fed%3D2560\
                 #%E5%8E%9F%E7%94%9F%E8%8A%82%E7%82%B9\n\
                 vless://73656372-0000-4000-8000-657400000000@1.2.3.4:8443?encryption=none\
                 &security=tls&sni=my.host&fp=chrome&type=ws&host=my.host&path=%2F%3Fed%3D2560\
                 #a%20b"
            );
        }
        _ => panic!(),
    }
}

#[test]
fn relay_yaml_is_made() {
    match clash_config_file(&secret(), &words(&["1.2.3.4:8443#one"]), "my.host") {
        Reply::Document { content_type, body } => {
            assert_eq!(content_type, "text/plain;charset=utf-8");
            let names = "    - 原生节点\n    - one";
            assert_eq!(
                body,
                format!(
                    "proxies:
- name: 原生节点
  type: vless
  server: my.host
  port: 443
  uuid: 73656372-0000-4000-8000-657400000000
  udp: true
  tls: true
  sni: my.host
  network: ws
  ws-opts:
    path: \"/?ed=2560\"
    headers:
      Host: my.host
      User-Agent: Chrome
- name: one
  type: vless
  server: 1.2.3.4
  port: 8443
  uuid: 73656372-0000-4000-8000-657400000000
  udp: true
  tls: true
  sni: my.host
  network: ws
  ws-opts:
    path: \"/?ed=2560\"
    headers:
      Host: my.host
      User-Agent: Chrome
proxy-groups:
- name: 海外规则
  type: select
  proxies:
    - 延迟优选
    - 故障转移
    - DIRECT
    - REJECT
{}
- name: 国内规则
  type: select
  proxies:
    - DIRECT
    - 延迟优选
    - 故障转移
    - REJECT
{}
- name: 广告屏蔽
  type: select
  proxies:
    - REJECT
    - DIRECT
    - 延迟优选
    - 故障转移
{}
- name: 延迟优选
  type: url-test
  url: https://www.google.com/generate_204   \n  interval: 30
  tolerance: 50
  proxies:
{}
- name: 故障转移
  type: fallback
  url: https://www.google.com/generate_204   \n  interval: 30
  proxies:
{}
rules:
  - GEOSITE,category-ads-all,广告屏蔽
  - GEOSITE,cn,国内规则
  - GEOIP,CN,国内规则,no-resolve
  - MATCH,海外规则",
                    names, names, names, names, names
                )
            );
        }
        _ => panic!(),
    }
}

#[test]
fn relay_people_get_a_page() {
    match tips_page(&secret()) {
        Reply::Html(page) => assert_eq!(
            page,
            "<title>订阅-secret</title>
        <style>
            body {
                font-size: 25px;
                text-align: center;
            }
        </style>
        <strong>请把链接导入 clash 或 v2ray</strong>"
        ),
        _ => panic!(),
    }
}

#[test]
fn relay_documents_are_picked() {
    let c = secret();
    assert!(document_by_agent("V2RayN/6.0", &c) == Document::Links);
    assert!(document_by_agent("ClashMeta v2rayN", &c) == Document::Links);
    assert!(document_by_agent("CLASH-verge", &c) == Document::Yaml);
    assert!(document_by_agent("Mozilla/5.0", &c) == Document::Tips);
    assert!(pick_document("CLASH", &c) == Document::Tips);
}

fn texts_of(reply: Reply<String>) -> (String, String) {
    match reply {
        Reply::Document { content_type, body } => (content_type, body),
        Reply::Html(page) => ("html".to_string(), page),
        Reply::Error { message, status } => (status.to_string(), message),
    }
}

#[test]
fn relay_documents_are_made() {
    let c = secret();
    let list = words(&["1.2.3.4:8443#one"]);
    let made = |d: Document| texts_of(make_document(d, &c, &list, "h"));
    assert_eq!(made(Document::Links), texts_of(vless_config_file(&c, &list, "h")));
    assert_eq!(made(Document::Yaml), texts_of(clash_config_file(&c, &list, "h")));
    assert_eq!(made(Document::Tips), texts_of(tips_page(&c)));
    assert_ne!(made(Document::Links), made(Document::Yaml));
}

#[test]
fn relay_requests_are_routed() {
    let c = Config::configure(vars("订阅路径"));
    let root = "/%E8%AE%A2%E9%98%85%E8%B7%AF%E5%BE%84";
    let at = |websocket: bool, rest: &str, query: Option<&str>| {
        route_request(websocket, &format!("{}{}", root, rest), query.map(|q| q.to_string()), &c)
    };
    assert!(matches!(at(false, "/v2ray", None), Route::Document(Document::Links)));
    assert!(matches!(at(false, "/clash", None), Route::Document(Document::Yaml)));
    assert!(matches!(at(false, "", None), Route::ByAgent));
    assert!(matches!(at(true, "/v2ray", None), Route::Tunnel));
    assert!(matches!(at(true, "/clash", None), Route::Tunnel));
    assert!(matches!(at(true, "", None), Route::Tunnel));
    match at(false, "/https%3A%2F%2Fa.com%2F", Some("x=1")) {
        Route::Proxy(url) => assert_eq!(url, "https://a.com/x=1"),
        _ => panic!(),
    }
    match at(true, "/https://a.com/%zz%41", None) {
        Route::Proxy(url) => assert_eq!(url, "https://a.com/%zzA"),
        _ => panic!(),
    }
    match at(false, "/%ff", None) {
        Route::Proxy(url) => assert_eq!(url, "%ff"),
        _ => panic!(),
    }
    match at(false, "/", None) {
        Route::Proxy(url) => assert_eq!(url, ""),
        _ => panic!(),
    }
    match route_request(false, "/", None, &c) {
        Route::Answer(Reply::Error { message, status }) => {
            assert_eq!((message.as_str(), status), ("Not Found", 404))
        }
        _ => panic!(),
    }
}

#[test]
fn relay_upgrades_are_read_in_any_case() {
    let c = secret();
    let upgrade = |h: Option<&str>| route_with_header(h.map(|h| h.to_string()), "/", None, &c);
    assert!(matches!(upgrade(Some("WebSocket")), Route::Tunnel));
    assert!(matches!(upgrade(Some("h2c")), Route::Answer(_)));
    assert!(matches!(upgrade(None), Route::Answer(_)));
}

#[test]
fn relay_proxy_passes_on_what_is_encoded() {
    let c = secret();
    for url in ["https://a.com/b?c=d&e=%20", "节点 1/2", "100%"] {
        let path = format!("/secret/{}", urlencoding::encode(url));
        match route_request(false, &path, Some("q".to_string()), &c) {
            Route::Proxy(passed) => assert_eq!(passed, format!("{}q", url)),
            _ => panic!("{}", url),
        }
    }
}
