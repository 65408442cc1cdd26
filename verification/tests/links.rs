use xray2surge::hysteria2::parse_hysteria2_link;
use xray2surge::link::LinkError;
use xray2surge::vless::parse_vless_link;

#[test]
fn vless_reality_link_parses_with_defaults() {
    let link = "vless://11111111-2222-3333-4444-555555555555@example.com:443?security=reality&sni=www.apple.com&pbk=PUBKEY&sid=ab12&fp=chrome#My%20Proxy";
    let c = parse_vless_link(link).unwrap();
    assert_eq!(c.uuid, "11111111-2222-3333-4444-555555555555");
    assert_eq!(c.address, "example.com");
    assert_eq!(c.port, 443);
    assert_eq!(c.type_, "tcp");
    assert_eq!(c.encryption, "none");
    assert_eq!(c.security, "reality");
    assert_eq!(c.flow, "xtls-rprx-vision");
    assert_eq!(c.sni, "www.apple.com");
    assert_eq!(c.pbk, "PUBKEY");
    assert_eq!(c.sid, "ab12");
    assert_eq!(c.fp, "chrome");
    assert_eq!(c.name, "My Proxy");
    assert_eq!(c.path, "");
    assert_eq!(c.host, "");
}

#[test]
fn vless_ws_link_keeps_given_values() {
    let link = "vless://id@1.2.3.4:8080?type=ws&security=tls&flow=custom&encryption=auto&path=%2Fws&host=cdn.example.com";
    let c = parse_vless_link(link).unwrap();
    assert_eq!(c.address, "1.2.3.4");
    assert_eq!(c.port, 8080);
    assert_eq!(c.type_, "ws");
    assert_eq!(c.security, "tls");
    assert_eq!(c.flow, "custom");
    assert_eq!(c.encryption, "auto");
    assert_eq!(c.path, "/ws");
    assert_eq!(c.host, "cdn.example.com");
    assert_eq!(c.name, "proxy");
}

#[test]
fn vless_reality_with_flow_keeps_it() {
    let c = parse_vless_link("vless://id@h.com:1?security=reality&flow=other").unwrap();
    assert_eq!(c.flow, "other");
}

#[test]
fn vless_later_parameter_wins() {
    let c = parse_vless_link("vless://id@h.com:1?sni=a.com&sni=b.com").unwrap();
    assert_eq!(c.sni, "b.com");
}

#[test]
fn vless_name_with_bad_escape_is_kept() {
    let c = parse_vless_link("vless://id@h.com:1#%FF%FE").unwrap();
    assert_eq!(c.name, "%FF%FE");
}

#[test]
fn vless_chinese_name_is_decoded() {
    let c = parse_vless_link("vless://id@h.com:1#%E9%A6%99%E6%B8%AF").unwrap();
    assert_eq!(c.name, "香港");
}

#[test]
fn vless_errors() {
    assert_eq!(parse_vless_link("hy2://p@h.com:1").unwrap_err(), LinkError::NotVless);
    assert_eq!(parse_vless_link("VLESS://id@h.com:1").unwrap_err(), LinkError::NotVless);
    assert_eq!(parse_vless_link("vless://id@h.com").unwrap_err(), LinkError::MissingPort);
    assert_eq!(parse_vless_link("vless://id@[::1:443").unwrap_err(), LinkError::InvalidUrl);
    assert_eq!(parse_vless_link("vless://id@h.com:99999").unwrap_err(), LinkError::InvalidUrl);
}

#[test]
fn hysteria2_link_parses() {
    let c = parse_hysteria2_link("hysteria2://secret@hy.example.com?insecure=1&sni=sni.example.com#HK%201").unwrap();
    assert_eq!(c.password, "secret");
    assert_eq!(c.address, "hy.example.com");
    assert_eq!(c.port, 443);
    assert!(c.insecure);
    assert_eq!(c.sni, "sni.example.com");
    assert_eq!(c.name, "HK 1");
}

#[test]
fn hy2_short_scheme_and_defaults() {
    let c = parse_hysteria2_link("hy2://pw@1.2.3.4:8443?insecure=TRUE").unwrap();
    assert_eq!(c.port, 8443);
    assert!(c.insecure);
    assert_eq!(c.sni, "");
    assert_eq!(c.name, "hysteria2-proxy");
    let d = parse_hysteria2_link("hy2://pw@1.2.3.4:8443?insecure=0").unwrap();
    assert!(!d.insecure);
    let e = parse_hysteria2_link("hy2://pw@1.2.3.4").unwrap();
    assert!(!e.insecure);
}

#[test]
fn hysteria2_errors() {
    assert_eq!(parse_hysteria2_link("vless://id@h.com:1").unwrap_err(), LinkError::NotHysteria2);
    assert_eq!(parse_hysteria2_link("hy2://pw@[::1").unwrap_err(), LinkError::InvalidUrl);
}

#[test]
fn link_error_messages() {
    assert_eq!(LinkError::NotVless.message(), "Not a vless link");
    assert_eq!(LinkError::NotHysteria2.message(), "Not a hysteria2 link");
    assert_eq!(LinkError::InvalidUrl.message(), "Failed to parse URL");
    assert_eq!(LinkError::MissingHost.message(), "Missing host");
    assert_eq!(LinkError::MissingPort.message(), "Missing port");
}
