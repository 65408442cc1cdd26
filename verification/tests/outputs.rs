use xray2surge::config::{Config, EnvVars};
use xray2surge::hysteria2::parse_hysteria2_link;
use xray2surge::surge::{generate_surge_list, sanitized_name, surge_list_with_restart_name};
use xray2surge::vless::parse_vless_link;
use xray2surge::xray::generate_xray_config;

fn no_vars() -> EnvVars {
    EnvVars {
        xray_path: None,
        config_file_name: None,
        config_path: None,
        socks_start_port: None,
        server_port: None,
        default_user_level: None,
        default_fingerprint: None,
        loopback_address: None,
        subscription_user_agent: None,
        filter_keywords: None,
    }
}

fn app() -> Config {
    Config::from_values(&no_vars(), "/cfg/xray.json")
}

#[test]
fn config_defaults() {
    let c = app();
    assert_eq!(c.xray_path, "/opt/homebrew/bin/xray");
    assert_eq!(c.config_file_name, "xray.json");
    assert_eq!(c.config_path, "/cfg/xray.json");
    assert_eq!(c.socks_start_port, 50000);
    assert_eq!(c.server_port, 3123);
    assert_eq!(c.default_user_level, 8);
    assert_eq!(c.default_fingerprint, "safari");
    assert_eq!(c.loopback_address, "127.0.0.1");
    assert_eq!(c.subscription_user_agent, "v2rayNG/1.8.5");
    assert!(c.filter_keywords.is_empty());
}

#[test]
fn config_from_values() {
    let mut v = no_vars();
    v.socks_start_port = Some("40000".to_string());
    v.server_port = Some("70000".to_string());
    v.default_user_level = Some("+3".to_string());
    v.filter_keywords = Some(" 过期 ,, Expire ".to_string());
    v.config_path = Some("/x/y.json".to_string());
    v.default_fingerprint = Some("chrome".to_string());
    let c = Config::from_values(&v, "/ignored");
    assert_eq!(c.socks_start_port, 40000);
    assert_eq!(c.server_port, 3123);
    assert_eq!(c.default_user_level, 3);
    assert_eq!(c.filter_keywords, vec!["过期".to_string(), "Expire".to_string()]);
    assert_eq!(c.config_path, "/x/y.json");
    assert_eq!(c.default_fingerprint, "chrome");
}

#[test]
fn config_path_joins_current_dir() {
    let mut v = no_vars();
    v.config_file_name = Some("custom.json".to_string());
    let c = Config::from_vars(&v, "/srv/app");
    assert_eq!(c.config_file_name, "custom.json");
    assert_eq!(c.config_path, std::path::Path::new("/srv/app").join("custom.json").to_string_lossy());
    assert_eq!(c.config_path, "/srv/app/custom.json");
    assert_eq!(Config::from_vars(&v, "/srv/app/").config_path, "/srv/app/custom.json");
}

#[test]
fn names_are_sanitized() {
    assert_eq!(sanitized_name("  HK 01, fast\u{3000}x "), "HK_01__fast_x");
}

#[test]
fn surge_list_lines() {
    let a = parse_vless_link("vless://id@a.com:443#HK%2001").unwrap();
    let b = parse_vless_link("vless://id@b.com:443#JP,02").unwrap();
    let h = parse_hysteria2_link("hy2://pw@c.com:8443?insecure=1&sni=s.com#US").unwrap();
    let h2 = parse_hysteria2_link("hy2://pw@d.com#SG").unwrap();
    let out = surge_list_with_restart_name(&[a, b], &[h, h2], &app(), "xray_R");
    let expected = "[Proxy]\n\
xray_R = external, exec = \"/opt/homebrew/bin/xray\", local-port = 50000, args = \"run\", args = \"-c\", args = \"/cfg/xray.json\"\n\
HK_01 = external, exec = \"/opt/homebrew/bin/xray\", local-port = 50001, args = \"run\", args = \"-c\", args = \"/cfg/xray.json\"\n\
JP_02 = socks5, 127.0.0.1, 50002\n\
US = hysteria2, c.com, 8443, password=pw, skip-cert-verify=true, sni=s.com\n\
SG = hysteria2, d.com, 443, password=pw\n";
    assert_eq!(out, expected);
}

#[test]
fn surge_list_empty_without_proxies() {
    assert_eq!(surge_list_with_restart_name(&[], &[], &app(), "x"), "");
    assert_eq!(generate_surge_list(&[], &[], &app()), "");
}

#[test]
fn surge_list_restart_name_is_random_uuid() {
    let h = parse_hysteria2_link("hy2://pw@d.com#SG").unwrap();
    let out = generate_surge_list(&[], &[h.clone()], &app());
    let first = out.lines().nth(1).unwrap();
    let id = &first[5..37];
    assert!(first.starts_with("xray_"));
    assert!(id.chars().all(|c| c.is_ascii_hexdigit() && !c.is_ascii_uppercase()));
    assert_eq!(&first[37..], " = external, exec = \"/opt/homebrew/bin/xray\", local-port = 50000, args = \"run\", args = \"-c\", args = \"/cfg/xray.json\"");
    let again = generate_surge_list(&[], &[h], &app());
    assert_ne!(out, again);
}

#[test]
fn xray_config_for_proxies() {
    let a = parse_vless_link("vless://uid@a.com:443?security=reality&sni=s.com&pbk=K&sid=1#A").unwrap();
    let b = parse_vless_link("vless://uid2@b.com:8443?type=ws&security=tls&fp=firefox&path=/p&host=h.com#B").unwrap();
    let x = generate_xray_config(&[a, b], &app());
    assert_eq!(x.inbounds.len(), 2);
    assert_eq!(x.inbounds[0].tag, "proxy-0-in");
    assert_eq!(x.inbounds[1].port, 50002);
    assert_eq!(x.inbounds[1].listen, "127.0.0.1");
    assert_eq!(x.inbounds[0].protocol, "socks");
    assert_eq!(x.inbounds[0].settings.auth, "none");
    assert_eq!(x.outbounds[1].tag, "proxy-1-out");
    assert_eq!(x.outbounds[0].protocol, "vless");
    let s0 = &x.outbounds[0].stream_settings;
    assert_eq!(s0.network, "tcp");
    let r = s0.reality_settings.as_ref().unwrap();
    assert_eq!(r.server_name, "s.com");
    assert_eq!(r.public_key, "K");
    assert_eq!(r.short_id, "1");
    assert_eq!(r.fingerprint, "safari");
    assert!(!r.show);
    assert!(s0.tls_settings.is_none());
    assert!(s0.ws_settings.is_none());
    let s1 = &x.outbounds[1].stream_settings;
    assert!(s1.reality_settings.is_none());
    assert_eq!(s1.tls_settings.as_ref().unwrap().fingerprint, "firefox");
    assert_eq!(s1.ws_settings.as_ref().unwrap().headers.host, "h.com");
    assert_eq!(s1.ws_settings.as_ref().unwrap().path, "/p");
    let v = &x.outbounds[1].settings.vnext[0];
    assert_eq!(v.address, "b.com");
    assert_eq!(v.port, 8443);
    assert_eq!(v.users[0].id, "uid2");
    assert_eq!(v.users[0].level, 8);
    assert_eq!(v.users[0].encryption, "none");
    assert_eq!(x.routing.rules[1].type_, "field");
    assert_eq!(x.routing.rules[1].inbound_tag, vec!["proxy-1-in".to_string()]);
    assert_eq!(x.routing.rules[1].outbound_tag, "proxy-1-out");
}

#[test]
fn xray_config_empty() {
    let x = generate_xray_config(&[], &app());
    assert!(x.inbounds.is_empty() && x.outbounds.is_empty() && x.routing.rules.is_empty());
}
