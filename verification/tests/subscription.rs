use xray2surge::hysteria2::insecure_choice;
use xray2surge::subscription::{content_from_bytes, hysteria_choice};
use base64::Engine;
use xray2surge::hysteria2::Hysteria2Config;
use xray2surge::subscription::{
    collect_links, decode_base64_content, deduplicate_proxy_names, is_filtered, link_lines,
    parse_include_hysteria, subscription_urls, ContentError, NoProxies, RequestError, Subscription,
};
use xray2surge::vless::{parse_vless_link, VlessConfig};

fn encode(s: &str) -> String {
    base64::engine::general_purpose::STANDARD.encode(s.as_bytes())
}

fn vless(name: &str, address: &str) -> VlessConfig {
    let mut c = parse_vless_link("vless://id@h.com:1").unwrap();
    c.name = name.to_string();
    c.address = address.to_string();
    c
}

#[test]
fn urls_are_comma_separated() {
    assert_eq!(
        subscription_urls(" https://a.example/s , ,https://b.example/t,"),
        vec!["https://a.example/s".to_string(), "https://b.example/t".to_string()]
    );
    assert!(subscription_urls(" , ").is_empty());
}

#[test]
fn hysteria_parameter() {
    assert!(parse_include_hysteria(None));
    assert!(!parse_include_hysteria(Some("false")));
    assert!(!parse_include_hysteria(Some("FALSE")));
    assert!(!parse_include_hysteria(Some("No")));
    assert!(!parse_include_hysteria(Some("0")));
    assert!(parse_include_hysteria(Some("true")));
    assert!(parse_include_hysteria(Some("YES")));
    assert!(parse_include_hysteria(Some("maybe")));
    assert!(parse_include_hysteria(Some("")));
}

#[test]
fn base64_content_decodes() {
    let body = format!("  {}\n", encode("vless://a@b:1\nhy2://c@d\n"));
    assert_eq!(decode_base64_content(&body).unwrap(), "vless://a@b:1\nhy2://c@d\n");
    assert_eq!(decode_base64_content("!!!").unwrap_err(), ContentError::InvalidBase64);
    assert_eq!(decode_base64_content("/w==").unwrap_err(), ContentError::InvalidUtf8);
    assert_eq!(decode_base64_content("").unwrap(), "");
}

#[test]
fn lines_are_trimmed() {
    assert_eq!(link_lines(" a \r\n\n b"), vec!["a".to_string(), "b".to_string()]);
}

#[test]
fn filter_by_keywords() {
    let kws = vec!["过期".to_string(), "Expire".to_string()];
    assert!(is_filtered("套餐过期: 2025", &kws));
    assert!(is_filtered("Expire soon", &kws));
    assert!(!is_filtered("HK 01", &kws));
    assert!(!is_filtered("anything", &[]));
}

#[test]
fn collect_tries_vless_first_then_hysteria2() {
    let text = "vless://a@h1.com:1#A\nhy2://pw@h2.com#B\ngarbage\nvless://a@h3.com:2#Expire\nhysteria2://pw@h4.com:5#C\n";
    let kws = vec!["Expire".to_string()];
    let mut v = Vec::new();
    let mut h = Vec::new();
    let mut f = Vec::new();
    collect_links(text, true, &kws, &mut v, &mut h, &mut f);
    assert_eq!(f, vec!["Expire".to_string()]);
    assert_eq!(v.len(), 1);
    assert_eq!(v[0].name, "A");
    assert_eq!(h.iter().map(|c| c.name.clone()).collect::<Vec<_>>(), vec!["B".to_string(), "C".to_string()]);
    let mut v2 = Vec::new();
    let mut h2: Vec<Hysteria2Config> = Vec::new();
    let mut f2 = Vec::new();
    collect_links(text, false, &kws, &mut v2, &mut h2, &mut f2);
    assert_eq!(f2, vec!["Expire".to_string()]);
    assert_eq!(v2.len(), 1);
    assert!(h2.is_empty());
}

#[test]
fn dedup_renames_shared_names() {
    let out = deduplicate_proxy_names(vec![vless("A", "h1"), vless("A", "h2"), vless("B", "h3")]);
    let names: Vec<String> = out.iter().map(|c| c.name.clone()).collect();
    assert_eq!(names, vec!["A-h1", "A-h2", "B"]);
    assert_eq!(out[2].address, "h3");
}

#[test]
fn dedup_same_name_and_address() {
    let out = deduplicate_proxy_names(vec![vless("A", "h"), vless("A", "h"), vless("A", "h")]);
    let names: Vec<String> = out.iter().map(|c| c.name.clone()).collect();
    assert_eq!(names, vec!["A-h", "A-h-1", "A-h-2"]);
}

#[test]
fn dedup_leaves_unique_names() {
    let out = deduplicate_proxy_names(vec![vless("A", "h"), vless("B", "h")]);
    let names: Vec<String> = out.iter().map(|c| c.name.clone()).collect();
    assert_eq!(names, vec!["A", "B"]);
    assert!(deduplicate_proxy_names(Vec::new()).is_empty());
}

#[test]
fn subscription_request_flow() {
    assert_eq!(Subscription::start(None, None).err(), Some(RequestError::MissingUrl));
    assert_eq!(Subscription::start(Some(" , "), None).err(), Some(RequestError::NoValidUrls));
    let mut s = Subscription::start(Some("https://a,https://b"), Some("no")).unwrap();
    assert_eq!(s.urls, vec!["https://a".to_string(), "https://b".to_string()]);
    assert!(!s.include_hysteria);
    let kws: Vec<String> = Vec::new();
    assert_eq!(s.accept_body("%%%", &kws), Err(ContentError::InvalidBase64));
    assert_eq!(s.accept_body(&encode("vless://x@a.com:1#N\nhy2://p@b.com#M"), &kws), Ok(vec![]));
    assert_eq!(s.accept_body(&encode("vless://y@c.com:2#N"), &kws), Ok(vec![]));
    assert_eq!(s.vless.len(), 2);
    assert!(s.hysteria2.is_empty());
    let (v, h) = s.finish().unwrap();
    assert_eq!(v[0].name, "N-a.com");
    assert_eq!(v[1].name, "N-c.com");
    assert!(h.is_empty());
    let empty = Subscription::start(Some("u"), None).unwrap();
    assert!(matches!(empty.finish(), Err(NoProxies)));
}

#[test]
fn choices_after_lowercasing() {
    assert!(!hysteria_choice("false"));
    assert!(!hysteria_choice("no"));
    assert!(hysteria_choice("False"));
    assert!(insecure_choice("1", "1"));
    assert!(insecure_choice("TRUE", "true"));
    assert!(!insecure_choice("TRUE", "TRUE"));
    assert_eq!(content_from_bytes("héllo".as_bytes().to_vec()).unwrap(), "héllo");
    assert_eq!(content_from_bytes(vec![0xc3, 0x28]).unwrap_err(), ContentError::InvalidUtf8);
}

#[test]
fn dedup_avoids_names_other_proxies_keep() {
    let out = deduplicate_proxy_names(vec![vless("A", "h"), vless("A", "h"), vless("A-h", "x")]);
    let names: Vec<String> = out.iter().map(|c| c.name.clone()).collect();
    assert_eq!(names, vec!["A-h-1", "A-h-2", "A-h"]);
}

#[test]
fn dedup_counter_skips_taken_names() {
    let out = deduplicate_proxy_names(vec![
        vless("A", "h"),
        vless("A", "h"),
        vless("A-h-1", "z"),
        vless("A-h-1", "z"),
    ]);
    let names: Vec<String> = out.iter().map(|c| c.name.clone()).collect();
    assert_eq!(names, vec!["A-h", "A-h-1", "A-h-1-z", "A-h-1-z-1"]);
}

#[test]
fn finish_tells_hysteria2_and_vless_apart_together() {
    let mut s = Subscription::start(Some("u"), None).unwrap();
    let kws: Vec<String> = vec!["Expire".to_string()];
    let body = encode("vless://x@a.com:1#HK\nhy2://p@b.com#HK\nhy2://p@c.com#JP\nhy2://p@d.com#JP\nhy2://p@e.com#Expire 1");
    assert_eq!(s.accept_body(&body, &kws), Ok(vec!["Expire 1".to_string()]));
    let (v, h) = s.finish().unwrap();
    assert_eq!(v[0].name, "HK-a.com");
    let hn: Vec<String> = h.iter().map(|c| c.name.clone()).collect();
    assert_eq!(hn, vec!["HK-b.com", "JP-c.com", "JP-d.com"]);
    assert_eq!(h[1].address, "c.com");
}

#[test]
fn content_error_messages() {
    assert_eq!(ContentError::InvalidBase64.message(), "invalid Base64");
    assert_eq!(ContentError::InvalidUtf8.message(), "invalid UTF-8");
}

#[test]
fn finish_tells_apart_names_surge_would_show_alike() {
    let mut s = Subscription::start(Some("u"), None).unwrap();
    let kws: Vec<String> = Vec::new();
    let body = encode("vless://x@a.com:1#HK%201\nvless://x@b.com:1#HK_1\nhy2://p@c.com#JP%2C%20fast");
    assert_eq!(s.accept_body(&body, &kws), Ok(vec![]));
    let (v, h) = s.finish().unwrap();
    assert_eq!(v[0].name, "HK_1-a.com");
    assert_eq!(v[1].name, "HK_1-b.com");
    assert_eq!(h[0].name, "JP__fast");
}

#[test]
fn renamed_names_are_shown_as_surge_shows_them() {
    let mut s = Subscription::start(Some("u"), None).unwrap();
    let kws: Vec<String> = Vec::new();
    let body = encode("vless://x@a.com:1#HK%20\nvless://x@b.com:1#HK");
    assert_eq!(s.accept_body(&body, &kws), Ok(vec![]));
    let (v, _) = s.finish().unwrap();
    assert_eq!(v[0].name, "HK_-a.com");
    assert_eq!(v[1].name, "HK-b.com");
}

#[test]
fn undecodable_body_leaves_subscription_unchanged() {
    let mut s = Subscription::start(Some("u,v"), Some("true")).unwrap();
    let kws: Vec<String> = Vec::new();
    assert_eq!(s.accept_body(&encode("vless://x@a.com:1#A\nhy2://p@b.com#B"), &kws), Ok(vec![]));
    let shown = |s: &Subscription| -> Vec<String> {
        s.vless.iter().map(|c| format!("{:?}", c)).chain(s.hysteria2.iter().map(|c| format!("{:?}", c))).collect()
    };
    let before = shown(&s);
    assert_eq!(before.len(), 2);
    assert_eq!(s.accept_body("not base64!", &kws), Err(ContentError::InvalidBase64));
    assert_eq!(s.accept_body(&base64::engine::general_purpose::STANDARD.encode([0xffu8, 0xfe]), &kws), Err(ContentError::InvalidUtf8));
    assert_eq!(shown(&s), before);
}

#[test]
fn encoded_content_round_trips_through_white_space() {
    assert_eq!(decode_base64_content(&format!(" \n{}\t ", encode("héllo\nwörld"))), Ok("héllo\nwörld".to_string()));
    assert_eq!(decode_base64_content(&encode("")), Ok(String::new()));
}
