use xray2surge::hysteria2::hysteria2_from_url;
use xray2surge::link::{proxy_name, query_get, url_parts, LinkError, UrlParts};
use xray2surge::vless::vless_from_url;

fn parts(host: Option<&str>, port: Option<u16>) -> UrlParts {
    UrlParts {
        username: "user".to_string(),
        host: host.map(|h| h.to_string()),
        port,
        query: vec![("security".to_string(), "reality".to_string())],
        fragment: None,
    }
}

#[test]
fn vless_from_url_requires_host_and_port() {
    assert_eq!(vless_from_url(&parts(None, Some(1)), "n".to_string()).unwrap_err(), LinkError::MissingHost);
    assert_eq!(vless_from_url(&parts(Some("h"), None), "n".to_string()).unwrap_err(), LinkError::MissingPort);
    let c = vless_from_url(&parts(Some("h"), Some(7)), "n".to_string()).unwrap();
    assert_eq!(c.uuid, "user");
    assert_eq!(c.flow, "xtls-rprx-vision");
    assert_eq!(c.name, "n");
}

#[test]
fn hysteria2_from_url_requires_host() {
    assert_eq!(hysteria2_from_url(&parts(None, None), "n".to_string()).unwrap_err(), LinkError::MissingHost);
    let c = hysteria2_from_url(&parts(Some("h"), None), "n".to_string()).unwrap();
    assert_eq!(c.port, 443);
    assert_eq!(c.password, "user");
}

#[test]
fn url_parts_reads_the_url() {
    let p = url_parts("vless://me@host.example:8443?a=1&b=x+y&a=2#frag%20x").unwrap();
    assert_eq!(p.username, "me");
    assert_eq!(p.host.as_deref(), Some("host.example"));
    assert_eq!(p.port, Some(8443));
    assert_eq!(
        p.query,
        vec![
            ("a".to_string(), "1".to_string()),
            ("b".to_string(), "x y".to_string()),
            ("a".to_string(), "2".to_string())
        ]
    );
    assert_eq!(p.fragment.as_deref(), Some("frag%20x"));
    assert_eq!(query_get(&p.query, "a").as_deref(), Some("2"));
    assert_eq!(query_get(&p.query, "c"), None);
    assert!(url_parts("not a url").is_none());
}

#[test]
fn proxy_name_decodes_or_defaults() {
    assert_eq!(proxy_name(&None, "proxy"), "proxy");
    assert_eq!(proxy_name(&Some("a%2Cb".to_string()), "proxy"), "a,b");
    assert_eq!(proxy_name(&Some("plain".to_string()), "proxy"), "plain");
    assert_eq!(proxy_name(&Some("%C3%28".to_string()), "proxy"), "%C3%28");
}
