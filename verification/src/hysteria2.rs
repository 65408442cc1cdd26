//! Hysteria2 links: `hysteria2://<password>@<host>[:<port>]?<parameters>#<name>`
//! (or `hy2://`).
use vstd::prelude::*;
use crate::link::{
    opt_view, parsed_url, proxy_name, proxy_name_of, query_get, query_get_or, query_value,
    query_value_or, url_parts, LinkError, UrlParts, UrlPartsView,
};
use crate::text::{copy_string, has_prefix, lowercase, text_eq, text_has_prefix, to_lowercase};

verus! {

/// A Hysteria2 proxy, as its link describes it.
#[derive(Debug, Clone)]
pub struct Hysteria2Config {
    pub password: String,
    pub address: String,
    pub port: u16,
    pub insecure: bool,
    pub sni: String,
    pub name: String,
}

/// The mathematical model of [`Hysteria2Config`].
#[verifier::ext_equal]
pub struct Hysteria2View {
    pub password: Seq<char>,
    pub address: Seq<char>,
    pub port: u16,
    pub insecure: bool,
    pub sni: Seq<char>,
    pub name: Seq<char>,
}

impl View for Hysteria2Config {
    type V = Hysteria2View;

    open spec fn view(&self) -> Hysteria2View {
        Hysteria2View {
            password: self.password@,
            address: self.address@,
            port: self.port,
            insecure: self.insecure,
            sni: self.sni@,
            name: self.name@,
        }
    }
}

/// The views of a sequence of Hysteria2 proxies.
pub open spec fn hysteria2_views(s: Seq<Hysteria2Config>) -> Seq<Hysteria2View> {
    s.map_values(|c: Hysteria2Config| c@)
}

/// The view of a Hysteria2 parse result.
pub open spec fn hysteria2_result_view(r: Result<Hysteria2Config, LinkError>) -> Result<
    Hysteria2View,
    LinkError,
> {
    match r {
        Ok(c) => Ok(c@),
        Err(e) => Err(e),
    }
}

/// Whether the `insecure` parameter asks to skip certificate checks:
/// it is `1`, or `true` in any case.
pub open spec fn insecure_flag(v: Option<Seq<char>>) -> bool {
    match v {
        Some(v) => v == "1"@ || lowercase(v) == "true"@,
        None => false,
    }
}

/// The port that a Hysteria2 link uses: the one it gives, 443 by default.
pub open spec fn hysteria2_port(port: Option<u16>) -> u16 {
    match port {
        Some(p) => p,
        None => 443,
    }
}

/// The Hysteria2 proxy that a parsed URL describes, named `name`: the host is
/// required; the password is the URL's user name.
pub open spec fn hysteria2_from_parts(p: UrlPartsView, name: Seq<char>) -> Result<
    Hysteria2View,
    LinkError,
> {
    match p.host {
        None => Err(LinkError::MissingHost),
        Some(host) => Ok(
            Hysteria2View {
                password: p.username,
                address: host,
                port: hysteria2_port(p.port),
                insecure: insecure_flag(query_value(p.query, "insecure"@)),
                sni: query_value_or(p.query, "sni"@, Seq::empty()),
                name: name,
            },
        ),
    }
}

/// The link starts with `hysteria2://` or `hy2://`.
pub open spec fn is_hysteria2_link(link: Seq<char>) -> bool {
    has_prefix(link, "hysteria2://"@) || has_prefix(link, "hy2://"@)
}

/// What parsing `link` as a Hysteria2 link gives: it must start with
/// `hysteria2://` or `hy2://` and parse as a URL; the name is the decoded
/// fragment, `hysteria2-proxy` by default.
pub open spec fn hysteria2_link_result(link: Seq<char>) -> Result<Hysteria2View, LinkError> {
    if !is_hysteria2_link(link) {
        Err(LinkError::NotHysteria2)
    } else {
        match parsed_url(link) {
            None => Err(LinkError::InvalidUrl),
            Some(p) => hysteria2_from_parts(p, proxy_name_of(p.fragment, "hysteria2-proxy"@)),
        }
    }
}

/// Whether an `insecure` parameter asks to skip certificate checks, given
/// its value and the value lower-cased.
pub fn insecure_choice(value: &str, lowered: &str) -> (b: bool)
    ensures
        b == (value@ == "1"@ || lowered@ == "true"@),
{
    text_eq(value, "1") || text_eq(lowered, "true")
}

/// Whether the `insecure` parameter asks to skip certificate checks.
pub fn parse_insecure(v: &Option<String>) -> (b: bool)
    ensures
        b == insecure_flag(opt_view(*v)),
{
    match v {
        Some(v) => {
            let lowered = to_lowercase(v.as_str());
            insecure_choice(v.as_str(), lowered.as_str())
        },
        None => false,
    }
}

/// The Hysteria2 proxy that the parts of a parsed URL describe, named `name`.
pub fn hysteria2_from_url(parts: &UrlParts, name: String) -> (r: Result<Hysteria2Config, LinkError>)
    ensures
        hysteria2_result_view(r) == hysteria2_from_parts(parts@, name@),
{
    let address = match &parts.host {
        Some(h) => copy_string(h.as_str()),
        None => return Err(LinkError::MissingHost),
    };
    let port = match parts.port {
        Some(p) => p,
        None => 443,
    };
    proof {
        reveal_strlit("");
    }
    let insecure = parse_insecure(&query_get(&parts.query, "insecure"));
    let sni = query_get_or(&parts.query, "sni", "");
    let r = Hysteria2Config {
        password: copy_string(parts.username.as_str()),
        address,
        port,
        insecure,
        sni,
        name,
    };
    assert(r@ =~= hysteria2_from_parts(parts@, name@)->Ok_0);
    Ok(r)
}

/// Parses a `hysteria2://` or `hy2://` link.
pub fn parse_hysteria2_link(link: &str) -> (r: Result<Hysteria2Config, LinkError>)
    ensures
        hysteria2_result_view(r) == hysteria2_link_result(link@),
{
    if !text_has_prefix(link, "hysteria2://") && !text_has_prefix(link, "hy2://") {
        return Err(LinkError::NotHysteria2);
    }
    let parts = match url_parts(link) {
        Some(p) => p,
        None => return Err(LinkError::InvalidUrl),
    };
    let name = proxy_name(&parts.fragment, "hysteria2-proxy");
    hysteria2_from_url(&parts, name)
}

/// What a Hysteria2 link gives, field by field: the password, host and port
/// of the URL (443 where it gives none), the `sni` parameter (empty where it
/// is absent), certificate checks skipped exactly where the `insecure`
/// parameter is `1` or `true` in any case, and the decoded fragment as the
/// name.
pub proof fn law_hysteria2_fields_from_link(link: Seq<char>)
    requires
        hysteria2_link_result(link) is Ok,
    ensures
        ({
            let c = hysteria2_link_result(link)->Ok_0;
            let p = parsed_url(link)->0;
            let q = p.query;
            &&& has_prefix(link, "hysteria2://"@) || has_prefix(link, "hy2://"@)
            &&& parsed_url(link) is Some
            &&& p.host == Some(c.address)
            &&& c.password == p.username
            &&& p.port matches Some(n) ==> c.port == n
            &&& p.port is None ==> c.port == 443
            &&& c.insecure <==> (query_value(q, "insecure"@) matches Some(v) && (v == "1"@
                || lowercase(v) == "true"@))
            &&& c.sni == query_value_or(q, "sni"@, Seq::empty())
            &&& c.name == proxy_name_of(p.fragment, "hysteria2-proxy"@)
        }),
{
}

} // verus!
