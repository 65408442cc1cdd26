//! VLESS links: `vless://<uuid>@<host>:<port>?<parameters>#<name>`.
use vstd::prelude::*;
use crate::link::{
    parsed_url, proxy_name, proxy_name_of, query_get_or, query_value_or, url_parts, LinkError,
    UrlParts, UrlPartsView,
};
use crate::text::{copy_string, has_prefix, text_eq, text_has_prefix};

verus! {

/// A VLESS proxy, as its link describes it.
#[derive(Debug, Clone)]
pub struct VlessConfig {
    pub uuid: String,
    pub address: String,
    pub port: u16,
    pub type_: String,
    pub encryption: String,
    pub security: String,
    pub flow: String,
    pub sni: String,
    pub pbk: String,
    pub sid: String,
    pub fp: String,
    pub name: String,
    pub path: String,
    pub host: String,
}

/// The mathematical model of [`VlessConfig`].
#[verifier::ext_equal]
pub struct VlessView {
    pub uuid: Seq<char>,
    pub address: Seq<char>,
    pub port: u16,
    pub type_: Seq<char>,
    pub encryption: Seq<char>,
    pub security: Seq<char>,
    pub flow: Seq<char>,
    pub sni: Seq<char>,
    pub pbk: Seq<char>,
    pub sid: Seq<char>,
    pub fp: Seq<char>,
    pub name: Seq<char>,
    pub path: Seq<char>,
    pub host: Seq<char>,
}

impl View for VlessConfig {
    type V = VlessView;

    open spec fn view(&self) -> VlessView {
        VlessView {
            uuid: self.uuid@,
            address: self.address@,
            port: self.port,
            type_: self.type_@,
            encryption: self.encryption@,
            security: self.security@,
            flow: self.flow@,
            sni: self.sni@,
            pbk: self.pbk@,
            sid: self.sid@,
            fp: self.fp@,
            name: self.name@,
            path: self.path@,
            host: self.host@,
        }
    }
}

/// The views of a sequence of VLESS proxies.
pub open spec fn vless_views(s: Seq<VlessConfig>) -> Seq<VlessView> {
    s.map_values(|c: VlessConfig| c@)
}

/// The view of a VLESS parse result.
pub open spec fn vless_result_view(r: Result<VlessConfig, LinkError>) -> Result<VlessView, LinkError> {
    match r {
        Ok(c) => Ok(c@),
        Err(e) => Err(e),
    }
}

/// The flow: the one the link gives, or `xtls-rprx-vision` for a REALITY
/// link that gives none.
pub open spec fn vless_flow(security: Seq<char>, flow: Seq<char>) -> Seq<char> {
    if security == "reality"@ && flow.len() == 0 {
        "xtls-rprx-vision"@
    } else {
        flow
    }
}

/// The VLESS proxy that a parsed URL describes, named `name`: the host and
/// the port are required; absent parameters take their defaults (`type`:
/// `tcp`, `encryption`: `none`, the others empty).
pub open spec fn vless_from_parts(p: UrlPartsView, name: Seq<char>) -> Result<VlessView, LinkError> {
    match p.host {
        None => Err(LinkError::MissingHost),
        Some(host) => match p.port {
            None => Err(LinkError::MissingPort),
            Some(port) => {
                let q = p.query;
                let security = query_value_or(q, "security"@, Seq::empty());
                Ok(
                    VlessView {
                        uuid: p.username,
                        address: host,
                        port: port,
                        type_: query_value_or(q, "type"@, "tcp"@),
                        encryption: query_value_or(q, "encryption"@, "none"@),
                        security: security,
                        flow: vless_flow(security, query_value_or(q, "flow"@, Seq::empty())),
                        sni: query_value_or(q, "sni"@, Seq::empty()),
                        pbk: query_value_or(q, "pbk"@, Seq::empty()),
                        sid: query_value_or(q, "sid"@, Seq::empty()),
                        fp: query_value_or(q, "fp"@, Seq::empty()),
                        name: name,
                        path: query_value_or(q, "path"@, Seq::empty()),
                        host: query_value_or(q, "host"@, Seq::empty()),
                    },
                )
            },
        },
    }
}

/// What parsing `link` as a VLESS link gives: it must start with `vless://`
/// and parse as a URL; the name is the decoded fragment, `proxy` by default.
pub open spec fn vless_link_result(link: Seq<char>) -> Result<VlessView, LinkError> {
    if !has_prefix(link, "vless://"@) {
        Err(LinkError::NotVless)
    } else {
        match parsed_url(link) {
            None => Err(LinkError::InvalidUrl),
            Some(p) => vless_from_parts(p, proxy_name_of(p.fragment, "proxy"@)),
        }
    }
}

/// The VLESS proxy that the parts of a parsed URL describe, named `name`.
pub fn vless_from_url(parts: &UrlParts, name: String) -> (r: Result<VlessConfig, LinkError>)
    ensures
        vless_result_view(r) == vless_from_parts(parts@, name@),
{
    let address = match &parts.host {
        Some(h) => copy_string(h.as_str()),
        None => return Err(LinkError::MissingHost),
    };
    let port = match parts.port {
        Some(p) => p,
        None => return Err(LinkError::MissingPort),
    };
    let q = &parts.query;
    proof {
        reveal_strlit("");
    }
    let type_ = query_get_or(q, "type", "tcp");
    let security = query_get_or(q, "security", "");
    let mut flow = query_get_or(q, "flow", "");
    if text_eq(security.as_str(), "reality") && flow.as_str().is_empty() {
        flow = copy_string("xtls-rprx-vision");
    }
    let encryption = query_get_or(q, "encryption", "none");
    let sni = query_get_or(q, "sni", "");
    let pbk = query_get_or(q, "pbk", "");
    let sid = query_get_or(q, "sid", "");
    let fp = query_get_or(q, "fp", "");
    let path = query_get_or(q, "path", "");
    let host = query_get_or(q, "host", "");
    let r = VlessConfig {
        uuid: copy_string(parts.username.as_str()),
        address,
        port,
        type_,
        encryption,
        security,
        flow,
        sni,
        pbk,
        sid,
        fp,
        name,
        path,
        host,
    };
    assert(vless_from_parts(parts@, name@) is Ok);
    let ghost e = vless_from_parts(parts@, name@)->Ok_0;
    assert(e.uuid == r@.uuid);
    assert(e.address == r@.address);
    assert(e.port == r@.port);
    assert(e.type_ == r@.type_);
    assert(e.encryption == r@.encryption);
    assert(e.security == r@.security);
    assert(e.flow == r@.flow);
    assert(e.sni == r@.sni);
    assert(e.pbk == r@.pbk);
    assert(e.sid == r@.sid);
    assert(e.fp == r@.fp);
    assert(e.name == r@.name);
    assert(e.path == r@.path);
    assert(e.host == r@.host);
    assert(r@ =~= e);
    Ok(r)
}

/// Parses a `vless://` link.
pub fn parse_vless_link(link: &str) -> (r: Result<VlessConfig, LinkError>)
    ensures
        vless_result_view(r) == vless_link_result(link@),
{
    if !text_has_prefix(link, "vless://") {
        return Err(LinkError::NotVless);
    }
    let parts = match url_parts(link) {
        Some(p) => p,
        None => return Err(LinkError::InvalidUrl),
    };
    let name = proxy_name(&parts.fragment, "proxy");
    vless_from_url(&parts, name)
}

/// What a VLESS link gives, field by field: the user, host and port of the
/// URL, the query's parameters with their defaults (`type`: `tcp`,
/// `encryption`: `none`, the others empty), and the flow the link names,
/// empty where it names none, unless the security is `reality`: a REALITY
/// link that names no flow gets `xtls-rprx-vision`.
pub proof fn law_vless_fields_from_link(link: Seq<char>)
    requires
        vless_link_result(link) is Ok,
    ensures
        ({
            let c = vless_link_result(link)->Ok_0;
            let p = parsed_url(link)->0;
            let q = p.query;
            let given_flow = query_value_or(q, "flow"@, Seq::empty());
            &&& parsed_url(link) is Some
            &&& p.host == Some(c.address)
            &&& p.port == Some(c.port)
            &&& c.uuid == p.username
            &&& c.name == proxy_name_of(p.fragment, "proxy"@)
            &&& c.type_ == query_value_or(q, "type"@, "tcp"@)
            &&& c.encryption == query_value_or(q, "encryption"@, "none"@)
            &&& c.security == query_value_or(q, "security"@, Seq::empty())
            &&& c.sni == query_value_or(q, "sni"@, Seq::empty())
            &&& c.pbk == query_value_or(q, "pbk"@, Seq::empty())
            &&& c.sid == query_value_or(q, "sid"@, Seq::empty())
            &&& c.fp == query_value_or(q, "fp"@, Seq::empty())
            &&& c.path == query_value_or(q, "path"@, Seq::empty())
            &&& c.host == query_value_or(q, "host"@, Seq::empty())
            &&& c.security != "reality"@ ==> c.flow == given_flow
            &&& c.security == "reality"@ && given_flow.len() > 0 ==> c.flow == given_flow
            &&& c.security == "reality"@ && given_flow.len() == 0 ==> c.flow == "xtls-rprx-vision"@
        }),
{
}

} // verus!
