//! The Xray configuration that serves the VLESS proxies: one local SOCKS
//! inbound per proxy, one VLESS outbound per proxy, and a rule routing each
//! inbound to its outbound.
use vstd::prelude::*;
use crate::config::Config;
use crate::text::{copy_string, decimal, decimal_string, law_decimal_injective, text_eq};
use crate::vless::VlessConfig;

verus! {

/// An Xray configuration.
#[derive(Debug)]
pub struct XrayConfig {
    pub inbounds: Vec<Inbound>,
    pub outbounds: Vec<Outbound>,
    pub routing: Routing,
}

/// A local inbound.
#[derive(Debug)]
pub struct Inbound {
    pub tag: String,
    pub port: u16,
    pub listen: String,
    pub protocol: String,
    pub settings: InboundSettings,
}

/// The settings of an inbound.
#[derive(Debug)]
pub struct InboundSettings {
    pub auth: String,
}

/// A VLESS outbound.
#[derive(Debug)]
pub struct Outbound {
    pub tag: String,
    pub protocol: String,
    pub settings: OutboundSettings,
    pub stream_settings: StreamSettings,
}

/// The servers of an outbound.
#[derive(Debug)]
pub struct OutboundSettings {
    pub vnext: Vec<VNext>,
}

/// A server.
#[derive(Debug)]
pub struct VNext {
    pub address: String,
    pub port: u16,
    pub users: Vec<User>,
}

/// A user of a server.
#[derive(Debug)]
pub struct User {
    pub id: String,
    pub flow: String,
    pub encryption: String,
    pub level: u32,
}

/// The transport of an outbound.
#[derive(Debug)]
pub struct StreamSettings {
    pub network: String,
    pub security: String,
    pub reality_settings: Option<RealitySettings>,
    pub tls_settings: Option<TlsSettings>,
    pub ws_settings: Option<WsSettings>,
}

/// REALITY settings.
#[derive(Debug)]
pub struct RealitySettings {
    pub show: bool,
    pub server_name: String,
    pub public_key: String,
    pub short_id: String,
    pub fingerprint: String,
}

/// TLS settings.
#[derive(Debug)]
pub struct TlsSettings {
    pub allow_insecure: bool,
    pub fingerprint: String,
    pub server_name: String,
    pub show: bool,
}

/// WebSocket settings.
#[derive(Debug)]
pub struct WsSettings {
    pub headers: WsHeaders,
    pub path: String,
}

/// WebSocket headers.
#[derive(Debug)]
pub struct WsHeaders {
    pub host: String,
}

/// The routing of an Xray configuration.
#[derive(Debug)]
pub struct Routing {
    pub rules: Vec<Rule>,
}

/// A routing rule.
#[derive(Debug)]
pub struct Rule {
    pub type_: String,
    pub inbound_tag: Vec<String>,
    pub outbound_tag: String,
}

/// The local port of proxy `i`: the one after the first SOCKS port, plus `i`.
pub open spec fn local_port(app: Config, i: int) -> int {
    app.socks_start_port + i + 1
}

/// The tag of inbound `i`: `proxy-<i>-in`.
pub open spec fn inbound_tag(i: int) -> Seq<char> {
    "proxy-"@ + decimal(i as nat) + "-in"@
}

/// The tag of outbound `i`: `proxy-<i>-out`.
pub open spec fn outbound_tag(i: int) -> Seq<char> {
    "proxy-"@ + decimal(i as nat) + "-out"@
}

/// The fingerprint of a proxy: its own, or the default where it gives none.
pub open spec fn fingerprint_of(cfg: VlessConfig, app: Config) -> Seq<char> {
    if cfg.fp@.len() == 0 {
        app.default_fingerprint@
    } else {
        cfg.fp@
    }
}

/// `ib` is the inbound of proxy `i`.
pub open spec fn inbound_for(ib: Inbound, i: int, app: Config) -> bool {
    &&& ib.tag@ == inbound_tag(i)
    &&& ib.port == local_port(app, i)
    &&& ib.listen@ == app.loopback_address@
    &&& ib.protocol@ == "socks"@
    &&& ib.settings.auth@ == "none"@
}

/// `s` is the transport of `cfg`: REALITY settings for a `reality` proxy,
/// TLS settings for a `tls` one, WebSocket settings for a `ws` one, and
/// none of each otherwise.
pub open spec fn stream_for(s: StreamSettings, cfg: VlessConfig, app: Config) -> bool {
    &&& s.network@ == cfg.type_@
    &&& s.security@ == cfg.security@
    &&& match s.reality_settings {
        Some(r) => {
            &&& cfg.security@ == "reality"@
            &&& !r.show
            &&& r.server_name@ == cfg.sni@
            &&& r.public_key@ == cfg.pbk@
            &&& r.short_id@ == cfg.sid@
            &&& r.fingerprint@ == fingerprint_of(cfg, app)
        },
        None => cfg.security@ != "reality"@,
    }
    &&& match s.tls_settings {
        Some(t) => {
            &&& cfg.security@ == "tls"@
            &&& !t.allow_insecure
            &&& t.fingerprint@ == fingerprint_of(cfg, app)
            &&& t.server_name@ == cfg.sni@
            &&& !t.show
        },
        None => cfg.security@ != "tls"@,
    }
    &&& match s.ws_settings {
        Some(w) => {
            &&& cfg.type_@ == "ws"@
            &&& w.headers.host@ == cfg.host@
            &&& w.path@ == cfg.path@
        },
        None => cfg.type_@ != "ws"@,
    }
}

/// `v` is the single server of `cfg`, with its single user.
pub open spec fn vnext_for(v: VNext, cfg: VlessConfig, app: Config) -> bool {
    &&& v.address@ == cfg.address@
    &&& v.port == cfg.port
    &&& v.users@.len() == 1
    &&& v.users@[0].id@ == cfg.uuid@
    &&& v.users@[0].flow@ == cfg.flow@
    &&& v.users@[0].encryption@ == cfg.encryption@
    &&& v.users@[0].level == app.default_user_level
}

/// `ob` is the outbound of proxy `i`, `cfg`.
pub open spec fn outbound_for(ob: Outbound, i: int, cfg: VlessConfig, app: Config) -> bool {
    &&& ob.tag@ == outbound_tag(i)
    &&& ob.protocol@ == "vless"@
    &&& ob.settings.vnext@.len() == 1
    &&& vnext_for(ob.settings.vnext@[0], cfg, app)
    &&& stream_for(ob.stream_settings, cfg, app)
}

/// `r` routes inbound `i` to outbound `i`.
pub open spec fn rule_for(r: Rule, i: int) -> bool {
    &&& r.type_@ == "field"@
    &&& r.inbound_tag@.len() == 1
    &&& r.inbound_tag@[0]@ == inbound_tag(i)
    &&& r.outbound_tag@ == outbound_tag(i)
}

/// `x` is the Xray configuration for the proxies `cfgs`: entry `i` of the
/// inbounds, the outbounds and the rules is that of proxy `i`.
pub open spec fn xray_config_for(x: XrayConfig, cfgs: Seq<VlessConfig>, app: Config) -> bool {
    &&& x.inbounds@.len() == cfgs.len()
    &&& x.outbounds@.len() == cfgs.len()
    &&& x.routing.rules@.len() == cfgs.len()
    &&& forall|i: int| 0 <= i < cfgs.len() ==> inbound_for(#[trigger] x.inbounds@[i], i, app)
    &&& forall|i: int|
        0 <= i < cfgs.len() ==> outbound_for(#[trigger] x.outbounds@[i], i, cfgs[i], app)
    &&& forall|i: int| 0 <= i < cfgs.len() ==> rule_for(#[trigger] x.routing.rules@[i], i)
}

/// `proxy-<i><suffix>`.
fn proxy_tag(i: usize, suffix: &str) -> (t: String)
    ensures
        t@ == "proxy-"@ + decimal(i as nat) + suffix@,
{
    let mut t = copy_string("proxy-");
    let d = decimal_string(i as u128);
    t.append(d.as_str());
    t.append(suffix);
    t
}

/// The fingerprint of a proxy: its own, or the default where it gives none.
fn fingerprint(cfg: &VlessConfig, app: &Config) -> (f: String)
    ensures
        f@ == fingerprint_of(*cfg, *app),
{
    if cfg.fp.as_str().is_empty() {
        app.default_fingerprint.clone()
    } else {
        cfg.fp.clone()
    }
}

/// The transport of a proxy.
fn stream_settings_for(cfg: &VlessConfig, app: &Config) -> (s: StreamSettings)
    ensures
        stream_for(s, *cfg, *app),
{
    let reality_settings = if text_eq(cfg.security.as_str(), "reality") {
        Some(
            RealitySettings {
                show: false,
                server_name: cfg.sni.clone(),
                public_key: cfg.pbk.clone(),
                short_id: cfg.sid.clone(),
                fingerprint: fingerprint(cfg, app),
            },
        )
    } else {
        None
    };
    let tls_settings = if text_eq(cfg.security.as_str(), "tls") {
        Some(
            TlsSettings {
                allow_insecure: false,
                fingerprint: fingerprint(cfg, app),
                server_name: cfg.sni.clone(),
                show: false,
            },
        )
    } else {
        None
    };
    let ws_settings = if text_eq(cfg.type_.as_str(), "ws") {
        Some(WsSettings { headers: WsHeaders { host: cfg.host.clone() }, path: cfg.path.clone() })
    } else {
        None
    };
    StreamSettings {
        network: cfg.type_.clone(),
        security: cfg.security.clone(),
        reality_settings,
        tls_settings,
        ws_settings,
    }
}

/// The outbound of proxy `i`.
fn outbound_of(i: usize, cfg: &VlessConfig, app: &Config) -> (ob: Outbound)
    ensures
        outbound_for(ob, i as int, *cfg, *app),
{
    let user = User {
        id: cfg.uuid.clone(),
        flow: cfg.flow.clone(),
        encryption: cfg.encryption.clone(),
        level: app.default_user_level,
    };
    let mut users: Vec<User> = Vec::new();
    users.push(user);
    let server = VNext { address: cfg.address.clone(), port: cfg.port, users };
    let mut vnext: Vec<VNext> = Vec::new();
    vnext.push(server);
    Outbound {
        tag: proxy_tag(i, "-out"),
        protocol: copy_string("vless"),
        settings: OutboundSettings { vnext },
        stream_settings: stream_settings_for(cfg, app),
    }
}

/// The Xray configuration for the VLESS proxies `configs`: proxy `i`
/// gets the SOCKS inbound `proxy-<i>-in` on the local port after the first
/// SOCKS port plus `i`, the VLESS outbound `proxy-<i>-out`, and a rule
/// from the one to the other.
pub fn generate_xray_config(configs: &[VlessConfig], app_config: &Config) -> (x: XrayConfig)
    requires
        app_config.socks_start_port + configs@.len() <= u16::MAX,
    ensures
        xray_config_for(x, configs@, *app_config),
{
    let n = configs.len();
    let mut inbounds: Vec<Inbound> = Vec::new();
    let mut outbounds: Vec<Outbound> = Vec::new();
    let mut rules: Vec<Rule> = Vec::new();
    let mut i: usize = 0;
    while i < n
        invariant
            i <= n == configs@.len(),
            app_config.socks_start_port + configs@.len() <= u16::MAX,
            inbounds@.len() == i,
            outbounds@.len() == i,
            rules@.len() == i,
            forall|k: int| 0 <= k < i ==> inbound_for(#[trigger] inbounds@[k], k, *app_config),
            forall|k: int|
                0 <= k < i ==> outbound_for(#[trigger] outbounds@[k], k, configs@[k], *app_config),
            forall|k: int| 0 <= k < i ==> rule_for(#[trigger] rules@[k], k),
        decreases n - i,
    {
        let port: u16 = app_config.socks_start_port + (i as u16) + 1;
        let inbound = Inbound {
            tag: proxy_tag(i, "-in"),
            port,
            listen: app_config.loopback_address.clone(),
            protocol: copy_string("socks"),
            settings: InboundSettings { auth: copy_string("none") },
        };
        inbounds.push(inbound);
        outbounds.push(outbound_of(i, &configs[i], app_config));
        let mut inbound_tags: Vec<String> = Vec::new();
        inbound_tags.push(proxy_tag(i, "-in"));
        rules.push(
            Rule {
                type_: copy_string("field"),
                inbound_tag: inbound_tags,
                outbound_tag: proxy_tag(i, "-out"),
            },
        );
        i = i + 1;
    }
    XrayConfig { inbounds, outbounds, routing: Routing { rules } }
}

/// Every proxy gets a local port of its own.
pub proof fn law_local_ports_distinct(x: XrayConfig, cfgs: Seq<VlessConfig>, app: Config, i: int, j: int)
    requires
        xray_config_for(x, cfgs, app),
        0 <= i < cfgs.len(),
        0 <= j < cfgs.len(),
        i != j,
    ensures
        x.inbounds@[i].port != x.inbounds@[j].port,
{
}

/// Inbound `i` is routed to outbound `i`, which is the server of proxy `i`.
pub proof fn law_inbound_routed_to_its_proxy(x: XrayConfig, cfgs: Seq<VlessConfig>, app: Config, i: int)
    requires
        xray_config_for(x, cfgs, app),
        0 <= i < cfgs.len(),
    ensures
        x.routing.rules@[i].inbound_tag@[0]@ == x.inbounds@[i].tag@,
        x.routing.rules@[i].outbound_tag@ == x.outbounds@[i].tag@,
        x.outbounds@[i].settings.vnext@[0].address@ == cfgs[i].address@,
        x.outbounds@[i].settings.vnext@[0].port == cfgs[i].port,
        x.outbounds@[i].settings.vnext@[0].users@[0].id@ == cfgs[i].uuid@,
{
}

/// The text `p + x + q` determines `x`.
proof fn lemma_infix_determined(p: Seq<char>, x: Seq<char>, y: Seq<char>, q: Seq<char>)
    requires
        p + x + q == p + y + q,
    ensures
        x == y,
{
    let lhs = p + x + q;
    let rhs = p + y + q;
    assert(lhs.len() == rhs.len());
    assert(x =~= lhs.subrange(p.len() as int, (p.len() + x.len()) as int));
    assert(y =~= rhs.subrange(p.len() as int, (p.len() + y.len()) as int));
}

/// Different proxies get different inbound and outbound tags.
pub proof fn law_tags_distinct(x: XrayConfig, cfgs: Seq<VlessConfig>, app: Config, i: int, j: int)
    requires
        xray_config_for(x, cfgs, app),
        0 <= i < cfgs.len(),
        0 <= j < cfgs.len(),
        i != j,
    ensures
        x.inbounds@[i].tag@ != x.inbounds@[j].tag@,
        x.outbounds@[i].tag@ != x.outbounds@[j].tag@,
{
    assert(inbound_for(x.inbounds@[i], i, app));
    assert(inbound_for(x.inbounds@[j], j, app));
    assert(outbound_for(x.outbounds@[i], i, cfgs[i], app));
    assert(outbound_for(x.outbounds@[j], j, cfgs[j], app));
    if x.inbounds@[i].tag@ == x.inbounds@[j].tag@ {
        lemma_infix_determined("proxy-"@, decimal(i as nat), decimal(j as nat), "-in"@);
        law_decimal_injective(i as nat, j as nat);
    }
    if x.outbounds@[i].tag@ == x.outbounds@[j].tag@ {
        lemma_infix_determined("proxy-"@, decimal(i as nat), decimal(j as nat), "-out"@);
        law_decimal_injective(i as nat, j as nat);
    }
}

/// The values of an inbound.
pub open spec fn inbound_fields(ib: Inbound) -> (Seq<char>, u16, Seq<char>, Seq<char>, Seq<char>) {
    (ib.tag@, ib.port, ib.listen@, ib.protocol@, ib.settings.auth@)
}

/// The values of a transport.
pub open spec fn stream_fields(s: StreamSettings) -> (
    Seq<char>,
    Seq<char>,
    Option<(bool, Seq<char>, Seq<char>, Seq<char>, Seq<char>)>,
    Option<(bool, Seq<char>, Seq<char>, bool)>,
    Option<(Seq<char>, Seq<char>)>,
) {
    (
        s.network@,
        s.security@,
        match s.reality_settings {
            Some(r) => Some((r.show, r.server_name@, r.public_key@, r.short_id@, r.fingerprint@)),
            None => None,
        },
        match s.tls_settings {
            Some(t) => Some((t.allow_insecure, t.fingerprint@, t.server_name@, t.show)),
            None => None,
        },
        match s.ws_settings {
            Some(w) => Some((w.headers.host@, w.path@)),
            None => None,
        },
    )
}

/// The values of an outbound with a single server and user.
pub open spec fn outbound_fields(ob: Outbound) -> (
    Seq<char>,
    Seq<char>,
    (Seq<char>, u16),
    (Seq<char>, Seq<char>, Seq<char>, u32),
) {
    let v = ob.settings.vnext@[0];
    let u = v.users@[0];
    (ob.tag@, ob.protocol@, (v.address@, v.port), (u.id@, u.flow@, u.encryption@, u.level))
}

/// The values of a rule with a single inbound tag.
pub open spec fn rule_fields(r: Rule) -> (Seq<char>, Seq<char>, Seq<char>) {
    (r.type_@, r.inbound_tag@[0]@, r.outbound_tag@)
}

/// Entry `i` of an Xray configuration depends only on `i`, proxy `i` and the
/// settings: two configurations whose proxies agree at `i` agree there. So
/// adding a proxy at the end adds one entry at the end of each list and
/// leaves the others as they were.
pub proof fn law_entry_depends_on_own_proxy(
    x1: XrayConfig,
    cs1: Seq<VlessConfig>,
    x2: XrayConfig,
    cs2: Seq<VlessConfig>,
    app: Config,
    i: int,
)
    requires
        xray_config_for(x1, cs1, app),
        xray_config_for(x2, cs2, app),
        0 <= i < cs1.len(),
        i < cs2.len(),
        cs1[i]@ == cs2[i]@,
    ensures
        inbound_fields(x1.inbounds@[i]) == inbound_fields(x2.inbounds@[i]),
        outbound_fields(x1.outbounds@[i]) == outbound_fields(x2.outbounds@[i]),
        x1.outbounds@[i].settings.vnext@.len() == x2.outbounds@[i].settings.vnext@.len(),
        x1.outbounds@[i].settings.vnext@[0].users@.len()
            == x2.outbounds@[i].settings.vnext@[0].users@.len(),
        stream_fields(x1.outbounds@[i].stream_settings) == stream_fields(
            x2.outbounds@[i].stream_settings,
        ),
        rule_fields(x1.routing.rules@[i]) == rule_fields(x2.routing.rules@[i]),
        x1.routing.rules@[i].inbound_tag@.len() == x2.routing.rules@[i].inbound_tag@.len(),
{
    assert(inbound_for(x1.inbounds@[i], i, app));
    assert(inbound_for(x2.inbounds@[i], i, app));
    assert(outbound_for(x1.outbounds@[i], i, cs1[i], app));
    assert(outbound_for(x2.outbounds@[i], i, cs2[i], app));
    assert(rule_for(x1.routing.rules@[i], i));
    assert(rule_for(x2.routing.rules@[i], i));
    let c1 = cs1[i];
    let c2 = cs2[i];
    assert(c1.security@ == c2.security@ && c1.type_@ == c2.type_@ && c1.fp@ == c2.fp@);
    assert(fingerprint_of(c1, app) == fingerprint_of(c2, app));
}

/// Each proxy keeps the fingerprint its link names, in its REALITY settings
/// and in its TLS settings alike; the default fingerprint is used only for a
/// proxy that names none. A REALITY proxy, and only one, gets REALITY
/// settings, and a TLS proxy, and only one, gets TLS settings.
pub proof fn law_fingerprint_is_the_proxys_own(
    x: XrayConfig,
    cfgs: Seq<VlessConfig>,
    app: Config,
    i: int,
)
    requires
        xray_config_for(x, cfgs, app),
        0 <= i < cfgs.len(),
    ensures
        ({
            let s = x.outbounds@[i].stream_settings;
            let c = cfgs[i];
            &&& (s.reality_settings is Some) == (c.security@ == "reality"@)
            &&& (s.tls_settings is Some) == (c.security@ == "tls"@)
            &&& s.reality_settings matches Some(r) ==> (c.fp@.len() > 0 ==> r.fingerprint@ == c.fp@)
                && (c.fp@.len() == 0 ==> r.fingerprint@ == app.default_fingerprint@)
            &&& s.tls_settings matches Some(t) ==> (c.fp@.len() > 0 ==> t.fingerprint@ == c.fp@)
                && (c.fp@.len() == 0 ==> t.fingerprint@ == app.default_fingerprint@)
        }),
{
    assert(outbound_for(x.outbounds@[i], i, cfgs[i], app));
}

/// Proxy `i` listens on the port `i + 1` after the first SOCKS port, on the
/// loopback address, so no proxy takes the port of the proxy that starts
/// Xray; and it connects to its own server as its own user, with its flow.
pub proof fn law_inbound_port_and_server(x: XrayConfig, cfgs: Seq<VlessConfig>, app: Config, i: int)
    requires
        xray_config_for(x, cfgs, app),
        0 <= i < cfgs.len(),
    ensures
        x.inbounds@[i].port == app.socks_start_port + i + 1,
        x.inbounds@[i].port != app.socks_start_port,
        x.inbounds@[i].listen@ == app.loopback_address@,
        x.outbounds@[i].settings.vnext@.len() == 1,
        x.outbounds@[i].settings.vnext@[0].address@ == cfgs[i].address@,
        x.outbounds@[i].settings.vnext@[0].port == cfgs[i].port,
        x.outbounds@[i].settings.vnext@[0].users@.len() == 1,
        x.outbounds@[i].settings.vnext@[0].users@[0].id@ == cfgs[i].uuid@,
        x.outbounds@[i].settings.vnext@[0].users@[0].flow@ == cfgs[i].flow@,
        x.outbounds@[i].settings.vnext@[0].users@[0].encryption@ == cfgs[i].encryption@,
        x.outbounds@[i].settings.vnext@[0].users@[0].level == app.default_user_level,
        x.outbounds@[i].stream_settings.network@ == cfgs[i].type_@,
        x.outbounds@[i].stream_settings.security@ == cfgs[i].security@,
{
    assert(inbound_for(x.inbounds@[i], i, app));
    assert(outbound_for(x.outbounds@[i], i, cfgs[i], app));
}

} // verus!
