//! The Surge `[Proxy]` section: VLESS proxies through Xray's local SOCKS
//! ports, Hysteria2 proxies natively.
use vstd::prelude::*;
use crate::config::Config;
use crate::hysteria2::Hysteria2Config;
use crate::text::{
    char_is_space, chars_of, copy_string, decimal, decimal_string, has_prefix, is_space,
    lemma_trimmed_fixed, string_from_chars, trim, trim_str,
};
use crate::vless::VlessConfig;
use crate::xray::{inbound_for, local_port, outbound_for, rule_for, xray_config_for, XrayConfig};

verus! {

/// The character that stands for `c` in a Surge proxy name: white space and
/// commas become `_`.
pub open spec fn name_char(c: char) -> char {
    if is_space(c) || c == ',' {
        '_'
    } else {
        c
    }
}

/// A proxy name as Surge gets it: trimmed, with white space and commas
/// replaced by `_`.
pub open spec fn sanitize_name(s: Seq<char>) -> Seq<char> {
    trim(s).map_values(|c: char| name_char(c))
}

/// `c` is a character that Surge proxy names replace: white space or a comma.
pub open spec fn is_name_separator(c: char) -> bool {
    is_space(c) || c == ','
}

/// The text with white space and commas replaced by `_`.
pub open spec fn clean_chars(s: Seq<char>) -> Seq<char> {
    s.map_values(|c: char| name_char(c))
}

/// The text has no white space and no comma.
pub open spec fn is_clean(s: Seq<char>) -> bool {
    forall|i: int| 0 <= i < s.len() ==> !is_name_separator(#[trigger] s[i])
}

/// Replacing separators gives a clean text.
pub proof fn lemma_clean_chars_clean(s: Seq<char>)
    ensures
        is_clean(clean_chars(s)),
{
    assert forall|i: int| 0 <= i < clean_chars(s).len() implies !is_name_separator(
        #[trigger] clean_chars(s)[i],
    ) by {
        assert(clean_chars(s)[i] == name_char(s[i]));
    }
}

/// A sanitized name is clean.
pub proof fn lemma_sanitized_clean(s: Seq<char>)
    ensures
        is_clean(sanitize_name(s)),
{
    lemma_clean_chars_clean(trim(s));
}

/// Sanitizing leaves a clean name as it is.
pub proof fn lemma_clean_sanitized(s: Seq<char>)
    requires
        is_clean(s),
    ensures
        sanitize_name(s) == s,
{
    if s.len() > 0 {
        assert(!is_name_separator(s[0]));
        assert(!is_name_separator(s[s.len() - 1]));
    }
    lemma_trimmed_fixed(s);
    assert(trim(s).map_values(|c: char| name_char(c)) =~= s);
}

/// The text with white space and commas replaced by `_`.
pub fn cleaned_text(s: &str) -> (r: String)
    ensures
        r@ == clean_chars(s@),
{
    let t = chars_of(s);
    let mut out: Vec<char> = Vec::new();
    let mut i: usize = 0;
    while i < t.len()
        invariant
            i <= t@.len(),
            t@ == s@,
            out@ == t@.take(i as int).map_values(|c: char| name_char(c)),
        decreases t@.len() - i,
    {
        let c = t[i];
        let d = if char_is_space(c) || c == ',' {
            '_'
        } else {
            c
        };
        out.push(d);
        assert(t@.take(i as int + 1) =~= t@.take(i as int).push(c));
        assert(out@ =~= t@.take(i as int + 1).map_values(|c: char| name_char(c)));
        i = i + 1;
    }
    assert(t@.take(t@.len() as int) =~= t@);
    string_from_chars(out.as_slice())
}

/// The name trimmed, with white space and commas replaced by `_`.
pub fn sanitized_name(s: &str) -> (r: String)
    ensures
        r@ == sanitize_name(s@),
{
    let t = trim_str(s);
    cleaned_text(t.as_str())
}

/// A Surge proxy that starts Xray: `<name> = external, exec = "<xray>",
/// local-port = <port>, args = "run", args = "-c", args = "<config>"`.
pub open spec fn external_line(name: Seq<char>, app: Config, port: int) -> Seq<char> {
    name + " = external, exec = \""@ + app.xray_path@ + "\", local-port = "@ + decimal(port as nat)
        + ", args = \"run\", args = \"-c\", args = \""@ + app.config_path@ + "\"\n"@
}

/// The line of VLESS proxy `i`: the first one starts Xray, the others are
/// SOCKS5 proxies on their local ports.
pub open spec fn vless_line(cfg: VlessConfig, i: int, app: Config) -> Seq<char> {
    let name = sanitize_name(cfg.name@);
    if i == 0 {
        external_line(name, app, local_port(app, i))
    } else {
        name + " = socks5, "@ + app.loopback_address@ + ", "@ + decimal(local_port(app, i) as nat)
            + "\n"@
    }
}

/// The lines of the VLESS proxies, in order.
pub open spec fn vless_lines(cfgs: Seq<VlessConfig>, app: Config) -> Seq<char>
    decreases cfgs.len(),
{
    if cfgs.len() == 0 {
        Seq::empty()
    } else {
        vless_lines(cfgs.drop_last(), app) + vless_line(cfgs.last(), cfgs.len() - 1, app)
    }
}

/// The line of a Hysteria2 proxy: `<name> = hysteria2, <address>, <port>,
/// password=<password>`, then `, skip-cert-verify=true` where it is insecure
/// and `, sni=<sni>` where it names a server.
pub open spec fn hysteria2_line(cfg: Hysteria2Config) -> Seq<char> {
    sanitize_name(cfg.name@) + " = hysteria2, "@ + cfg.address@ + ", "@ + decimal(cfg.port as nat)
        + ", password="@ + cfg.password@ + (if cfg.insecure {
        ", skip-cert-verify=true"@
    } else {
        Seq::empty()
    }) + (if cfg.sni@.len() > 0 {
        ", sni="@ + cfg.sni@
    } else {
        Seq::empty()
    }) + "\n"@
}

/// The lines of the Hysteria2 proxies, in order.
pub open spec fn hysteria2_lines(cfgs: Seq<Hysteria2Config>) -> Seq<char>
    decreases cfgs.len(),
{
    if cfgs.len() == 0 {
        Seq::empty()
    } else {
        hysteria2_lines(cfgs.drop_last()) + hysteria2_line(cfgs.last())
    }
}

/// The Surge proxy list: empty where there are no proxies; otherwise the
/// `[Proxy]` header, a proxy named `restart_name` that starts Xray on the
/// first SOCKS port, then the VLESS and the Hysteria2 proxies.
pub open spec fn surge_list(
    vless: Seq<VlessConfig>,
    hysteria2: Seq<Hysteria2Config>,
    app: Config,
    restart_name: Seq<char>,
) -> Seq<char> {
    if vless.len() == 0 && hysteria2.len() == 0 {
        Seq::empty()
    } else {
        "[Proxy]\n"@ + external_line(restart_name, app, app.socks_start_port as int) + vless_lines(
            vless,
            app,
        ) + hysteria2_lines(hysteria2)
    }
}

/// `c` is a lower-case hexadecimal digit.
pub open spec fn is_lower_hex(c: char) -> bool {
    ('0' <= c <= '9') || ('a' <= c <= 'f')
}

/// `id` is a UUID in its simple form: 32 lower-case hexadecimal digits.
pub open spec fn is_simple_uuid(id: Seq<char>) -> bool {
    id.len() == 32 && forall|i: int| 0 <= i < 32 ==> is_lower_hex(#[trigger] id[i])
}

/// Calls `uuid::Uuid::new_v4` and formats the random UUID with `simple()`.
/// The contract claims what every outcome is: 32 lower-case hexadecimal
/// digits; which UUID comes is chance.
#[verifier::external_body]
fn new_simple_uuid() -> (id: String)
    ensures
        is_simple_uuid(id@),
{
    uuid::Uuid::new_v4().simple().to_string()
}

/// Appends the line of a proxy that starts Xray.
fn push_external_line(out: &mut String, name: &str, app: &Config, port: u16)
    ensures
        final(out)@ == old(out)@ + external_line(name@, *app, port as int),
{
    out.append(name);
    out.append(" = external, exec = \"");
    out.append(app.xray_path.as_str());
    out.append("\", local-port = ");
    out.append(decimal_string(port as u128).as_str());
    out.append(", args = \"run\", args = \"-c\", args = \"");
    out.append(app.config_path.as_str());
    out.append("\"\n");
    assert(out@ =~= old(out)@ + external_line(name@, *app, port as int));
}

/// Appends the line of a Hysteria2 proxy.
fn push_hysteria2_line(out: &mut String, cfg: &Hysteria2Config)
    ensures
        final(out)@ == old(out)@ + hysteria2_line(*cfg),
{
    let name = sanitized_name(cfg.name.as_str());
    let ghost start = out@;
    out.append(name.as_str());
    out.append(" = hysteria2, ");
    out.append(cfg.address.as_str());
    out.append(", ");
    out.append(decimal_string(cfg.port as u128).as_str());
    out.append(", password=");
    out.append(cfg.password.as_str());
    let ghost mid = out@;
    if cfg.insecure {
        out.append(", skip-cert-verify=true");
    }
    let ghost mid2 = out@;
    if !cfg.sni.as_str().is_empty() {
        out.append(", sni=");
        out.append(cfg.sni.as_str());
    }
    let ghost mid3 = out@;
    out.append("\n");
    assert(mid2 =~= mid + (if cfg.insecure {
        ", skip-cert-verify=true"@
    } else {
        Seq::empty()
    }));
    assert(mid3 =~= mid2 + (if cfg.sni@.len() > 0 {
        ", sni="@ + cfg.sni@
    } else {
        Seq::empty()
    }));
    assert(out@ =~= old(out)@ + hysteria2_line(*cfg));
}

/// The Surge proxy list, with `restart_name` as the name of the proxy that
/// starts Xray.
pub fn surge_list_with_restart_name(
    vless_configs: &[VlessConfig],
    hysteria2_configs: &[Hysteria2Config],
    app_config: &Config,
    restart_name: &str,
) -> (r: String)
    requires
        app_config.socks_start_port + vless_configs@.len() <= u16::MAX,
    ensures
        r@ == surge_list(vless_configs@, hysteria2_configs@, *app_config, restart_name@),
{
    let mut out = String::new();
    if vless_configs.len() == 0 && hysteria2_configs.len() == 0 {
        return out;
    }
    out.append("[Proxy]\n");
    push_external_line(&mut out, restart_name, app_config, app_config.socks_start_port);
    let ghost head = out@;
    let n = vless_configs.len();
    let mut i: usize = 0;
    assert(vless_configs@.take(0) =~= Seq::<VlessConfig>::empty());
    while i < n
        invariant
            i <= n == vless_configs@.len(),
            app_config.socks_start_port + vless_configs@.len() <= u16::MAX,
            out@ == head + vless_lines(vless_configs@.take(i as int), *app_config),
        decreases n - i,
    {
        let cfg = &vless_configs[i];
        let port: u16 = app_config.socks_start_port + (i as u16) + 1;
        let name = sanitized_name(cfg.name.as_str());
        let ghost before = out@;
        if i == 0 {
            push_external_line(&mut out, name.as_str(), app_config, port);
        } else {
            out.append(name.as_str());
            out.append(" = socks5, ");
            out.append(app_config.loopback_address.as_str());
            out.append(", ");
            out.append(decimal_string(port as u128).as_str());
            out.append("\n");
        }
        let ghost pre = vless_configs@.take(i as int + 1);
        assert(pre.drop_last() =~= vless_configs@.take(i as int));
        assert(pre.last() == *cfg);
        assert(out@ =~= before + vless_line(*cfg, i as int, *app_config));
        i = i + 1;
    }
    assert(vless_configs@.take(n as int) =~= vless_configs@);
    let ghost mid = out@;
    let m = hysteria2_configs.len();
    let mut j: usize = 0;
    assert(hysteria2_configs@.take(0) =~= Seq::<Hysteria2Config>::empty());
    while j < m
        invariant
            j <= m == hysteria2_configs@.len(),
            out@ == mid + hysteria2_lines(hysteria2_configs@.take(j as int)),
        decreases m - j,
    {
        push_hysteria2_line(&mut out, &hysteria2_configs[j]);
        let ghost pre = hysteria2_configs@.take(j as int + 1);
        assert(pre.drop_last() =~= hysteria2_configs@.take(j as int));
        assert(pre.last() == hysteria2_configs@[j as int]);
        j = j + 1;
    }
    assert(hysteria2_configs@.take(m as int) =~= hysteria2_configs@);
    assert(out@ =~= surge_list(vless_configs@, hysteria2_configs@, *app_config, restart_name@));
    out
}

/// The Surge proxy list. The proxy that starts Xray is named `xray_`
/// followed by a fresh random UUID, so that Surge restarts Xray whenever the
/// list changes hands.
pub fn generate_surge_list(
    vless_configs: &[VlessConfig],
    hysteria2_configs: &[Hysteria2Config],
    app_config: &Config,
) -> (r: String)
    requires
        app_config.socks_start_port + vless_configs@.len() <= u16::MAX,
    ensures
        exists|id: Seq<char>|
            is_simple_uuid(id) && r@ == surge_list(
                vless_configs@,
                hysteria2_configs@,
                *app_config,
                "xray_"@ + id,
            ),
{
    if vless_configs.len() == 0 && hysteria2_configs.len() == 0 {
        let r = String::new();
        assert(r@ =~= surge_list(vless_configs@, hysteria2_configs@, *app_config, "xray_"@));
        assert(is_simple_uuid(Seq::new(32, |i: int| '0')));
        assert(r@ == surge_list(vless_configs@, hysteria2_configs@, *app_config, "xray_"@ + Seq::new(32, |i: int| '0')));
        return r;
    }
    let id = new_simple_uuid();
    let mut name = copy_string("xray_");
    name.append(id.as_str());
    let r = surge_list_with_restart_name(vless_configs, hysteria2_configs, app_config, name.as_str());
    assert(is_simple_uuid(id@) && r@ == surge_list(
        vless_configs@,
        hysteria2_configs@,
        *app_config,
        "xray_"@ + id@,
    ));
    r
}

/// Surge reaches each VLESS proxy through Xray: the line of proxy `i` in the
/// Surge list uses the address and the port on which the Xray configuration
/// for the same proxies listens with inbound `i`, and that inbound is routed
/// to the outbound of proxy `i`.
pub proof fn law_surge_lines_use_xray_inbounds(
    x: XrayConfig,
    cfgs: Seq<VlessConfig>,
    app: Config,
    i: int,
)
    requires
        xray_config_for(x, cfgs, app),
        0 <= i < cfgs.len(),
    ensures
        vless_line(cfgs[i], i, app) == (if i == 0 {
            external_line(sanitize_name(cfgs[i].name@), app, x.inbounds@[i].port as int)
        } else {
            sanitize_name(cfgs[i].name@) + " = socks5, "@ + x.inbounds@[i].listen@ + ", "@ + decimal(
                x.inbounds@[i].port as nat,
            ) + "\n"@
        }),
        x.routing.rules@[i].inbound_tag@[0]@ == x.inbounds@[i].tag@,
        x.routing.rules@[i].outbound_tag@ == x.outbounds@[i].tag@,
        x.outbounds@[i].settings.vnext@[0].address@ == cfgs[i].address@,
{
    assert(inbound_for(x.inbounds@[i], i, app));
    assert(rule_for(x.routing.rules@[i], i));
    assert(outbound_for(x.outbounds@[i], i, cfgs[i], app));
}

/// The Surge list is empty exactly when there are no proxies; otherwise it
/// starts with the `[Proxy]` header.
pub proof fn law_surge_list_empty_iff_no_proxies(
    vless: Seq<VlessConfig>,
    hysteria2: Seq<Hysteria2Config>,
    app: Config,
    restart_name: Seq<char>,
)
    ensures
        (surge_list(vless, hysteria2, app, restart_name).len() == 0) <==> (vless.len() == 0
            && hysteria2.len() == 0),
        !(vless.len() == 0 && hysteria2.len() == 0) ==> has_prefix(
            surge_list(vless, hysteria2, app, restart_name),
            "[Proxy]\n"@,
        ),
{
    reveal_strlit("[Proxy]\n");
    if !(vless.len() == 0 && hysteria2.len() == 0) {
        let s = surge_list(vless, hysteria2, app, restart_name);
        let rest = external_line(restart_name, app, app.socks_start_port as int) + vless_lines(vless, app)
            + hysteria2_lines(hysteria2);
        assert(s =~= "[Proxy]\n"@ + rest);
        assert(s.subrange(0, 8) =~= "[Proxy]\n"@);
    }
}

/// Certificate checks are skipped for every insecure Hysteria2 proxy,
/// whether or not it names a server: the line of an insecure proxy carries
/// `, skip-cert-verify=true` right after the password, and the server name,
/// where there is one, only follows it; the line of a proxy that is not
/// insecure has no such part.
pub proof fn law_hysteria2_line_skips_checks_when_insecure(cfg: Hysteria2Config)
    ensures
        ({
            let head = sanitize_name(cfg.name@) + " = hysteria2, "@ + cfg.address@ + ", "@
                + decimal(cfg.port as nat) + ", password="@ + cfg.password@;
            let server = if cfg.sni@.len() > 0 {
                ", sni="@ + cfg.sni@
            } else {
                Seq::empty()
            };
            &&& cfg.insecure ==> hysteria2_line(cfg) == head + ", skip-cert-verify=true"@ + server
                + "\n"@
            &&& !cfg.insecure ==> hysteria2_line(cfg) == head + server + "\n"@
        }),
{
    let head = sanitize_name(cfg.name@) + " = hysteria2, "@ + cfg.address@ + ", "@ + decimal(
        cfg.port as nat,
    ) + ", password="@ + cfg.password@;
    let server = if cfg.sni@.len() > 0 {
        ", sni="@ + cfg.sni@
    } else {
        Seq::empty()
    };
    if cfg.insecure {
        assert(hysteria2_line(cfg) =~= head + ", skip-cert-verify=true"@ + server + "\n"@);
    } else {
        assert(hysteria2_line(cfg) =~= head + server + "\n"@);
    }
}

/// The server name only adds its own part: two Hysteria2 proxies that differ
/// only in `sni`, one of them naming no server, have lines that agree up to
/// the `, sni=<sni>` part, so the server name decides nothing else, whether
/// certificate checks are skipped included.
pub proof fn law_hysteria2_line_sni_only_appends(a: Hysteria2Config, b: Hysteria2Config)
    requires
        a.name@ == b.name@,
        a.address@ == b.address@,
        a.port == b.port,
        a.password@ == b.password@,
        a.insecure == b.insecure,
        b.sni@.len() == 0,
    ensures
        hysteria2_line(a) == hysteria2_line(b).drop_last() + (if a.sni@.len() > 0 {
            ", sni="@ + a.sni@
        } else {
            Seq::empty()
        }) + "\n"@,
{
    let head = sanitize_name(a.name@) + " = hysteria2, "@ + a.address@ + ", "@ + decimal(
        a.port as nat,
    ) + ", password="@ + a.password@ + (if a.insecure {
        ", skip-cert-verify=true"@
    } else {
        Seq::empty()
    });
    let server = if a.sni@.len() > 0 {
        ", sni="@ + a.sni@
    } else {
        Seq::empty()
    };
    reveal_strlit("\n");
    assert(hysteria2_line(b) =~= head + "\n"@);
    assert(hysteria2_line(b).drop_last() =~= head);
    assert(hysteria2_line(a) =~= head + server + "\n"@);
}

/// The name Surge gets has no white space and no comma; it is the trimmed
/// name with each white space character or comma turned into `_` and every
/// other character kept in its place; and sanitizing it again changes
/// nothing.
pub proof fn law_surge_name_of(s: Seq<char>)
    ensures
        sanitize_name(s).len() == trim(s).len(),
        forall|i: int|
            0 <= i < trim(s).len() ==> #[trigger] sanitize_name(s)[i] == (if is_space(trim(s)[i])
                || trim(s)[i] == ',' {
                '_'
            } else {
                trim(s)[i]
            }),
        forall|i: int| 0 <= i < sanitize_name(s).len() ==> !is_space(#[trigger] sanitize_name(s)[i])
            && sanitize_name(s)[i] != ',',
        sanitize_name(sanitize_name(s)) == sanitize_name(s),
{
    lemma_sanitized_clean(s);
    lemma_clean_sanitized(sanitize_name(s));
    assert forall|i: int| 0 <= i < sanitize_name(s).len() implies !is_space(
        #[trigger] sanitize_name(s)[i],
    ) && sanitize_name(s)[i] != ',' by {
        assert(!is_name_separator(sanitize_name(s)[i]));
    }
}

} // verus!
