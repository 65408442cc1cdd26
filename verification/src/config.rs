//! The application's settings, with their defaults.
use vstd::prelude::*;
use crate::link::opt_view;
use crate::text::{
    copy_string, has_prefix, has_suffix, parse_unsigned, parse_unsigned_text, keep_trimmed_nonempty, split_on, split_trimmed, split_trimmed_nonempty,
    strings_view, trim,
};

verus! {

/// The settings of the conversion service.
pub struct Config {
    /// Path of the Xray executable.
    pub xray_path: String,
    /// Name of the generated Xray configuration file.
    pub config_file_name: String,
    /// Full path of the generated Xray configuration file.
    pub config_path: String,
    /// The first local SOCKS port; proxy `i` listens on the port after it plus `i`.
    pub socks_start_port: u16,
    /// Port of the conversion server.
    pub server_port: u16,
    /// Xray user level.
    pub default_user_level: u32,
    /// TLS/REALITY fingerprint used where a link names none.
    pub default_fingerprint: String,
    /// Loopback address the local proxies bind to.
    pub loopback_address: String,
    /// User agent sent when fetching subscriptions.
    pub subscription_user_agent: String,
    /// Proxies whose names contain one of these are left out.
    pub filter_keywords: Vec<String>,
}

/// The raw values of the settings' environment variables; `None` where a
/// variable is unset.
pub struct EnvVars {
    /// `XRAY_PATH`
    pub xray_path: Option<String>,
    /// `CONFIG_FILE_NAME`
    pub config_file_name: Option<String>,
    /// `CONFIG_PATH`
    pub config_path: Option<String>,
    /// `SOCKS_START_PORT`
    pub socks_start_port: Option<String>,
    /// `SERVER_PORT`
    pub server_port: Option<String>,
    /// `DEFAULT_USER_LEVEL`
    pub default_user_level: Option<String>,
    /// `DEFAULT_FINGERPRINT`
    pub default_fingerprint: Option<String>,
    /// `LOOPBACK_ADDRESS`
    pub loopback_address: Option<String>,
    /// `SUBSCRIPTION_USER_AGENT`
    pub subscription_user_agent: Option<String>,
    /// `FILTER_KEYWORDS`
    pub filter_keywords: Option<String>,
}

/// The value, or `d` where there is none.
pub open spec fn text_or(v: Option<Seq<char>>, d: Seq<char>) -> Seq<char> {
    match v {
        Some(s) => s,
        None => d,
    }
}

/// The number that the value denotes, or `d` where there is no value or it
/// is not a number no larger than `max`.
pub open spec fn number_or(v: Option<Seq<char>>, max: nat, d: nat) -> nat {
    match v {
        Some(s) => match parse_unsigned(s, max) {
            Some(n) => n,
            None => d,
        },
        None => d,
    }
}

/// The configuration file name that the variables give.
pub open spec fn config_file_name_of(vars: EnvVars) -> Seq<char> {
    text_or(opt_view(vars.config_file_name), "xray.json"@)
}

/// `c` holds the settings that `vars` give, with `default_config_path` as the
/// configuration path where `CONFIG_PATH` is unset.
pub open spec fn config_from(c: Config, vars: EnvVars, default_config_path: Seq<char>) -> bool {
    &&& c.xray_path@ == text_or(opt_view(vars.xray_path), "/opt/homebrew/bin/xray"@)
    &&& c.config_file_name@ == config_file_name_of(vars)
    &&& c.config_path@ == text_or(opt_view(vars.config_path), default_config_path)
    &&& c.socks_start_port == number_or(opt_view(vars.socks_start_port), 65535, 50000)
    &&& c.server_port == number_or(opt_view(vars.server_port), 65535, 3123)
    &&& c.default_user_level == number_or(opt_view(vars.default_user_level), 4294967295, 8)
    &&& c.default_fingerprint@ == text_or(opt_view(vars.default_fingerprint), "safari"@)
    &&& c.loopback_address@ == text_or(opt_view(vars.loopback_address), "127.0.0.1"@)
    &&& c.subscription_user_agent@ == text_or(
        opt_view(vars.subscription_user_agent),
        "v2rayNG/1.8.5"@,
    )
    &&& strings_view(c.filter_keywords@) == split_trimmed(
        text_or(opt_view(vars.filter_keywords), Seq::empty()),
        ',',
    )
}

/// The value, or `d` where there is none.
fn string_or(v: &Option<String>, d: &str) -> (r: String)
    ensures
        r@ == text_or(opt_view(*v), d@),
{
    match v {
        Some(s) => copy_string(s.as_str()),
        None => copy_string(d),
    }
}

/// The number that the value denotes, or `d`.
fn number_or_default(v: &Option<String>, max: u64, d: u64) -> (r: u64)
    requires
        d <= max,
    ensures
        r == number_or(opt_view(*v), max as nat, d as nat),
        r <= max,
{
    match v {
        Some(s) => match parse_unsigned_text(s.as_str(), max) {
            Some(n) => n,
            None => d,
        },
        None => d,
    }
}

/// The prefix that marks a verbatim Windows path: `\\?\`.
pub open spec fn verbatim_prefix() -> Seq<char> {
    seq!['\\', '\\', '?', '\\']
}

/// `file` is a plain relative name: not empty, not starting with a
/// separator (`/` or `\\`), and without `:` (so without a Windows prefix).
pub open spec fn is_plain_relative(file: Seq<char>) -> bool {
    &&& file.len() > 0
    &&& file[0] != '/'
    &&& file[0] != '\\'
    &&& !file.contains(':')
}

/// `file` joined onto `dir` as `PathBuf::push` joins a plain relative name
/// outside a verbatim prefix: appended directly (where `dir` is empty, ends
/// with a separator, or is a bare drive) or after one separator, `/` or `\\`.
pub open spec fn joined_plainly(r: Seq<char>, dir: Seq<char>, file: Seq<char>) -> bool {
    ||| r == dir + file
    ||| r == dir + seq!['/'] + file
    ||| r == dir + seq!['\\'] + file
}

/// `std::path::Path::join`: `file` adjoined to the directory `dir`, as text.
/// The contract claims what `PathBuf::push` documents on every platform:
/// the result ends with `file` (an absolute or prefixed `file` replaces
/// `dir`, a relative one is appended), except below a verbatim Windows
/// prefix, where `push` normalizes the path; and a plain relative `file` is
/// appended to `dir` as it stands, directly or after one separator. Which
/// separator, and whether one is added, depends on the platform and on `dir`.
#[verifier::external_body]
fn join_path(dir: &str, file: &str) -> (r: String)
    ensures
        !has_prefix(dir@, verbatim_prefix()) ==> has_suffix(r@, file@),
        !has_prefix(dir@, verbatim_prefix()) && is_plain_relative(file@) ==> joined_plainly(
            r@,
            dir@,
            file@,
        ),
{
    std::path::Path::new(dir).join(file).to_string_lossy().to_string()
}

impl Config {
    /// The settings that `vars` give, with `default_config_path` as the
    /// configuration path where `CONFIG_PATH` is unset.
    pub fn from_values(vars: &EnvVars, default_config_path: &str) -> (c: Config)
        ensures
            config_from(c, *vars, default_config_path@),
    {
        proof {
            reveal_strlit("");
        }
        let socks_start_port = number_or_default(&vars.socks_start_port, 65535, 50000) as u16;
        let server_port = number_or_default(&vars.server_port, 65535, 3123) as u16;
        let default_user_level = number_or_default(&vars.default_user_level, 4294967295, 8) as u32;
        let keywords = string_or(&vars.filter_keywords, "");
        Config {
            xray_path: string_or(&vars.xray_path, "/opt/homebrew/bin/xray"),
            config_file_name: string_or(&vars.config_file_name, "xray.json"),
            config_path: string_or(&vars.config_path, default_config_path),
            socks_start_port,
            server_port,
            default_user_level,
            default_fingerprint: string_or(&vars.default_fingerprint, "safari"),
            loopback_address: string_or(&vars.loopback_address, "127.0.0.1"),
            subscription_user_agent: string_or(&vars.subscription_user_agent, "v2rayNG/1.8.5"),
            filter_keywords: split_trimmed_nonempty(keywords.as_str(), ','),
        }
    }

    /// The settings that `vars` give; where `CONFIG_PATH` is unset, the
    /// configuration path is the configuration file name joined onto `current_dir`.
    pub fn from_vars(vars: &EnvVars, current_dir: &str) -> (c: Config)
        ensures
            exists|p: Seq<char>| config_from(c, *vars, p),
            vars.config_path is None && !has_prefix(current_dir@, verbatim_prefix()) ==> has_suffix(
                c.config_path@,
                config_file_name_of(*vars),
            ),
            vars.config_path is None && !has_prefix(current_dir@, verbatim_prefix())
                && is_plain_relative(config_file_name_of(*vars)) ==> joined_plainly(
                c.config_path@,
                current_dir@,
                config_file_name_of(*vars),
            ),
    {
        let name = string_or(&vars.config_file_name, "xray.json");
        let default_config_path = join_path(current_dir, name.as_str());
        let c = Self::from_values(vars, default_config_path.as_str());
        assert(config_from(c, *vars, default_config_path@));
        c
    }
}

/// The state that the request handler shares.
pub struct AppState {
    pub config: Config,
}

/// Each setting is the value of its variable where it is set (a number
/// only where the value is one in range), and otherwise its default:
/// `/opt/homebrew/bin/xray`, `xray.json`, the default configuration path,
/// `50000`, `3123`, `8`, `safari`, `127.0.0.1`, `v2rayNG/1.8.5` and no
/// filter keywords.
pub proof fn law_settings_from_variables(c: Config, vars: EnvVars, default_config_path: Seq<char>)
    requires
        config_from(c, vars, default_config_path),
    ensures
        vars.xray_path matches Some(v) ==> c.xray_path@ == v@,
        vars.xray_path is None ==> c.xray_path@ == "/opt/homebrew/bin/xray"@,
        vars.config_file_name matches Some(v) ==> c.config_file_name@ == v@,
        vars.config_file_name is None ==> c.config_file_name@ == "xray.json"@,
        vars.config_path matches Some(v) ==> c.config_path@ == v@,
        vars.config_path is None ==> c.config_path@ == default_config_path,
        vars.socks_start_port matches Some(v) ==> (parse_unsigned(v@, 65535) matches Some(n) ==> c.socks_start_port
            == n),
        vars.socks_start_port is None || parse_unsigned(vars.socks_start_port->0@, 65535) is None
            ==> c.socks_start_port == 50000,
        vars.server_port matches Some(v) ==> (parse_unsigned(v@, 65535) matches Some(n) ==> c.server_port
            == n),
        vars.server_port is None || parse_unsigned(vars.server_port->0@, 65535) is None
            ==> c.server_port == 3123,
        vars.default_user_level matches Some(v) ==> (parse_unsigned(v@, 4294967295) matches Some(n) ==> c.default_user_level
            == n),
        vars.default_user_level is None || parse_unsigned(vars.default_user_level->0@, 4294967295)
            is None ==> c.default_user_level == 8,
        vars.default_fingerprint matches Some(v) ==> c.default_fingerprint@ == v@,
        vars.default_fingerprint is None ==> c.default_fingerprint@ == "safari"@,
        vars.loopback_address matches Some(v) ==> c.loopback_address@ == v@,
        vars.loopback_address is None ==> c.loopback_address@ == "127.0.0.1"@,
        vars.subscription_user_agent matches Some(v) ==> c.subscription_user_agent@ == v@,
        vars.subscription_user_agent is None ==> c.subscription_user_agent@ == "v2rayNG/1.8.5"@,
        vars.filter_keywords is None ==> c.filter_keywords@.len() == 0,
{
    if vars.filter_keywords is None {
        let e = Seq::<char>::empty();
        assert(split_on(e, ',') == seq![e]);
        assert(seq![e].drop_last() =~= Seq::<Seq<char>>::empty());
        assert(trim(e).len() == 0);
        assert(keep_trimmed_nonempty(seq![e]) == keep_trimmed_nonempty(seq![e].drop_last()));
        assert(split_trimmed(e, ',').len() == 0);
        assert(strings_view(c.filter_keywords@).len() == c.filter_keywords@.len());
    }
}

} // verus!
