//! The parts of a proxy link that the link parsers read: what `url::Url`
//! makes of the link, the query parameters, and the percent-decoded name.
use vstd::prelude::*;
use vstd::utf8::{decode_utf8, encode_utf8, valid_utf8};
use crate::text::{copy_string, text_eq};

verus! {

/// Why a link was not accepted.
#[derive(Debug, Clone, Copy, PartialEq, Eq, Structural)]
pub enum LinkError {
    /// The link does not start with `vless://`.
    NotVless,
    /// The link starts with neither `hysteria2://` nor `hy2://`.
    NotHysteria2,
    /// The URL parser refused the link.
    InvalidUrl,
    /// The URL has no host.
    MissingHost,
    /// The URL gives no port.
    MissingPort,
}

impl LinkError {
    /// A description of the error.
    pub fn message(&self) -> (m: String)
        ensures
            m@ == (match self {
                LinkError::NotVless => "Not a vless link"@,
                LinkError::NotHysteria2 => "Not a hysteria2 link"@,
                LinkError::InvalidUrl => "Failed to parse URL"@,
                LinkError::MissingHost => "Missing host"@,
                LinkError::MissingPort => "Missing port"@,
            }),
    {
        match self {
            LinkError::NotVless => copy_string("Not a vless link"),
            LinkError::NotHysteria2 => copy_string("Not a hysteria2 link"),
            LinkError::InvalidUrl => copy_string("Failed to parse URL"),
            LinkError::MissingHost => copy_string("Missing host"),
            LinkError::MissingPort => copy_string("Missing port"),
        }
    }
}

/// What the link parsers read of a parsed URL, as plain values.
pub struct UrlParts {
    /// The user name, percent-encoded as it stands in the URL.
    pub username: String,
    /// The host, if the URL has one.
    pub host: Option<String>,
    /// The port, if the URL gives one that is not its scheme's default.
    pub port: Option<u16>,
    /// The query's key-value pairs, decoded, in order.
    pub query: Vec<(String, String)>,
    /// The fragment (the text after `#`), if there is one.
    pub fragment: Option<String>,
}

/// The mathematical model of [`UrlParts`].
#[verifier::ext_equal]
pub struct UrlPartsView {
    pub username: Seq<char>,
    pub host: Option<Seq<char>>,
    pub port: Option<u16>,
    pub query: Seq<(Seq<char>, Seq<char>)>,
    pub fragment: Option<Seq<char>>,
}

/// The view of an optional string.
pub open spec fn opt_view(o: Option<String>) -> Option<Seq<char>> {
    match o {
        Some(s) => Some(s@),
        None => None,
    }
}

/// The views of key-value pairs.
pub open spec fn pairs_view(q: Seq<(String, String)>) -> Seq<(Seq<char>, Seq<char>)> {
    q.map_values(|p: (String, String)| (p.0@, p.1@))
}

impl View for UrlParts {
    type V = UrlPartsView;

    open spec fn view(&self) -> UrlPartsView {
        UrlPartsView {
            username: self.username@,
            host: opt_view(self.host),
            port: self.port,
            query: pairs_view(self.query@),
            fragment: opt_view(self.fragment),
        }
    }
}

/// What `url::Url::parse` makes of `link`, read through the accessors
/// `username`, `host_str`, `port`, `query_pairs` and `fragment`;
/// `None` where it refuses the link.
pub uninterp spec fn parsed_url(link: Seq<char>) -> Option<UrlPartsView>;

#[verifier::external_type_specification]
#[verifier::external_body]
pub struct ExUrlParseError(url::ParseError);

/// Calls `url::Url::parse` on `link` and reads the parsed URL's user name,
/// host, port, query pairs and fragment. The contract claims only that the
/// outcome is `parsed_url` of the link: the URL grammar itself is not stated.
#[verifier::external_body]
fn parse_url(link: &str) -> (r: Result<UrlParts, url::ParseError>)
    ensures
        r matches Ok(p) ==> parsed_url(link@) == Some(p@),
        r is Err ==> parsed_url(link@) is None,
{
    match url::Url::parse(link) {
        Ok(u) => Ok(
            UrlParts {
                username: String::from(u.username()),
                host: u.host_str().map(String::from),
                port: u.port(),
                query: u.query_pairs().into_owned().collect(),
                fragment: u.fragment().map(String::from),
            },
        ),
        Err(e) => Err(e),
    }
}

/// Parses `link` as a URL and gives its parts, or `None` where the URL
/// parser refuses it.
pub fn url_parts(link: &str) -> (r: Option<UrlParts>)
    ensures
        r matches Some(p) ==> parsed_url(link@) == Some(p@),
        r is None ==> parsed_url(link@) is None,
{
    match parse_url(link) {
        Ok(p) => Some(p),
        Err(_) => None,
    }
}

/// The value of the last pair whose key is `key` (what looking `key` up in a
/// map collected from the pairs in order gives: a later pair replaces an earlier one).
pub open spec fn query_value(q: Seq<(Seq<char>, Seq<char>)>, key: Seq<char>) -> Option<Seq<char>>
    decreases q.len(),
{
    if q.len() == 0 {
        None
    } else if q.last().0 == key {
        Some(q.last().1)
    } else {
        query_value(q.drop_last(), key)
    }
}

/// The value of `key` in the query, or `default` where the key is absent.
pub open spec fn query_value_or(
    q: Seq<(Seq<char>, Seq<char>)>,
    key: Seq<char>,
    default: Seq<char>,
) -> Seq<char> {
    match query_value(q, key) {
        Some(v) => v,
        None => default,
    }
}

/// Looks `key` up in the query pairs; the last pair with that key wins.
pub fn query_get(q: &Vec<(String, String)>, key: &str) -> (r: Option<String>)
    ensures
        opt_view(r) == query_value(pairs_view(q@), key@),
{
    let mut found: Option<String> = None;
    let mut i: usize = 0;
    assert(pairs_view(q@).take(0) =~= Seq::<(Seq<char>, Seq<char>)>::empty());
    while i < q.len()
        invariant
            i <= q@.len(),
            opt_view(found) == query_value(pairs_view(q@).take(i as int), key@),
        decreases q@.len() - i,
    {
        let ghost pre = pairs_view(q@).take(i as int + 1);
        assert(pre.drop_last() =~= pairs_view(q@).take(i as int));
        assert(pre.last() == (q@[i as int].0@, q@[i as int].1@));
        if text_eq(q[i].0.as_str(), key) {
            found = Some(copy_string(q[i].1.as_str()));
        }
        i = i + 1;
    }
    assert(pairs_view(q@).take(q@.len() as int) =~= pairs_view(q@));
    found
}

/// Looks `key` up in the query pairs, giving `default` where it is absent.
pub fn query_get_or(q: &Vec<(String, String)>, key: &str, default: &str) -> (r: String)
    ensures
        r@ == query_value_or(pairs_view(q@), key@, default@),
{
    match query_get(q, key) {
        Some(v) => v,
        None => copy_string(default),
    }
}

/// The value of an ASCII hexadecimal digit byte.
pub open spec fn hex_value(b: u8) -> Option<u8> {
    if 48 <= b <= 57 {
        Some((b - 48) as u8)
    } else if 65 <= b <= 70 {
        Some((b - 55) as u8)
    } else if 97 <= b <= 102 {
        Some((b - 87) as u8)
    } else {
        None
    }
}

/// The bytes with every `%` that two hexadecimal digits follow, and those
/// digits, replaced by the byte they denote; every other byte (a `%` without
/// two digits after it too) is kept.
pub open spec fn percent_decode_bytes(b: Seq<u8>) -> Seq<u8>
    decreases b.len(),
{
    if b.len() == 0 {
        Seq::empty()
    } else if b[0] == 37 && b.len() >= 3 && hex_value(b[1]) is Some && hex_value(b[2]) is Some {
        seq![(hex_value(b[1])->0 * 16 + hex_value(b[2])->0) as u8] + percent_decode_bytes(
            b.subrange(3, b.len() as int),
        )
    } else {
        seq![b[0]] + percent_decode_bytes(b.drop_first())
    }
}

/// What `urlencoding::decode` makes of `s`: a text without `%` as it is;
/// otherwise its UTF-8 bytes percent-decoded, read as UTF-8, and `None`
/// where they are not UTF-8.
pub open spec fn percent_decoded(s: Seq<char>) -> Option<Seq<char>> {
    if !s.contains('%') {
        Some(s)
    } else {
        let b = percent_decode_bytes(encode_utf8(s));
        if valid_utf8(b) {
            Some(decode_utf8(b))
        } else {
            None
        }
    }
}

#[verifier::external_type_specification]
#[verifier::external_body]
pub struct ExFromUtf8Error(std::string::FromUtf8Error);

/// Calls `urlencoding::decode` on `s`. The contract claims that the outcome
/// is `percent_decoded` of `s`, as the crate's `decode` and `decode_binary`
/// compute it.
#[verifier::external_body]
fn percent_decode(s: &str) -> (r: Result<String, std::string::FromUtf8Error>)
    ensures
        r matches Ok(d) ==> percent_decoded(s@) == Some(d@),
        r is Err ==> percent_decoded(s@) is None,
{
    match urlencoding::decode(s) {
        Ok(d) => Ok(d.into_owned()),
        Err(e) => Err(e),
    }
}

/// The name of a proxy: the percent-decoded fragment, the fragment as it is
/// where its escapes are not UTF-8, or `default` where there is no fragment.
pub open spec fn proxy_name_of(fragment: Option<Seq<char>>, default: Seq<char>) -> Seq<char> {
    match fragment {
        None => default,
        Some(f) => match percent_decoded(f) {
            Some(d) => d,
            None => f,
        },
    }
}

/// The name of a proxy, from the fragment of its link.
pub fn proxy_name(fragment: &Option<String>, default: &str) -> (r: String)
    ensures
        r@ == proxy_name_of(opt_view(*fragment), default@),
{
    match fragment {
        None => copy_string(default),
        Some(f) => match percent_decode(f.as_str()) {
            Ok(d) => d,
            Err(_) => copy_string(f.as_str()),
        },
    }
}

/// Of the query's pairs with a key, the last one gives the value: a pair
/// added after the others decides its key and leaves the other keys as
/// they were; a key that no pair has has no value.
pub proof fn law_query_last_pair_wins(
    q: Seq<(Seq<char>, Seq<char>)>,
    key: Seq<char>,
    other: Seq<char>,
    v: Seq<char>,
)
    ensures
        query_value(q.push((key, v)), key) == Some(v),
        other != key ==> query_value(q.push((other, v)), key) == query_value(q, key),
        query_value(q, key) is None <==> (forall|i: int| 0 <= i < q.len() ==> (#[trigger] q[i]).0 != key),
        query_value(q, key) matches Some(x) ==> exists|i: int|
            0 <= i < q.len() && #[trigger] q[i] == (key, x) && forall|j: int|
                i < j < q.len() ==> (#[trigger] q[j]).0 != key,
    decreases q.len(),
{
    assert(q.push((key, v)).drop_last() =~= q);
    assert(q.push((other, v)).drop_last() =~= q);
    if q.len() > 0 {
        let d = q.drop_last();
        law_query_last_pair_wins(d, key, other, v);
        if q.last().0 == key {
            assert(q[q.len() - 1] == (key, q.last().1));
        } else {
            assert forall|i: int| 0 <= i < d.len() implies q[i] == d[i] by {}
            if query_value(d, key) is None {
                assert forall|i: int| 0 <= i < q.len() implies (#[trigger] q[i]).0 != key by {
                    if i < d.len() {
                        assert(q[i] == d[i]);
                    }
                }
            } else {
                assert(exists|i: int| 0 <= i < d.len() && (#[trigger] d[i]).0 == key);
                let x = query_value(d, key)->0;
                let i = choose|i: int|
                    0 <= i < d.len() && #[trigger] d[i] == (key, x) && forall|j: int|
                        i < j < d.len() ==> (#[trigger] d[j]).0 != key;
                assert(q[i] == (key, x));
                assert forall|j: int| i < j < q.len() implies (#[trigger] q[j]).0 != key by {
                    if j < d.len() {
                        assert(q[j] == d[j]);
                    }
                }
            }
        }
    }
}

/// The name of a proxy: the default where its link has no fragment; the
/// fragment as it stands where it holds no `%`; otherwise the decoded
/// fragment, or the fragment as it stands where it does not decode.
pub proof fn law_proxy_name_from_fragment(fragment: Option<Seq<char>>, default: Seq<char>)
    ensures
        fragment is None ==> proxy_name_of(fragment, default) == default,
        fragment matches Some(f) ==> (!f.contains('%') ==> proxy_name_of(fragment, default) == f),
        fragment matches Some(f) ==> (percent_decoded(f) matches Some(d) ==> proxy_name_of(
            fragment,
            default,
        ) == d),
        fragment matches Some(f) ==> (percent_decoded(f) is None ==> proxy_name_of(fragment, default)
            == f),
{
}

} // verus!
