//! Handling a subscription request: the subscription URLs it names, whether
//! it wants Hysteria2 proxies, the decoding of each fetched subscription,
//! the links in it, the keyword filter, and the renaming of proxies that
//! share a name.
use vstd::prelude::*;
use vstd::utf8::{
    decode_utf8, encode_utf8, encode_utf8_decode_utf8, encode_utf8_valid_utf8, valid_utf8,
};
use base64::Engine;
use crate::hysteria2::{
    hysteria2_link_result, hysteria2_result_view, hysteria2_views, parse_hysteria2_link,
    Hysteria2Config, Hysteria2View,
};
use crate::text::{
    all_space, is_trimmed, lemma_trim_surrounded,
    decimal,
    contains_text, copy_string, occurs_at, lowercase, split_trimmed, split_trimmed_nonempty, strings_view,
    text_contains, text_eq, to_lowercase, trim, trim_str,
};
use crate::dedup::{
    counted_from, deduplicated_names, dedup_names, law_dedup_names_distinct, law_dedup_names_shape,
    law_shared_names_take_base_and_counter,
    name_count, base_of, suffixed,
};
use crate::link::pairs_view;
use crate::surge::{
    is_clean, is_name_separator, lemma_clean_sanitized,
    lemma_sanitized_clean, sanitize_name, sanitized_name,
};
use crate::vless::{
    parse_vless_link, vless_link_result, vless_result_view, vless_views, VlessConfig, VlessView,
};

verus! {

/// Why a request names no subscription.
#[derive(Debug, Clone, Copy, PartialEq, Eq, Structural)]
pub enum RequestError {
    /// The request has no `url` parameter.
    MissingUrl,
    /// The `url` parameter names no URL.
    NoValidUrls,
}

/// Why a fetched subscription could not be read.
#[derive(Debug, Clone, Copy, PartialEq, Eq, Structural)]
pub enum ContentError {
    /// The body is not Base64.
    InvalidBase64,
    /// The decoded body is not UTF-8.
    InvalidUtf8,
}

impl ContentError {
    /// A description of the error.
    pub fn message(&self) -> (m: String)
        ensures
            m@ == (match self {
                ContentError::InvalidBase64 => "invalid Base64"@,
                ContentError::InvalidUtf8 => "invalid UTF-8"@,
            }),
    {
        match self {
            ContentError::InvalidBase64 => copy_string("invalid Base64"),
            ContentError::InvalidUtf8 => copy_string("invalid UTF-8"),
        }
    }
}

/// The subscriptions yielded no proxy.
#[derive(Debug, Clone, Copy, PartialEq, Eq, Structural)]
pub struct NoProxies;

/// The subscription URLs that a `url` parameter names: comma-separated,
/// trimmed, empty ones left out.
pub fn subscription_urls(param: &str) -> (urls: Vec<String>)
    ensures
        strings_view(urls@) == split_trimmed(param@, ','),
{
    split_trimmed_nonempty(param, ',')
}

/// Whether the lower-cased value of a `hysteria` parameter leaves Hysteria2
/// proxies out: `false`, `0` or `no`.
pub open spec fn excludes_hysteria(lowered: Seq<char>) -> bool {
    lowered == "false"@ || lowered == "0"@ || lowered == "no"@
}

/// Whether a request with this `hysteria` parameter wants Hysteria2 proxies:
/// yes, unless the parameter is `false`, `0` or `no` in any case.
pub open spec fn wants_hysteria(param: Option<Seq<char>>) -> bool {
    match param {
        None => true,
        Some(v) => !excludes_hysteria(lowercase(v)),
    }
}

/// Whether the lower-cased value of a `hysteria` parameter wants Hysteria2 proxies.
pub fn hysteria_choice(lowered: &str) -> (b: bool)
    ensures
        b == !excludes_hysteria(lowered@),
{
    !(text_eq(lowered, "false") || text_eq(lowered, "0") || text_eq(lowered, "no"))
}

/// Whether a request with this `hysteria` parameter wants Hysteria2 proxies
/// (they are included by default).
pub fn parse_include_hysteria(param: Option<&str>) -> (b: bool)
    ensures
        b == wants_hysteria(match param {
            Some(v) => Some(v@),
            None => None,
        }),
{
    match param {
        None => true,
        Some(v) => {
            let lowered = to_lowercase(v);
            hysteria_choice(lowered.as_str())
        },
    }
}

/// What `base64::engine::general_purpose::STANDARD.decode` makes of `s`:
/// the bytes that the standard-alphabet, padded Base64 text denotes; `None`
/// where the crate refuses the text.
pub uninterp spec fn base64_decoded(s: Seq<char>) -> Option<Seq<u8>>;

#[verifier::external_type_specification]
#[verifier::external_body]
pub struct ExDecodeError(base64::DecodeError);

/// Calls `base64::engine::general_purpose::STANDARD.decode` on the bytes of
/// `s`. The contract claims only that the outcome is `base64_decoded` of `s`;
/// the Base64 grammar is not stated.
#[verifier::external_body]
fn base64_decode(s: &str) -> (r: Result<Vec<u8>, base64::DecodeError>)
    ensures
        r matches Ok(b) ==> base64_decoded(s@) == Some(b@),
        r is Err ==> base64_decoded(s@) is None,
{
    base64::engine::general_purpose::STANDARD.decode(s)
}

/// Calls `String::from_utf8`: it accepts exactly the valid UTF-8 byte
/// sequences and gives the characters they encode (as vstd's `valid_utf8`
/// and `decode_utf8` state them).
#[verifier::external_body]
fn string_from_utf8(b: Vec<u8>) -> (r: Result<String, std::string::FromUtf8Error>)
    ensures
        r is Ok <==> valid_utf8(b@),
        r matches Ok(s) ==> s@ == decode_utf8(b@),
{
    String::from_utf8(b)
}

/// The text that decoded bytes carry, if they are UTF-8.
pub open spec fn text_of_bytes(b: Seq<u8>) -> Result<Seq<char>, ContentError> {
    if valid_utf8(b) {
        Ok(decode_utf8(b))
    } else {
        Err(ContentError::InvalidUtf8)
    }
}

/// What a subscription body decodes to: the body, trimmed, is Base64 of
/// UTF-8 text.
pub open spec fn decoded_content(body: Seq<char>) -> Result<Seq<char>, ContentError> {
    match base64_decoded(trim(body)) {
        None => Err(ContentError::InvalidBase64),
        Some(b) => text_of_bytes(b),
    }
}

/// The view of a decoding result.
pub open spec fn content_view(r: Result<String, ContentError>) -> Result<Seq<char>, ContentError> {
    match r {
        Ok(s) => Ok(s@),
        Err(e) => Err(e),
    }
}

/// The text that decoded bytes carry.
pub fn content_from_bytes(b: Vec<u8>) -> (r: Result<String, ContentError>)
    ensures
        content_view(r) == text_of_bytes(b@),
{
    match string_from_utf8(b) {
        Ok(s) => Ok(s),
        Err(_) => Err(ContentError::InvalidUtf8),
    }
}

/// Decodes a subscription body: trimmed, Base64, UTF-8.
pub fn decode_base64_content(content: &str) -> (r: Result<String, ContentError>)
    ensures
        content_view(r) == decoded_content(content@),
{
    let trimmed = trim_str(content);
    match base64_decode(trimmed.as_str()) {
        Ok(b) => content_from_bytes(b),
        Err(_) => Err(ContentError::InvalidBase64),
    }
}

/// The links of a decoded subscription: its lines, trimmed, empty ones left out.
pub fn link_lines(text: &str) -> (lines: Vec<String>)
    ensures
        strings_view(lines@) == split_trimmed(text@, '\n'),
{
    split_trimmed_nonempty(text, '\n')
}

/// The name contains one of the keywords.
pub open spec fn filtered_by(name: Seq<char>, keywords: Seq<Seq<char>>) -> bool {
    exists|k: int| 0 <= k < keywords.len() && contains_text(name, #[trigger] keywords[k])
}

/// Whether the name contains one of the keywords.
pub fn is_filtered(name: &str, keywords: &[String]) -> (b: bool)
    ensures
        b == filtered_by(name@, strings_view(keywords@)),
{
    let mut k: usize = 0;
    while k < keywords.len()
        invariant
            k <= keywords@.len(),
            forall|j: int| 0 <= j < k ==> !contains_text(name@, #[trigger] strings_view(keywords@)[j]),
        decreases keywords@.len() - k,
    {
        if text_contains(name, keywords[k].as_str()) {
            assert(contains_text(name@, strings_view(keywords@)[k as int]));
            return true;
        }
        k = k + 1;
    }
    false
}

/// The VLESS proxies that the links give, in order, leaving out those whose
/// names contain a keyword.
pub open spec fn collected_vless(lines: Seq<Seq<char>>, keywords: Seq<Seq<char>>) -> Seq<VlessView>
    decreases lines.len(),
{
    if lines.len() == 0 {
        Seq::empty()
    } else {
        let prev = collected_vless(lines.drop_last(), keywords);
        match vless_link_result(lines.last()) {
            Ok(c) => if filtered_by(c.name, keywords) {
                prev
            } else {
                prev.push(c)
            },
            Err(_) => prev,
        }
    }
}

/// The Hysteria2 proxies that the links give, in order: only where they are
/// wanted, only from links that are not VLESS links, leaving out those whose
/// names contain a keyword.
pub open spec fn collected_hysteria2(
    lines: Seq<Seq<char>>,
    include_hysteria: bool,
    keywords: Seq<Seq<char>>,
) -> Seq<Hysteria2View>
    decreases lines.len(),
{
    if lines.len() == 0 {
        Seq::empty()
    } else {
        let prev = collected_hysteria2(lines.drop_last(), include_hysteria, keywords);
        match vless_link_result(lines.last()) {
            Ok(_) => prev,
            Err(_) => if !include_hysteria {
                prev
            } else {
                match hysteria2_link_result(lines.last()) {
                    Ok(c) => if filtered_by(c.name, keywords) {
                        prev
                    } else {
                        prev.push(c)
                    },
                    Err(_) => prev,
                }
            },
        }
    }
}

/// The names of the proxies that the links give but the keyword filter
/// leaves out, in order.
pub open spec fn filtered_out(
    lines: Seq<Seq<char>>,
    include_hysteria: bool,
    keywords: Seq<Seq<char>>,
) -> Seq<Seq<char>>
    decreases lines.len(),
{
    if lines.len() == 0 {
        Seq::empty()
    } else {
        let prev = filtered_out(lines.drop_last(), include_hysteria, keywords);
        match vless_link_result(lines.last()) {
            Ok(c) => if filtered_by(c.name, keywords) {
                prev.push(c.name)
            } else {
                prev
            },
            Err(_) => if !include_hysteria {
                prev
            } else {
                match hysteria2_link_result(lines.last()) {
                    Ok(c) => if filtered_by(c.name, keywords) {
                        prev.push(c.name)
                    } else {
                        prev
                    },
                    Err(_) => prev,
                }
            },
        }
    }
}

/// Adds the proxies of a decoded subscription: each link is tried as a VLESS
/// link first, then, where Hysteria2 proxies are wanted, as a Hysteria2 link;
/// proxies whose names contain a keyword are left out, and their names are
/// added to `filtered`.
pub fn collect_links(
    text: &str,
    include_hysteria: bool,
    keywords: &[String],
    vless: &mut Vec<VlessConfig>,
    hysteria2: &mut Vec<Hysteria2Config>,
    filtered: &mut Vec<String>,
)
    ensures
        strings_view(final(filtered)@) == strings_view(old(filtered)@) + filtered_out(
            split_trimmed(text@, '\n'),
            include_hysteria,
            strings_view(keywords@),
        ),
        vless_views(final(vless)@) == vless_views(old(vless)@) + collected_vless(
            split_trimmed(text@, '\n'),
            strings_view(keywords@),
        ),
        hysteria2_views(final(hysteria2)@) == hysteria2_views(old(hysteria2)@)
            + collected_hysteria2(split_trimmed(text@, '\n'), include_hysteria, strings_view(keywords@)),
{
    let lines = link_lines(text);
    let ghost ls = strings_view(lines@);
    let ghost kws = strings_view(keywords@);
    let mut i: usize = 0;
    assert(ls.take(0) =~= Seq::<Seq<char>>::empty());
    assert(vless_views(vless@) =~= vless_views(old(vless)@) + collected_vless(ls.take(0), kws));
    assert(hysteria2_views(hysteria2@) =~= hysteria2_views(old(hysteria2)@) + collected_hysteria2(
        ls.take(0),
        include_hysteria,
        kws,
    ));
    assert(strings_view(filtered@) =~= strings_view(old(filtered)@) + filtered_out(
        ls.take(0),
        include_hysteria,
        kws,
    ));
    while i < lines.len()
        invariant
            i <= lines@.len(),
            strings_view(filtered@) == strings_view(old(filtered)@) + filtered_out(
                ls.take(i as int),
                include_hysteria,
                kws,
            ),
            ls == strings_view(lines@),
            kws == strings_view(keywords@),
            vless_views(vless@) == vless_views(old(vless)@) + collected_vless(ls.take(i as int), kws),
            hysteria2_views(hysteria2@) == hysteria2_views(old(hysteria2)@) + collected_hysteria2(
                ls.take(i as int),
                include_hysteria,
                kws,
            ),
        decreases lines@.len() - i,
    {
        let link = lines[i].as_str();
        let ghost pre = ls.take(i as int + 1);
        assert(pre.drop_last() =~= ls.take(i as int));
        assert(pre.last() == link@);
        let ghost v0 = vless_views(vless@);
        let ghost h0 = hysteria2_views(hysteria2@);
        let ghost f0 = strings_view(filtered@);
        match parse_vless_link(link) {
            Ok(cfg) => {
                assert(vless_result_view(Ok(cfg)) == vless_link_result(link@));
                if !is_filtered(cfg.name.as_str(), keywords) {
                    vless.push(cfg);
                    assert(vless_views(vless@) =~= v0.push(cfg@));
                } else {
                    filtered.push(copy_string(cfg.name.as_str()));
                    assert(strings_view(filtered@) =~= f0.push(cfg.name@));
                }
            },
            Err(e) => {
                assert(vless_result_view(Err(e)) == vless_link_result(link@));
                if include_hysteria {
                    match parse_hysteria2_link(link) {
                        Ok(cfg) => {
                            assert(hysteria2_result_view(Ok(cfg)) == hysteria2_link_result(link@));
                            if !is_filtered(cfg.name.as_str(), keywords) {
                                hysteria2.push(cfg);
                                assert(hysteria2_views(hysteria2@) =~= h0.push(cfg@));
                            } else {
                                filtered.push(copy_string(cfg.name.as_str()));
                                assert(strings_view(filtered@) =~= f0.push(cfg.name@));
                            }
                        },
                        Err(e2) => {
                            assert(hysteria2_result_view(Err(e2)) == hysteria2_link_result(link@));
                        },
                    }
                }
            },
        }
        i = i + 1;
    }
    assert(ls.take(lines@.len() as int) =~= ls);
}

/// The name a proxy with a shared name is renamed from: its name, `-`, its address.
pub open spec fn name_with_address(name: Seq<char>, address: Seq<char>) -> Seq<char> {
    name + "-"@ + address
}

/// The entries of the VLESS proxies: each name, and the name with the address.
pub open spec fn vless_entries(cs: Seq<VlessView>) -> Seq<(Seq<char>, Seq<char>)> {
    cs.map_values(|c: VlessView| (c.name, name_with_address(c.name, c.address)))
}

/// The entries of the VLESS proxies as Surge shows them: the sanitized name,
/// and the address with white space and commas replaced.
pub open spec fn vless_display_entries(cs: Seq<VlessView>) -> Seq<(Seq<char>, Seq<char>)> {
    cs.map_values(
        |c: VlessView| (sanitize_name(c.name), sanitize_name(name_with_address(c.name, c.address))),
    )
}

/// The name with the address, as text.
fn name_with_address_text(name: &str, address: &str) -> (r: String)
    ensures
        r@ == name_with_address(name@, address@),
{
    let mut r = copy_string(name);
    r.append("-");
    r.append(address);
    r
}

/// The entries of the Hysteria2 proxies as Surge shows them.
pub open spec fn hysteria2_display_entries(cs: Seq<Hysteria2View>) -> Seq<(Seq<char>, Seq<char>)> {
    cs.map_values(
        |c: Hysteria2View| (
            sanitize_name(c.name),
            sanitize_name(name_with_address(c.name, c.address)),
        ),
    )
}

/// The VLESS proxy with another name.
pub open spec fn renamed_vless(c: VlessView, name: Seq<char>) -> VlessView {
    VlessView { name: name, ..c }
}

/// The Hysteria2 proxy with another name.
pub open spec fn renamed_hysteria2(c: Hysteria2View, name: Seq<char>) -> Hysteria2View {
    Hysteria2View { name: name, ..c }
}

/// The VLESS proxies, proxy `i` named `names[i]`.
pub open spec fn vless_with_names(cs: Seq<VlessView>, names: Seq<Seq<char>>) -> Seq<VlessView> {
    Seq::new(cs.len(), |i: int| renamed_vless(cs[i], names[i]))
}

/// The Hysteria2 proxies, proxy `i` named `names[i]`.
pub open spec fn hysteria2_with_names(cs: Seq<Hysteria2View>, names: Seq<Seq<char>>) -> Seq<
    Hysteria2View,
> {
    Seq::new(cs.len(), |i: int| renamed_hysteria2(cs[i], names[i]))
}

/// The VLESS proxies after telling those that share a name apart.
pub open spec fn deduplicated(cs: Seq<VlessView>) -> Seq<VlessView> {
    vless_with_names(cs, dedup_names(vless_entries(cs)))
}

/// The names the VLESS proxies and then the Hysteria2 proxies end up with,
/// told apart together by the names Surge shows.
pub open spec fn all_dedup_names(v: Seq<VlessView>, h: Seq<Hysteria2View>) -> Seq<Seq<char>> {
    dedup_names(vless_display_entries(v) + hysteria2_display_entries(h))
}

/// The entries of the VLESS proxies.
fn vless_entries_of(cs: &Vec<VlessConfig>) -> (e: Vec<(String, String)>)
    ensures
        pairs_view(e@) == vless_entries(vless_views(cs@)),
{
    let mut e: Vec<(String, String)> = Vec::new();
    let mut i: usize = 0;
    while i < cs.len()
        invariant
            i <= cs@.len(),
            pairs_view(e@) == vless_entries(vless_views(cs@)).take(i as int),
        decreases cs@.len() - i,
    {
        let ghost before = e@;
        let base = name_with_address_text(cs[i].name.as_str(), cs[i].address.as_str());
        e.push((copy_string(cs[i].name.as_str()), base));
        let ghost entry = (cs@[i as int].name@, name_with_address(cs@[i as int].name@, cs@[i as int].address@));
        assert(vless_views(cs@)[i as int] == cs@[i as int]@);
        assert(vless_entries(vless_views(cs@))[i as int] == entry);
        assert(pairs_view(e@) =~= pairs_view(before).push(entry));
        assert(pairs_view(e@) =~= vless_entries(vless_views(cs@)).take(i as int + 1));
        i = i + 1;
    }
    assert(vless_entries(vless_views(cs@)).take(cs@.len() as int) =~= vless_entries(
        vless_views(cs@),
    ));
    e
}

/// The display entries of the VLESS proxies.
fn vless_display_entries_of(cs: &Vec<VlessConfig>) -> (e: Vec<(String, String)>)
    ensures
        pairs_view(e@) == vless_display_entries(vless_views(cs@)),
{
    let mut e: Vec<(String, String)> = Vec::new();
    let mut i: usize = 0;
    while i < cs.len()
        invariant
            i <= cs@.len(),
            pairs_view(e@) == vless_display_entries(vless_views(cs@)).take(i as int),
        decreases cs@.len() - i,
    {
        let ghost before = e@;
        let base = name_with_address_text(cs[i].name.as_str(), cs[i].address.as_str());
        e.push((sanitized_name(cs[i].name.as_str()), sanitized_name(base.as_str())));
        let ghost entry = (
            sanitize_name(cs@[i as int].name@),
            sanitize_name(name_with_address(cs@[i as int].name@, cs@[i as int].address@)),
        );
        assert(vless_views(cs@)[i as int] == cs@[i as int]@);
        assert(vless_display_entries(vless_views(cs@))[i as int] == entry);
        assert(pairs_view(e@) =~= pairs_view(before).push(entry));
        assert(pairs_view(e@) =~= vless_display_entries(vless_views(cs@)).take(i as int + 1));
        i = i + 1;
    }
    assert(vless_display_entries(vless_views(cs@)).take(cs@.len() as int) =~= vless_display_entries(
        vless_views(cs@),
    ));
    e
}

/// Adds the display entries of the Hysteria2 proxies after `e`.
fn push_hysteria2_display_entries(e: &mut Vec<(String, String)>, cs: &Vec<Hysteria2Config>)
    ensures
        pairs_view(final(e)@) == pairs_view(old(e)@) + hysteria2_display_entries(
            hysteria2_views(cs@),
        ),
{
    let mut i: usize = 0;
    while i < cs.len()
        invariant
            i <= cs@.len(),
            pairs_view(e@) == pairs_view(old(e)@) + hysteria2_display_entries(
                hysteria2_views(cs@),
            ).take(i as int),
        decreases cs@.len() - i,
    {
        let ghost before = e@;
        let base = name_with_address_text(cs[i].name.as_str(), cs[i].address.as_str());
        e.push((sanitized_name(cs[i].name.as_str()), sanitized_name(base.as_str())));
        let ghost entry = (
            sanitize_name(cs@[i as int].name@),
            sanitize_name(name_with_address(cs@[i as int].name@, cs@[i as int].address@)),
        );
        assert(hysteria2_views(cs@)[i as int] == cs@[i as int]@);
        assert(hysteria2_display_entries(hysteria2_views(cs@))[i as int] == entry);
        assert(pairs_view(e@) =~= pairs_view(before).push(entry));
        assert(pairs_view(e@) =~= pairs_view(old(e)@) + hysteria2_display_entries(
            hysteria2_views(cs@),
        ).take(i as int + 1));
        i = i + 1;
    }
    assert(hysteria2_display_entries(hysteria2_views(cs@)).take(cs@.len() as int)
        =~= hysteria2_display_entries(hysteria2_views(cs@)));
}

/// Names VLESS proxy `i` after `names[offset + i]`.
fn rename_vless(cs: &mut Vec<VlessConfig>, names: &Vec<String>, offset: usize)
    requires
        offset + old(cs)@.len() <= names@.len(),
    ensures
        vless_views(final(cs)@) == vless_with_names(
            vless_views(old(cs)@),
            strings_view(names@).skip(offset as int),
        ),
{
    let ghost start = vless_views(cs@);
    let ghost ns = strings_view(names@).skip(offset as int);
    let n = cs.len();
    let mut i: usize = 0;
    while i < n
        invariant
            i <= n == cs@.len() == start.len(),
            offset + n <= names.len(),
            ns == strings_view(names@).skip(offset as int),
            forall|j: int| 0 <= j < i ==> #[trigger] vless_views(cs@)[j] == renamed_vless(start[j], ns[j]),
            forall|j: int| i <= j < n ==> #[trigger] vless_views(cs@)[j] == start[j],
        decreases n - i,
    {
        let ghost before = cs@;
        assert(ns[i as int] == names@[offset + i]@);
        assert(vless_views(before)[i as int] == start[i as int]);
        assert(before[i as int]@ == start[i as int]);
        let name = copy_string(names[offset + i].as_str());
        cs[i].name = name;
        assert(cs@[i as int].name@ == ns[i as int]);
        assert(vless_views(cs@)[i as int] == cs@[i as int]@);
        assert(vless_views(cs@)[i as int] =~= renamed_vless(start[i as int], ns[i as int]));
        assert forall|j: int| 0 <= j < n && j != i implies #[trigger] vless_views(cs@)[j] == vless_views(before)[j] by {
            assert(cs@[j] == before[j]);
        }
        i = i + 1;
    }
    assert(vless_views(cs@) =~= vless_with_names(start, ns));
}

/// Names Hysteria2 proxy `i` after `names[offset + i]`.
fn rename_hysteria2(cs: &mut Vec<Hysteria2Config>, names: &Vec<String>, offset: usize)
    requires
        offset + old(cs)@.len() <= names@.len(),
    ensures
        hysteria2_views(final(cs)@) == hysteria2_with_names(
            hysteria2_views(old(cs)@),
            strings_view(names@).skip(offset as int),
        ),
{
    let ghost start = hysteria2_views(cs@);
    let ghost ns = strings_view(names@).skip(offset as int);
    let n = cs.len();
    let mut i: usize = 0;
    while i < n
        invariant
            i <= n == cs@.len() == start.len(),
            offset + n <= names.len(),
            ns == strings_view(names@).skip(offset as int),
            forall|j: int|
                0 <= j < i ==> #[trigger] hysteria2_views(cs@)[j] == renamed_hysteria2(start[j], ns[j]),
            forall|j: int| i <= j < n ==> #[trigger] hysteria2_views(cs@)[j] == start[j],
        decreases n - i,
    {
        let ghost before = cs@;
        assert(ns[i as int] == names@[offset + i]@);
        assert(hysteria2_views(before)[i as int] == start[i as int]);
        assert(before[i as int]@ == start[i as int]);
        let name = copy_string(names[offset + i].as_str());
        cs[i].name = name;
        assert(cs@[i as int].name@ == ns[i as int]);
        assert(hysteria2_views(cs@)[i as int] == cs@[i as int]@);
        assert(hysteria2_views(cs@)[i as int] =~= renamed_hysteria2(start[i as int], ns[i as int]));
        assert forall|j: int| 0 <= j < n && j != i implies #[trigger] hysteria2_views(cs@)[j] == hysteria2_views(before)[j] by {
            assert(cs@[j] == before[j]);
        }
        i = i + 1;
    }
    assert(hysteria2_views(cs@) =~= hysteria2_with_names(start, ns));
}

/// Tells VLESS proxies that share a name apart: a proxy whose name no other
/// proxy has keeps it; the others take their name, `-` and their address,
/// with a counter `-1`, `-2`, ... where that name is taken, so that no two
/// proxies end up with one name.
pub fn deduplicate_proxy_names(configs: Vec<VlessConfig>) -> (r: Vec<VlessConfig>)
    ensures
        vless_views(r@) == deduplicated(vless_views(configs@)),
{
    let entries = vless_entries_of(&configs);
    let names = deduplicated_names(&entries);
    proof {
        law_dedup_names_shape(pairs_view(entries@));
    }
    let mut configs = configs;
    rename_vless(&mut configs, &names, 0);
    assert(strings_view(names@).skip(0) =~= strings_view(names@));
    configs
}

/// Tells all proxies, VLESS and Hysteria2 together, apart by the names
/// Surge shows for them (sanitized, see `surge::sanitize_name`): a proxy
/// whose shown name no other proxy has keeps it; the others take their
/// name, `-` and their address as Surge shows it, with a counter `-1`, `-2`,
/// ... where that is taken. Every proxy ends up with its name as Surge shows it.
pub fn deduplicate_all_proxy_names(vless: &mut Vec<VlessConfig>, hysteria2: &mut Vec<Hysteria2Config>)
    ensures
        vless_views(final(vless)@) == vless_with_names(
            vless_views(old(vless)@),
            all_dedup_names(vless_views(old(vless)@), hysteria2_views(old(hysteria2)@)),
        ),
        hysteria2_views(final(hysteria2)@) == hysteria2_with_names(
            hysteria2_views(old(hysteria2)@),
            all_dedup_names(vless_views(old(vless)@), hysteria2_views(old(hysteria2)@)).skip(
                old(vless)@.len() as int,
            ),
        ),
{
    let mut entries = vless_display_entries_of(vless);
    push_hysteria2_display_entries(&mut entries, hysteria2);
    let names = deduplicated_names(&entries);
    proof {
        law_dedup_names_shape(pairs_view(entries@));
    }
    let nv = vless.len();
    rename_vless(vless, &names, 0);
    assert(strings_view(names@).skip(0) =~= strings_view(names@));
    rename_hysteria2(hysteria2, &names, nv);
}

/// The proxies collected after one more subscription URL was tried: `None`
/// where it gave no body (the fetch failed), otherwise its body. A body that
/// does not decode adds nothing.
pub open spec fn after_body(
    v: Seq<VlessView>,
    h: Seq<Hysteria2View>,
    include_hysteria: bool,
    keywords: Seq<Seq<char>>,
    body: Option<Seq<char>>,
) -> (Seq<VlessView>, Seq<Hysteria2View>) {
    match body {
        None => (v, h),
        Some(b) => match decoded_content(b) {
            Err(_) => (v, h),
            Ok(text) => (
                v + collected_vless(split_trimmed(text, '\n'), keywords),
                h + collected_hysteria2(split_trimmed(text, '\n'), include_hysteria, keywords),
            ),
        },
    }
}

/// The proxies collected after trying the subscription URLs in order.
pub open spec fn after_bodies(
    v: Seq<VlessView>,
    h: Seq<Hysteria2View>,
    include_hysteria: bool,
    keywords: Seq<Seq<char>>,
    bodies: Seq<Option<Seq<char>>>,
) -> (Seq<VlessView>, Seq<Hysteria2View>)
    decreases bodies.len(),
{
    if bodies.len() == 0 {
        (v, h)
    } else {
        let prev = after_bodies(v, h, include_hysteria, keywords, bodies.drop_last());
        after_body(prev.0, prev.1, include_hysteria, keywords, bodies.last())
    }
}

/// A subscription URL that gave no body, or a body that does not decode,
/// changes nothing: the proxies collected are those collected without it.
pub proof fn law_failed_subscription_changes_nothing(
    v: Seq<VlessView>,
    h: Seq<Hysteria2View>,
    include_hysteria: bool,
    keywords: Seq<Seq<char>>,
    bodies: Seq<Option<Seq<char>>>,
    k: int,
)
    requires
        0 <= k < bodies.len(),
        bodies[k] is None || decoded_content(bodies[k]->0) is Err,
    ensures
        after_bodies(v, h, include_hysteria, keywords, bodies) == after_bodies(
            v,
            h,
            include_hysteria,
            keywords,
            bodies.remove(k),
        ),
    decreases bodies.len(),
{
    if k == bodies.len() - 1 {
        assert(bodies.remove(k) =~= bodies.drop_last());
    } else {
        law_failed_subscription_changes_nothing(
            v,
            h,
            include_hysteria,
            keywords,
            bodies.drop_last(),
            k,
        );
        assert(bodies.remove(k).drop_last() =~= bodies.drop_last().remove(k));
        assert(bodies.remove(k).last() == bodies.last());
    }
}

/// A subscription request in progress: the URLs still to fetch are the
/// caller's to walk; the proxies collected so far are kept here.
pub struct Subscription {
    /// The subscription URLs, in the order they are fetched.
    pub urls: Vec<String>,
    /// Whether Hysteria2 proxies are wanted.
    pub include_hysteria: bool,
    /// The VLESS proxies collected so far.
    pub vless: Vec<VlessConfig>,
    /// The Hysteria2 proxies collected so far.
    pub hysteria2: Vec<Hysteria2Config>,
}

/// The option's view.
pub open spec fn param_view(p: Option<&str>) -> Option<Seq<char>> {
    match p {
        Some(v) => Some(v@),
        None => None,
    }
}

impl Subscription {
    /// Starts a request from its `url` and `hysteria` parameters: it must
    /// name at least one URL.
    pub fn start(url_param: Option<&str>, hysteria_param: Option<&str>) -> (r: Result<
        Subscription,
        RequestError,
    >)
        ensures
            url_param is None ==> r == Err::<Subscription, RequestError>(RequestError::MissingUrl),
            url_param matches Some(p) ==> {
                let urls = split_trimmed(p@, ',');
                &&& urls.len() == 0 ==> r == Err::<Subscription, RequestError>(
                    RequestError::NoValidUrls,
                )
                &&& urls.len() > 0 ==> (r matches Ok(s) && strings_view(s.urls@) == urls
                    && s.include_hysteria == wants_hysteria(param_view(hysteria_param))
                    && s.vless@.len() == 0 && s.hysteria2@.len() == 0)
            },
    {
        let p = match url_param {
            Some(p) => p,
            None => return Err(RequestError::MissingUrl),
        };
        let urls = subscription_urls(p);
        if urls.len() == 0 {
            return Err(RequestError::NoValidUrls);
        }
        let include_hysteria = parse_include_hysteria(hysteria_param);
        Ok(Subscription { urls, include_hysteria, vless: Vec::new(), hysteria2: Vec::new() })
    }

    /// Takes in the body of a fetched subscription: a body that does not
    /// decode is passed over (the error is returned); otherwise its proxies
    /// are added after those collected so far, and the names of those the
    /// keyword filter left out are returned.
    pub fn accept_body(&mut self, body: &str, keywords: &[String]) -> (r: Result<
        Vec<String>,
        ContentError,
    >)
        ensures
            final(self).urls == old(self).urls,
            final(self).include_hysteria == old(self).include_hysteria,
            (vless_views(final(self).vless@), hysteria2_views(final(self).hysteria2@)) == after_body(
                vless_views(old(self).vless@),
                hysteria2_views(old(self).hysteria2@),
                old(self).include_hysteria,
                strings_view(keywords@),
                Some(body@),
            ),
            match decoded_content(body@) {
                Err(e) => r == Err::<Vec<String>, ContentError>(e) && final(self).vless@ == old(
                    self,
                ).vless@ && final(self).hysteria2@ == old(self).hysteria2@,
                Ok(text) => (r matches Ok(names) && strings_view(names@) == filtered_out(
                    split_trimmed(text, '\n'),
                    old(self).include_hysteria,
                    strings_view(keywords@),
                )) && vless_views(final(self).vless@) == vless_views(
                    old(self).vless@,
                ) + collected_vless(split_trimmed(text, '\n'), strings_view(keywords@))
                    && hysteria2_views(final(self).hysteria2@) == hysteria2_views(
                    old(self).hysteria2@,
                ) + collected_hysteria2(
                    split_trimmed(text, '\n'),
                    old(self).include_hysteria,
                    strings_view(keywords@),
                ),
            },
    {
        match decode_base64_content(body) {
            Err(e) => Err(e),
            Ok(text) => {
                let mut filtered: Vec<String> = Vec::new();
                collect_links(
                    text.as_str(),
                    self.include_hysteria,
                    keywords,
                    &mut self.vless,
                    &mut self.hysteria2,
                    &mut filtered,
                );
                assert(strings_view(filtered@) =~= filtered_out(
                    split_trimmed(text@, '\n'),
                    self.include_hysteria,
                    strings_view(keywords@),
                ));
                Ok(filtered)
            },
        }
    }

    /// Ends the request: it fails where no proxy was collected; otherwise it
    /// gives the VLESS proxies and (where they are wanted) the Hysteria2
    /// proxies, told apart together where they share a name.
    pub fn finish(self) -> (r: Result<(Vec<VlessConfig>, Vec<Hysteria2Config>), NoProxies>)
        ensures
            self.vless@.len() == 0 && self.hysteria2@.len() == 0 ==> r is Err,
            !(self.vless@.len() == 0 && self.hysteria2@.len() == 0) ==> (r matches Ok(out) && {
                let h = if self.include_hysteria {
                    hysteria2_views(self.hysteria2@)
                } else {
                    Seq::empty()
                };
                let names = all_dedup_names(vless_views(self.vless@), h);
                &&& vless_views(out.0@) == vless_with_names(vless_views(self.vless@), names)
                &&& hysteria2_views(out.1@) == hysteria2_with_names(
                    h,
                    names.skip(self.vless@.len() as int),
                )
            }),
    {
        if self.vless.len() == 0 && self.hysteria2.len() == 0 {
            return Err(NoProxies);
        }
        let mut vless = self.vless;
        let mut hysteria2 = if self.include_hysteria {
            self.hysteria2
        } else {
            Vec::new()
        };
        assert(hysteria2_views(hysteria2@) =~= (if self.include_hysteria {
            hysteria2_views(self.hysteria2@)
        } else {
            Seq::empty()
        }));
        deduplicate_all_proxy_names(&mut vless, &mut hysteria2);
        Ok((vless, hysteria2))
    }
}

/// Keyword filtering: no collected proxy, VLESS or Hysteria2, has a name
/// that contains one of the keywords.
pub proof fn law_collected_names_avoid_keywords(
    lines: Seq<Seq<char>>,
    include_hysteria: bool,
    keywords: Seq<Seq<char>>,
)
    ensures
        forall|i: int|
            0 <= i < collected_vless(lines, keywords).len() ==> !filtered_by(
                #[trigger] collected_vless(lines, keywords)[i].name,
                keywords,
            ),
        forall|i: int|
            0 <= i < collected_hysteria2(lines, include_hysteria, keywords).len() ==> !filtered_by(
                #[trigger] collected_hysteria2(lines, include_hysteria, keywords)[i].name,
                keywords,
            ),
    decreases lines.len(),
{
    if lines.len() > 0 {
        let rest = lines.drop_last();
        law_collected_names_avoid_keywords(rest, include_hysteria, keywords);
        let pv = collected_vless(rest, keywords);
        let cv = collected_vless(lines, keywords);
        assert forall|i: int| 0 <= i < cv.len() implies !filtered_by(#[trigger] cv[i].name, keywords) by {
            if i < pv.len() {
                assert(cv[i] == pv[i]);
            }
        }
        let ph = collected_hysteria2(rest, include_hysteria, keywords);
        let ch = collected_hysteria2(lines, include_hysteria, keywords);
        assert forall|i: int| 0 <= i < ch.len() implies !filtered_by(#[trigger] ch[i].name, keywords) by {
            if i < ph.len() {
                assert(ch[i] == ph[i]);
            }
        }
    }
}

/// Every name the keyword filter leaves out contains one of the keywords.
pub proof fn law_filtered_names_contain_keywords(
    lines: Seq<Seq<char>>,
    include_hysteria: bool,
    keywords: Seq<Seq<char>>,
)
    ensures
        forall|i: int|
            0 <= i < filtered_out(lines, include_hysteria, keywords).len() ==> filtered_by(
                #[trigger] filtered_out(lines, include_hysteria, keywords)[i],
                keywords,
            ),
    decreases lines.len(),
{
    if lines.len() > 0 {
        let rest = lines.drop_last();
        law_filtered_names_contain_keywords(rest, include_hysteria, keywords);
        let p = filtered_out(rest, include_hysteria, keywords);
        let c = filtered_out(lines, include_hysteria, keywords);
        assert forall|i: int| 0 <= i < c.len() implies filtered_by(#[trigger] c[i], keywords) by {
            if i < p.len() {
                assert(c[i] == p[i]);
            }
        }
    }
}

/// A request that does not want Hysteria2 proxies collects none.
pub proof fn law_no_hysteria_when_not_wanted(lines: Seq<Seq<char>>, keywords: Seq<Seq<char>>)
    ensures
        collected_hysteria2(lines, false, keywords).len() == 0,
    decreases lines.len(),
{
    if lines.len() > 0 {
        law_no_hysteria_when_not_wanted(lines.drop_last(), keywords);
    }
}

/// After telling proxies apart, no two proxies, VLESS or Hysteria2, have
/// one name.
pub proof fn law_all_names_distinct(v: Seq<VlessView>, h: Seq<Hysteria2View>)
    ensures
        forall|i: int, j: int|
            0 <= i < j < v.len() ==> #[trigger] vless_with_names(v, all_dedup_names(v, h))[i].name
                != #[trigger] vless_with_names(v, all_dedup_names(v, h))[j].name,
        forall|i: int, j: int|
            0 <= i < v.len() && 0 <= j < h.len() ==> #[trigger] vless_with_names(
                v,
                all_dedup_names(v, h),
            )[i].name != #[trigger] hysteria2_with_names(
                h,
                all_dedup_names(v, h).skip(v.len() as int),
            )[j].name,
        forall|i: int, j: int|
            0 <= i < j < h.len() ==> #[trigger] hysteria2_with_names(
                h,
                all_dedup_names(v, h).skip(v.len() as int),
            )[i].name != #[trigger] hysteria2_with_names(
                h,
                all_dedup_names(v, h).skip(v.len() as int),
            )[j].name,
{
    let all = vless_display_entries(v) + hysteria2_display_entries(h);
    let names = all_dedup_names(v, h);
    law_dedup_names_shape(all);
    assert forall|i: int, j: int| 0 <= i < j < v.len() implies #[trigger] vless_with_names(
        v,
        names,
    )[i].name != #[trigger] vless_with_names(v, names)[j].name by {
        law_dedup_names_distinct(all, i, j);
    }
    assert forall|i: int, j: int| 0 <= i < v.len() && 0 <= j < h.len() implies #[trigger] vless_with_names(
        v,
        names,
    )[i].name != #[trigger] hysteria2_with_names(h, names.skip(v.len() as int))[j].name by {
        law_dedup_names_distinct(all, i, v.len() + j);
    }
    assert forall|i: int, j: int| 0 <= i < j < h.len() implies #[trigger] hysteria2_with_names(
        h,
        names.skip(v.len() as int),
    )[i].name != #[trigger] hysteria2_with_names(h, names.skip(v.len() as int))[j].name by {
        law_dedup_names_distinct(all, v.len() + i, v.len() + j);
    }
}

/// Telling VLESS proxies apart keeps every proxy, in its place, with
/// everything but its name; a proxy whose name no other proxy has keeps it;
/// no two proxies end up with one name.
pub proof fn law_deduplicated_vless(cs: Seq<VlessView>)
    ensures
        deduplicated(cs).len() == cs.len(),
        forall|i: int|
            0 <= i < cs.len() ==> #[trigger] deduplicated(cs)[i] == renamed_vless(
                cs[i],
                deduplicated(cs)[i].name,
            ),
        forall|i: int|
            0 <= i < cs.len() && name_count(vless_entries(cs), cs[i].name) <= 1
                ==> #[trigger] deduplicated(cs)[i].name == cs[i].name,
        forall|i: int, j: int|
            0 <= i < j < cs.len() ==> #[trigger] deduplicated(cs)[i].name
                != #[trigger] deduplicated(cs)[j].name,
{
    let all = vless_entries(cs);
    law_dedup_names_shape(all);
    assert forall|i: int| 0 <= i < cs.len() implies #[trigger] deduplicated(cs)[i] == renamed_vless(
        cs[i],
        deduplicated(cs)[i].name,
    ) by {}
    assert forall|i: int|
        0 <= i < cs.len() && name_count(all, cs[i].name) <= 1 implies #[trigger] deduplicated(
        cs,
    )[i].name == cs[i].name by {
        assert(all[i].0 == cs[i].name);
    }
    assert forall|i: int, j: int| 0 <= i < j < cs.len() implies #[trigger] deduplicated(cs)[i].name
        != #[trigger] deduplicated(cs)[j].name by {
        law_dedup_names_distinct(all, i, j);
    }
}

proof fn lemma_concat_clean(a: Seq<char>, b: Seq<char>)
    requires
        is_clean(a),
        is_clean(b),
    ensures
        is_clean(a + b),
{
    assert forall|i: int| 0 <= i < (a + b).len() implies !is_name_separator(#[trigger] (a + b)[i]) by {
        if i < a.len() {
            assert((a + b)[i] == a[i]);
        } else {
            assert((a + b)[i] == b[i - a.len()]);
        }
    }
}

proof fn lemma_decimal_clean(n: nat)
    ensures
        is_clean(decimal(n)),
    decreases n,
{
    if n >= 10 {
        lemma_decimal_clean(n / 10);
        let d = decimal(n);
        assert forall|i: int| 0 <= i < d.len() implies !is_name_separator(#[trigger] d[i]) by {
            if i < d.len() - 1 {
                assert(d[i] == decimal(n / 10)[i]);
            }
        }
    }
}

proof fn lemma_counted_clean(name: Seq<char>, base: Seq<char>)
    requires
        is_clean(base),
        counted_from(name, base),
    ensures
        is_clean(name),
{
    let k = choose|k: nat| name == #[trigger] suffixed(base, k);
    if k > 0 {
        reveal_strlit("-");
        lemma_decimal_clean(k);
        lemma_concat_clean(base, "-"@);
        lemma_concat_clean(base + "-"@, decimal(k));
    }
}

/// The names the proxies end up with are the names Surge shows for them
/// (sanitizing changes none of them), one per proxy, and no two are equal:
/// the proxy lines of the Surge list have pairwise distinct names.
pub proof fn law_shown_names_distinct(v: Seq<VlessView>, h: Seq<Hysteria2View>)
    ensures
        all_dedup_names(v, h).len() == v.len() + h.len(),
        forall|k: int|
            0 <= k < all_dedup_names(v, h).len() ==> sanitize_name(#[trigger] all_dedup_names(v, h)[k])
                == all_dedup_names(v, h)[k],
        forall|a: int, b: int|
            0 <= a < b < all_dedup_names(v, h).len() ==> #[trigger] all_dedup_names(v, h)[a]
                != #[trigger] all_dedup_names(v, h)[b],
{
    let all = vless_display_entries(v) + hysteria2_display_entries(h);
    let names = all_dedup_names(v, h);
    law_dedup_names_shape(all);
    assert forall|k: int| 0 <= k < all.len() implies is_clean(#[trigger] all[k].0) && is_clean(
        all[k].1,
    ) by {
        if k < v.len() {
            assert(all[k] == (
                sanitize_name(v[k].name),
                sanitize_name(name_with_address(v[k].name, v[k].address)),
            ));
            lemma_sanitized_clean(v[k].name);
            lemma_sanitized_clean(name_with_address(v[k].name, v[k].address));
        } else {
            let j = k - v.len();
            assert(all[k] == (
                sanitize_name(h[j].name),
                sanitize_name(name_with_address(h[j].name, h[j].address)),
            ));
            lemma_sanitized_clean(h[j].name);
            lemma_sanitized_clean(name_with_address(h[j].name, h[j].address));
        }
    }
    assert forall|k: int| 0 <= k < names.len() implies sanitize_name(#[trigger] names[k])
        == names[k] by {
        assert(is_clean(all[k].0) && is_clean(all[k].1));
        if name_count(all, all[k].0) > 1 {
            lemma_counted_clean(names[k], base_of(all[k]));
        }
        lemma_clean_sanitized(names[k]);
    }
    assert forall|a: int, b: int| 0 <= a < b < names.len() implies #[trigger] names[a]
        != #[trigger] names[b] by {
        law_dedup_names_distinct(all, a, b);
    }
}

/// A body made of white space, a Base64 text that the crate decodes to the
/// UTF-8 bytes of a text, and white space decodes to that text.
pub proof fn law_content_round_trip(w1: Seq<char>, e: Seq<char>, w2: Seq<char>, t: Seq<char>)
    requires
        all_space(w1),
        all_space(w2),
        is_trimmed(e),
        base64_decoded(e) == Some(encode_utf8(t)),
    ensures
        decoded_content(w1 + e + w2) == Ok::<Seq<char>, ContentError>(t),
{
    broadcast use {encode_utf8_valid_utf8, encode_utf8_decode_utf8};

    lemma_trim_surrounded(w1, e, w2);
}


/// A name is filtered out exactly when one of the keywords occurs in it
/// letter for letter: the comparison folds no case.
pub proof fn law_filter_matches_exact_text(name: Seq<char>, keywords: Seq<Seq<char>>)
    ensures
        filtered_by(name, keywords) <==> exists|k: int, i: int|
            0 <= k < keywords.len() && 0 <= i && i + keywords[k].len() <= name.len()
                && #[trigger] name.subrange(i, i + keywords[k].len()) == keywords[k],
{
    if filtered_by(name, keywords) {
        let k = choose|k: int| 0 <= k < keywords.len() && contains_text(name, #[trigger] keywords[k]);
        let i = choose|i: int| occurs_at(name, keywords[k], i);
        assert(name.subrange(i, i + keywords[k].len()) == keywords[k]);
    }
    if exists|k: int, i: int|
        0 <= k < keywords.len() && 0 <= i && i + keywords[k].len() <= name.len()
            && #[trigger] name.subrange(i, i + keywords[k].len()) == keywords[k] {
        let (k, i) = choose|k: int, i: int|
            0 <= k < keywords.len() && 0 <= i && i + keywords[k].len() <= name.len()
                && #[trigger] name.subrange(i, i + keywords[k].len()) == keywords[k];
        assert(occurs_at(name, keywords[k], i));
        assert(contains_text(name, keywords[k]));
    }
}

/// The line is a VLESS link whose proxy's name contains no keyword.
pub open spec fn keeps_vless(keywords: Seq<Seq<char>>) -> spec_fn(Seq<char>) -> bool {
    |l: Seq<char>| vless_link_result(l) is Ok && !filtered_by(vless_link_result(l)->Ok_0.name, keywords)
}

/// The VLESS proxy that a line gives.
pub open spec fn vless_of_line() -> spec_fn(Seq<char>) -> VlessView {
    |l: Seq<char>| vless_link_result(l)->Ok_0
}

/// Each line that parses as a VLESS link and whose name contains no keyword
/// gives exactly one collected VLESS proxy, in the order of the lines,
/// whether or not names repeat; no other line gives one.
pub proof fn law_collected_vless_one_per_kept_line(lines: Seq<Seq<char>>, keywords: Seq<Seq<char>>)
    ensures
        collected_vless(lines, keywords) == lines.filter(keeps_vless(keywords)).map_values(
            vless_of_line(),
        ),
        collected_vless(lines, keywords).len() == lines.filter(keeps_vless(keywords)).len(),
    decreases lines.len(),
{
    reveal(Seq::filter);
    let p = keeps_vless(keywords);
    let f = vless_of_line();
    if lines.len() == 0 {
        assert(lines.filter(p).map_values(f) =~= Seq::<VlessView>::empty());
    } else {
        let rest = lines.drop_last();
        law_collected_vless_one_per_kept_line(rest, keywords);
        let prev = rest.filter(p);
        if p(lines.last()) {
            assert(lines.filter(p) == prev.push(lines.last()));
            assert(prev.push(lines.last()).map_values(f) =~= prev.map_values(f).push(f(lines.last())));
        } else {
            assert(lines.filter(p) == prev);
        }
    }
}

/// What a run of lines gives does not depend on the lines before it: the
/// VLESS proxies of two runs of lines are those of the first, then those of
/// the second.
pub proof fn law_collected_vless_of_joined_lines(
    a: Seq<Seq<char>>,
    b: Seq<Seq<char>>,
    keywords: Seq<Seq<char>>,
)
    ensures
        collected_vless(a + b, keywords) == collected_vless(a, keywords) + collected_vless(b, keywords),
{
    let p = keeps_vless(keywords);
    let f = vless_of_line();
    law_collected_vless_one_per_kept_line(a + b, keywords);
    law_collected_vless_one_per_kept_line(a, keywords);
    law_collected_vless_one_per_kept_line(b, keywords);
    Seq::filter_distributes_over_add(a, b, p);
    assert((a.filter(p) + b.filter(p)).map_values(f) =~= a.filter(p).map_values(f) + b.filter(
        p,
    ).map_values(f));
}

/// The line is not a VLESS link, Hysteria2 proxies are wanted, and it is a
/// Hysteria2 link whose proxy's name contains no keyword.
pub open spec fn keeps_hysteria2(include_hysteria: bool, keywords: Seq<Seq<char>>) -> spec_fn(
    Seq<char>,
) -> bool {
    |l: Seq<char>|
        vless_link_result(l) is Err && include_hysteria && hysteria2_link_result(l) is Ok
            && !filtered_by(hysteria2_link_result(l)->Ok_0.name, keywords)
}

/// The Hysteria2 proxy that a line gives.
pub open spec fn hysteria2_of_line() -> spec_fn(Seq<char>) -> Hysteria2View {
    |l: Seq<char>| hysteria2_link_result(l)->Ok_0
}

/// Where Hysteria2 proxies are wanted, each line that is not a VLESS link,
/// parses as a Hysteria2 link and has a name that contains no keyword gives
/// exactly one collected Hysteria2 proxy, in the order of the lines; no
/// other line gives one.
pub proof fn law_collected_hysteria2_one_per_kept_line(
    lines: Seq<Seq<char>>,
    include_hysteria: bool,
    keywords: Seq<Seq<char>>,
)
    ensures
        collected_hysteria2(lines, include_hysteria, keywords) == lines.filter(
            keeps_hysteria2(include_hysteria, keywords),
        ).map_values(hysteria2_of_line()),
    decreases lines.len(),
{
    reveal(Seq::filter);
    let p = keeps_hysteria2(include_hysteria, keywords);
    let f = hysteria2_of_line();
    if lines.len() == 0 {
        assert(lines.filter(p).map_values(f) =~= Seq::<Hysteria2View>::empty());
    } else {
        let rest = lines.drop_last();
        law_collected_hysteria2_one_per_kept_line(rest, include_hysteria, keywords);
        let prev = rest.filter(p);
        if p(lines.last()) {
            assert(lines.filter(p) == prev.push(lines.last()));
            assert(prev.push(lines.last()).map_values(f) =~= prev.map_values(f).push(f(lines.last())));
        } else {
            assert(lines.filter(p) == prev);
        }
    }
}

/// The line gives a proxy, VLESS or (where wanted) Hysteria2, whose name
/// contains a keyword.
pub open spec fn filters_out(include_hysteria: bool, keywords: Seq<Seq<char>>) -> spec_fn(
    Seq<char>,
) -> bool {
    |l: Seq<char>|
        match vless_link_result(l) {
            Ok(c) => filtered_by(c.name, keywords),
            Err(_) => include_hysteria && hysteria2_link_result(l) is Ok && filtered_by(
                hysteria2_link_result(l)->Ok_0.name,
                keywords,
            ),
        }
}

/// The name of the proxy that a line gives, VLESS first.
pub open spec fn name_of_line() -> spec_fn(Seq<char>) -> Seq<char> {
    |l: Seq<char>|
        match vless_link_result(l) {
            Ok(c) => c.name,
            Err(_) => hysteria2_link_result(l)->Ok_0.name,
        }
}

/// Each line whose proxy the keyword filter leaves out gives exactly one
/// reported name, in the order of the lines; no other line gives one.
pub proof fn law_filtered_out_one_per_filtered_line(
    lines: Seq<Seq<char>>,
    include_hysteria: bool,
    keywords: Seq<Seq<char>>,
)
    ensures
        filtered_out(lines, include_hysteria, keywords) == lines.filter(
            filters_out(include_hysteria, keywords),
        ).map_values(name_of_line()),
    decreases lines.len(),
{
    reveal(Seq::filter);
    let p = filters_out(include_hysteria, keywords);
    let f = name_of_line();
    if lines.len() == 0 {
        assert(lines.filter(p).map_values(f) =~= Seq::<Seq<char>>::empty());
    } else {
        let rest = lines.drop_last();
        law_filtered_out_one_per_filtered_line(rest, include_hysteria, keywords);
        let prev = rest.filter(p);
        if p(lines.last()) {
            assert(lines.filter(p) == prev.push(lines.last()));
            assert(prev.push(lines.last()).map_values(f) =~= prev.map_values(f).push(f(lines.last())));
        } else {
            assert(lines.filter(p) == prev);
        }
    }
}

/// Whether Hysteria2 proxies are wanted does not depend on the case of the
/// `hysteria` parameter: they are wanted where it is absent, and left out
/// exactly where it is `false`, `0` or `no` in any case.
pub proof fn law_hysteria_choice_ignores_case(a: Seq<char>, b: Seq<char>)
    requires
        lowercase(a) == lowercase(b),
    ensures
        wants_hysteria(Some(a)) == wants_hysteria(Some(b)),
        wants_hysteria(None),
        !wants_hysteria(Some(a)) <==> (lowercase(a) == "false"@ || lowercase(a) == "0"@ || lowercase(a)
            == "no"@),
{
}

/// The names Surge shows of all proxies, VLESS first, then Hysteria2.
pub open spec fn shown_names(v: Seq<VlessView>, h: Seq<Hysteria2View>) -> Seq<Seq<char>> {
    (vless_display_entries(v) + hysteria2_display_entries(h)).map_values(
        |e: (Seq<char>, Seq<char>)| e.0,
    )
}

/// How each proxy, VLESS (`k < v.len()`) or Hysteria2 (`k - v.len()`), is
/// named after telling proxies apart: by the name Surge shows for it where
/// no other proxy shows that name; otherwise by the Surge form of its name,
/// `-` and its address, with `-` and a counter of 1 or more where needed.
pub proof fn law_renamed_by_name_and_address(v: Seq<VlessView>, h: Seq<Hysteria2View>, k: int)
    requires
        0 <= k < v.len() + h.len(),
    ensures
        ({
            let (name, address) = if k < v.len() {
                (v[k].name, v[k].address)
            } else {
                (h[k - v.len()].name, h[k - v.len()].address)
            };
            let all = vless_display_entries(v) + hysteria2_display_entries(h);
            let base = sanitize_name(name + "-"@ + address);
            &&& shown_names(v, h)[k] == sanitize_name(name)
            &&& name_count(all, sanitize_name(name)) <= 1 ==> all_dedup_names(v, h)[k]
                == sanitize_name(name)
            &&& name_count(all, sanitize_name(name)) > 1 ==> (all_dedup_names(v, h)[k] == base
                || exists|n: nat| n >= 1 && all_dedup_names(v, h)[k] == base + "-"@ + #[trigger] decimal(n))
        }),
{
    let all = vless_display_entries(v) + hysteria2_display_entries(h);
    let (name, address) = if k < v.len() {
        (v[k].name, v[k].address)
    } else {
        (h[k - v.len()].name, h[k - v.len()].address)
    };
    assert(all[k] == (sanitize_name(name), sanitize_name(name_with_address(name, address))));
    law_dedup_names_shape(all);
    if name_count(all, all[k].0) > 1 {
        law_shared_names_take_base_and_counter(all, k);
    }
}

/// A VLESS proxy whose name another VLESS proxy shares is renamed to its
/// name, `-` and its address, with `-` and a counter of 1 or more where
/// that is taken.
pub proof fn law_deduplicated_vless_shared_name(cs: Seq<VlessView>, i: int)
    requires
        0 <= i < cs.len(),
        name_count(vless_entries(cs), cs[i].name) > 1,
    ensures
        ({
            let base = cs[i].name + "-"@ + cs[i].address;
            deduplicated(cs)[i].name == base || exists|n: nat|
                n >= 1 && deduplicated(cs)[i].name == base + "-"@ + #[trigger] decimal(n)
        }),
{
    let all = vless_entries(cs);
    assert(all[i] == (cs[i].name, name_with_address(cs[i].name, cs[i].address)));
    law_dedup_names_shape(all);
    law_shared_names_take_base_and_counter(all, i);
}

} // verus!
