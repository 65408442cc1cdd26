//! Character-level text handling: whitespace, trimming, splitting,
//! substring search and decimal numbers.
use vstd::prelude::*;

verus! {

broadcast use vstd::string::group_string_axioms;

/// Views of a sequence of strings.
pub open spec fn strings_view(v: Seq<String>) -> Seq<Seq<char>> {
    v.map_values(|s: String| s@)
}

/// The characters of `s`, in order.
pub fn chars_of(s: &str) -> (v: Vec<char>)
    ensures
        v@ == s@,
{
    let mut v: Vec<char> = Vec::new();
    for c in it: s.chars()
        invariant
            v@ == it.seq().take(it.index() as int),
            it.seq() == s@,
    {
        v.push(c);
    }
    v
}

/// `String::from_iter` over characters: the contract claims that the string
/// is made of the characters of `v`, in order.
#[verifier::external_body]
pub(crate) fn string_from_chars(v: &[char]) -> (s: String)
    ensures
        s@ == v@,
{
    String::from_iter(v)
}

/// A copy of `s`.
pub fn copy_string(s: &str) -> (r: String)
    ensures
        r@ == s@,
{
    s.to_owned()
}

/// The characters with the Unicode `White_Space` property
/// (those for which `char::is_whitespace` holds).
pub open spec fn is_space(c: char) -> bool {
    let u = c as u32;
    ||| 0x9 <= u <= 0xD
    ||| u == 0x20
    ||| u == 0x85
    ||| u == 0xA0
    ||| u == 0x1680
    ||| 0x2000 <= u <= 0x200A
    ||| u == 0x2028
    ||| u == 0x2029
    ||| u == 0x202F
    ||| u == 0x205F
    ||| u == 0x3000
}

/// Whether `c` is a white-space character.
pub fn char_is_space(c: char) -> (b: bool)
    ensures
        b == is_space(c),
{
    let u = c as u32;
    (0x9 <= u && u <= 0xD) || u == 0x20 || u == 0x85 || u == 0xA0 || u == 0x1680 || (0x2000 <= u
        && u <= 0x200A) || u == 0x2028 || u == 0x2029 || u == 0x202F || u == 0x205F || u == 0x3000
}

/// `s` without its leading white space.
pub open spec fn trim_start(s: Seq<char>) -> Seq<char>
    decreases s.len(),
{
    if s.len() > 0 && is_space(s[0]) {
        trim_start(s.drop_first())
    } else {
        s
    }
}

/// `s` without its trailing white space.
pub open spec fn trim_end(s: Seq<char>) -> Seq<char>
    decreases s.len(),
{
    if s.len() > 0 && is_space(s.last()) {
        trim_end(s.drop_last())
    } else {
        s
    }
}

/// `s` without leading and trailing white space (what `str::trim` gives).
pub open spec fn trim(s: Seq<char>) -> Seq<char> {
    trim_end(trim_start(s))
}

/// The characters of `v` without leading and trailing white space.
pub fn trim_chars(v: &Vec<char>) -> (r: Vec<char>)
    ensures
        r@ == trim(v@),
{
    let len = v.len();
    let mut start: usize = 0;
    assert(v@.subrange(0, len as int) =~= v@);
    while start < len && char_is_space(v[start])
        invariant
            start <= len == v@.len(),
            trim_start(v@) == trim_start(v@.subrange(start as int, len as int)),
        decreases len - start,
    {
        assert(v@.subrange(start as int + 1, len as int) =~= v@.subrange(
            start as int,
            len as int,
        ).drop_first());
        start = start + 1;
    }
    let ghost front = v@.subrange(start as int, len as int);
    assert(trim_start(front) == front);
    let mut end: usize = len;
    while end > start && char_is_space(v[end - 1])
        invariant
            start <= end <= len == v@.len(),
            front == v@.subrange(start as int, len as int),
            trim_end(front) == trim_end(v@.subrange(start as int, end as int)),
        decreases end - start,
    {
        assert(v@.subrange(start as int, end as int - 1) =~= v@.subrange(
            start as int,
            end as int,
        ).drop_last());
        end = end - 1;
    }
    let mut r: Vec<char> = Vec::new();
    let mut i: usize = start;
    while i < end
        invariant
            start <= i <= end <= len == v@.len(),
            r@ == v@.subrange(start as int, i as int),
        decreases end - i,
    {
        r.push(v[i]);
        assert(r@ =~= v@.subrange(start as int, i as int + 1));
        i = i + 1;
    }
    assert(trim_end(v@.subrange(start as int, end as int)) == v@.subrange(start as int, end as int));
    r
}

/// `s` has no leading and no trailing white space.
pub open spec fn is_trimmed(s: Seq<char>) -> bool {
    s.len() > 0 ==> !is_space(s[0]) && !is_space(s.last())
}

proof fn lemma_trim_start_front(s: Seq<char>)
    ensures
        trim_start(s).len() > 0 ==> !is_space(trim_start(s)[0]),
    decreases s.len(),
{
    if s.len() > 0 && is_space(s[0]) {
        lemma_trim_start_front(s.drop_first());
    }
}

proof fn lemma_trim_end_keeps_front(s: Seq<char>)
    requires
        s.len() > 0,
        !is_space(s[0]),
    ensures
        trim_end(s).len() > 0,
        trim_end(s)[0] == s[0],
        !is_space(trim_end(s).last()),
    decreases s.len(),
{
    if is_space(s.last()) {
        assert(s.len() > 1);
        lemma_trim_end_keeps_front(s.drop_last());
    }
}

/// Trimming gives a trimmed text.
pub proof fn lemma_trim_is_trimmed(s: Seq<char>)
    ensures
        is_trimmed(trim(s)),
{
    lemma_trim_start_front(s);
    let t = trim_start(s);
    if t.len() > 0 {
        lemma_trim_end_keeps_front(t);
    }
}

/// Trimming leaves a trimmed text as it is.
pub proof fn lemma_trimmed_fixed(s: Seq<char>)
    requires
        is_trimmed(s),
    ensures
        trim(s) == s,
{
}

/// Every character of `w` is white space.
pub open spec fn all_space(w: Seq<char>) -> bool {
    forall|i: int| 0 <= i < w.len() ==> is_space(#[trigger] w[i])
}

proof fn lemma_trim_start_spaces(w: Seq<char>, x: Seq<char>)
    requires
        all_space(w),
    ensures
        trim_start(w + x) == trim_start(x),
    decreases w.len(),
{
    if w.len() > 0 {
        assert((w + x)[0] == w[0]);
        assert((w + x).drop_first() =~= w.drop_first() + x);
        lemma_trim_start_spaces(w.drop_first(), x);
    } else {
        assert(w + x =~= x);
    }
}

proof fn lemma_trim_end_spaces(x: Seq<char>, w: Seq<char>)
    requires
        all_space(w),
    ensures
        trim_end(x + w) == trim_end(x),
    decreases w.len(),
{
    if w.len() > 0 {
        assert((x + w).last() == w.last());
        assert((x + w).drop_last() =~= x + w.drop_last());
        lemma_trim_end_spaces(x, w.drop_last());
    } else {
        assert(x + w =~= x);
    }
}

/// Trimming a trimmed text surrounded by white space gives the text.
pub proof fn lemma_trim_surrounded(w1: Seq<char>, e: Seq<char>, w2: Seq<char>)
    requires
        all_space(w1),
        all_space(w2),
        is_trimmed(e),
    ensures
        trim(w1 + e + w2) == e,
{
    assert(w1 + e + w2 =~= w1 + (e + w2));
    lemma_trim_start_spaces(w1, e + w2);
    if e.len() > 0 {
        assert((e + w2)[0] == e[0]);
        assert(trim_start(e + w2) == e + w2);
        lemma_trim_end_spaces(e, w2);
        lemma_trimmed_fixed(e);
    } else {
        assert(e + w2 =~= w2);
        lemma_trim_start_spaces(w2, Seq::empty());
        assert(w2 + Seq::<char>::empty() =~= w2);
    }
}

/// Trimming twice is trimming once.
pub proof fn law_trim_idempotent(s: Seq<char>)
    ensures
        trim(trim(s)) == trim(s),
{
    lemma_trim_is_trimmed(s);
}

/// The pieces that splitting gives are not empty and have no leading or
/// trailing white space.
pub proof fn law_split_pieces_trimmed(s: Seq<char>, sep: char)
    ensures
        forall|i: int|
            0 <= i < split_trimmed(s, sep).len() ==> #[trigger] split_trimmed(s, sep)[i].len() > 0
                && is_trimmed(split_trimmed(s, sep)[i]),
{
    lemma_keep_trimmed_nonempty(split_on(s, sep));
}

/// Splitting a text with no separator in it gives the text, trimmed, or
/// nothing where that is empty; and splitting two texts joined by a
/// separator gives the pieces of the first, then those of the second.
pub proof fn law_split_at_separators(a: Seq<char>, b: Seq<char>, sep: char)
    ensures
        !a.contains(sep) ==> split_trimmed(a, sep) == (if trim(a).len() > 0 {
            seq![trim(a)]
        } else {
            Seq::<Seq<char>>::empty()
        }),
        split_trimmed(a + seq![sep] + b, sep) == split_trimmed(a, sep) + split_trimmed(b, sep),
{
    if !a.contains(sep) {
        lemma_split_without_separator(a, sep);
        assert(seq![a].drop_last() =~= Seq::<Seq<char>>::empty());
        assert(keep_trimmed_nonempty(Seq::<Seq<char>>::empty()) =~= Seq::<Seq<char>>::empty());
        if trim(a).len() > 0 {
            assert(Seq::<Seq<char>>::empty().push(trim(a)) =~= seq![trim(a)]);
        }
    }
    lemma_split_on_joined(a, b, sep);
    lemma_keep_distributes(split_on(a, sep), split_on(b, sep));
}

proof fn lemma_split_without_separator(s: Seq<char>, sep: char)
    requires
        !s.contains(sep),
    ensures
        split_on(s, sep) == seq![s],
    decreases s.len(),
{
    if s.len() > 0 {
        let d = s.drop_last();
        assert(!d.contains(sep)) by {
            if d.contains(sep) {
                let i = choose|i: int| 0 <= i < d.len() && d[i] == sep;
                assert(s[i] == sep);
            }
        }
        lemma_split_without_separator(d, sep);
        assert(s.last() != sep) by {
            assert(s[s.len() - 1] == s.last());
        }
        assert(d.push(s.last()) =~= s);
        assert(seq![d].last() == d);
        assert(seq![d].update(0, d.push(s.last())) =~= seq![s]);
    } else {
        assert(s =~= Seq::<char>::empty());
    }
}

proof fn lemma_split_on_joined(a: Seq<char>, b: Seq<char>, sep: char)
    ensures
        split_on(a + seq![sep] + b, sep) == split_on(a, sep) + split_on(b, sep),
    decreases b.len(),
{
    let j = a + seq![sep] + b;
    if b.len() == 0 {
        assert(j =~= a.push(sep));
        assert(j.drop_last() =~= a);
        assert(split_on(a, sep).push(Seq::empty()) =~= split_on(a, sep) + seq![Seq::<char>::empty()]);
    } else {
        assert(j.drop_last() =~= a + seq![sep] + b.drop_last());
        assert(j.last() == b.last());
        lemma_split_on_joined(a, b.drop_last(), sep);
        let x = split_on(a, sep);
        let y = split_on(b.drop_last(), sep);
        lemma_split_on_nonempty(b.drop_last(), sep);
        if b.last() == sep {
            assert((x + y).push(Seq::empty()) =~= x + y.push(Seq::empty()));
        } else {
            let xy = x + y;
            assert(xy.last() == y.last());
            assert(xy.update(xy.len() - 1, xy.last().push(b.last())) =~= x + y.update(
                y.len() - 1,
                y.last().push(b.last()),
            ));
        }
    }
}

proof fn lemma_keep_distributes(p: Seq<Seq<char>>, q: Seq<Seq<char>>)
    ensures
        keep_trimmed_nonempty(p + q) == keep_trimmed_nonempty(p) + keep_trimmed_nonempty(q),
    decreases q.len(),
{
    if q.len() == 0 {
        assert(p + q =~= p);
        assert(keep_trimmed_nonempty(p) + keep_trimmed_nonempty(q) =~= keep_trimmed_nonempty(p));
    } else {
        assert((p + q).drop_last() =~= p + q.drop_last());
        assert((p + q).last() == q.last());
        lemma_keep_distributes(p, q.drop_last());
        let x = keep_trimmed_nonempty(p);
        let y = keep_trimmed_nonempty(q.drop_last());
        if trim(q.last()).len() > 0 {
            assert((x + y).push(trim(q.last())) =~= x + y.push(trim(q.last())));
        }
    }
}

proof fn lemma_keep_trimmed_nonempty(pieces: Seq<Seq<char>>)
    ensures
        forall|i: int|
            0 <= i < keep_trimmed_nonempty(pieces).len() ==> #[trigger] keep_trimmed_nonempty(
                pieces,
            )[i].len() > 0 && is_trimmed(keep_trimmed_nonempty(pieces)[i]),
    decreases pieces.len(),
{
    if pieces.len() > 0 {
        lemma_keep_trimmed_nonempty(pieces.drop_last());
        lemma_trim_is_trimmed(pieces.last());
        let prev = keep_trimmed_nonempty(pieces.drop_last());
        let cur = keep_trimmed_nonempty(pieces);
        assert forall|i: int| 0 <= i < cur.len() implies #[trigger] cur[i].len() > 0 && is_trimmed(
            cur[i],
        ) by {
            if i < prev.len() {
                assert(cur[i] == prev[i]);
            }
        }
    }
}

/// `s` without leading and trailing white space.
pub fn trim_str(s: &str) -> (r: String)
    ensures
        r@ == trim(s@),
{
    let v = chars_of(s);
    let t = trim_chars(&v);
    string_from_chars(t.as_slice())
}

/// The pieces of `s` between occurrences of `sep`, in order; there is one
/// more piece than there are separators (what `str::split` with a character gives).
pub open spec fn split_on(s: Seq<char>, sep: char) -> Seq<Seq<char>>
    decreases s.len(),
{
    if s.len() == 0 {
        seq![Seq::empty()]
    } else {
        let prev = split_on(s.drop_last(), sep);
        if s.last() == sep {
            prev.push(Seq::empty())
        } else {
            prev.update(prev.len() - 1, prev.last().push(s.last()))
        }
    }
}

/// There is always at least one piece.
pub proof fn lemma_split_on_nonempty(s: Seq<char>, sep: char)
    ensures
        split_on(s, sep).len() >= 1,
    decreases s.len(),
{
    if s.len() > 0 {
        lemma_split_on_nonempty(s.drop_last(), sep);
    }
}

/// The trimmed pieces that are not empty, in order.
pub open spec fn keep_trimmed_nonempty(pieces: Seq<Seq<char>>) -> Seq<Seq<char>>
    decreases pieces.len(),
{
    if pieces.len() == 0 {
        seq![]
    } else {
        let rest = keep_trimmed_nonempty(pieces.drop_last());
        let t = trim(pieces.last());
        if t.len() > 0 {
            rest.push(t)
        } else {
            rest
        }
    }
}

/// The pieces of `s` between occurrences of `sep`, trimmed, empty ones left out.
pub open spec fn split_trimmed(s: Seq<char>, sep: char) -> Seq<Seq<char>> {
    keep_trimmed_nonempty(split_on(s, sep))
}

/// Splits `s` at every `sep`, trims each piece and keeps the pieces that
/// are not empty, in order.
pub fn split_trimmed_nonempty(s: &str, sep: char) -> (r: Vec<String>)
    ensures
        strings_view(r@) == split_trimmed(s@, sep),
{
    let chars = chars_of(s);
    let len = chars.len();
    let mut out: Vec<String> = Vec::new();
    let mut cur: Vec<char> = Vec::new();
    let mut i: usize = 0;
    proof {
        assert(chars@.take(0) =~= Seq::<char>::empty());
    }
    while i < len
        invariant
            i <= len == chars@.len(),
            chars@ == s@,
            split_on(chars@.take(i as int), sep).len() >= 1,
            cur@ == split_on(chars@.take(i as int), sep).last(),
            strings_view(out@) == keep_trimmed_nonempty(
                split_on(chars@.take(i as int), sep).drop_last(),
            ),
        decreases len - i,
    {
        let c = chars[i];
        let ghost pre = chars@.take(i as int);
        let ghost sp = split_on(pre, sep);
        let ghost next = chars@.take(i as int + 1);
        assert(next.drop_last() =~= pre);
        assert(next.last() == c);
        proof {
            lemma_split_on_nonempty(next, sep);
        }
        if c == sep {
            let t = trim_chars(&cur);
            if t.len() > 0 {
                let piece = string_from_chars(t.as_slice());
                out.push(piece);
            }
            assert(split_on(next, sep) == sp.push(Seq::empty()));
            assert(split_on(next, sep).drop_last() =~= sp);
            assert(strings_view(out@) =~= keep_trimmed_nonempty(sp));
            cur = Vec::new();
        } else {
            cur.push(c);
            assert(split_on(next, sep).drop_last() =~= sp.drop_last());
        }
        i = i + 1;
    }
    assert(chars@.take(len as int) =~= chars@);
    let t = trim_chars(&cur);
    if t.len() > 0 {
        let piece = string_from_chars(t.as_slice());
        out.push(piece);
    }
    assert(strings_view(out@) =~= keep_trimmed_nonempty(split_on(s@, sep)));
    out
}

/// `w` occurs in `s` starting at position `i`.
pub open spec fn occurs_at(s: Seq<char>, w: Seq<char>, i: int) -> bool {
    0 <= i && i + w.len() <= s.len() && s.subrange(i, i + w.len()) == w
}

/// `w` occurs somewhere in `s` (what `str::contains` with a string gives).
pub open spec fn contains_text(s: Seq<char>, w: Seq<char>) -> bool {
    exists|i: int| occurs_at(s, w, i)
}

/// `p` is a suffix of `s` (what `str::ends_with` with a string gives).
pub open spec fn has_suffix(s: Seq<char>, p: Seq<char>) -> bool {
    p.len() <= s.len() && s.subrange(s.len() - p.len(), s.len() as int) == p
}

/// `p` is a prefix of `s` (what `str::starts_with` with a string gives).
pub open spec fn has_prefix(s: Seq<char>, p: Seq<char>) -> bool {
    p.len() <= s.len() && s.subrange(0, p.len() as int) == p
}

/// Whether `w` occurs in `s` at position `i`.
fn occurs_at_exec(s: &Vec<char>, w: &Vec<char>, i: usize) -> (b: bool)
    requires
        i + w@.len() <= s@.len(),
    ensures
        b == occurs_at(s@, w@, i as int),
{
    let mut j: usize = 0;
    while j < w.len()
        invariant
            j <= w@.len(),
            i + w@.len() <= s@.len(),
            i + w.len() <= s.len(),
            forall|k: int| 0 <= k < j ==> s@[i + k] == w@[k],
        decreases w@.len() - j,
    {
        if s[i + j] != w[j] {
            assert(s@.subrange(i as int, i + w@.len())[j as int] != w@[j as int]);
            return false;
        }
        j = j + 1;
    }
    assert(s@.subrange(i as int, i + w@.len()) =~= w@);
    true
}

/// Whether `w` occurs somewhere in `s`.
pub fn chars_contain(s: &Vec<char>, w: &Vec<char>) -> (b: bool)
    ensures
        b == contains_text(s@, w@),
{
    if w.len() > s.len() {
        return false;
    }
    let last = s.len() - w.len();
    let mut i: usize = 0;
    loop
        invariant
            i <= last,
            last + w@.len() == s@.len(),
            forall|k: int| 0 <= k < i ==> !occurs_at(s@, w@, k),
        decreases last - i,
    {
        if occurs_at_exec(s, w, i) {
            return true;
        }
        if i == last {
            return false;
        }
        i = i + 1;
    }
}

/// Whether `w` occurs somewhere in `s`.
pub fn text_contains(s: &str, w: &str) -> (b: bool)
    ensures
        b == contains_text(s@, w@),
{
    let sv = chars_of(s);
    let wv = chars_of(w);
    chars_contain(&sv, &wv)
}

/// Whether `s` starts with `p`.
pub fn text_has_prefix(s: &str, p: &str) -> (b: bool)
    ensures
        b == has_prefix(s@, p@),
{
    let sv = chars_of(s);
    let pv = chars_of(p);
    if pv.len() > sv.len() {
        return false;
    }
    let b = occurs_at_exec(&sv, &pv, 0);
    b
}

/// Whether the two texts are equal.
pub fn text_eq(a: &str, b: &str) -> (r: bool)
    ensures
        r == (a@ == b@),
{
    let x = copy_string(a);
    let y = copy_string(b);
    x == y
}

/// The character of the decimal digit `d`.
pub open spec fn digit_char(d: int) -> char {
    if d == 0 {
        '0'
    } else if d == 1 {
        '1'
    } else if d == 2 {
        '2'
    } else if d == 3 {
        '3'
    } else if d == 4 {
        '4'
    } else if d == 5 {
        '5'
    } else if d == 6 {
        '6'
    } else if d == 7 {
        '7'
    } else if d == 8 {
        '8'
    } else {
        '9'
    }
}

/// The decimal representation of `n`, without sign or leading zeros
/// (what `Display` of an unsigned integer gives).
pub open spec fn decimal(n: nat) -> Seq<char>
    decreases n,
{
    if n < 10 {
        seq![digit_char(n as int)]
    } else {
        decimal(n / 10).push(digit_char((n % 10) as int))
    }
}

pub proof fn lemma_decimal_len(n: nat)
    ensures
        decimal(n).len() >= 1,
        n >= 10 ==> decimal(n).len() >= 2,
    decreases n,
{
    if n >= 10 {
        lemma_decimal_len(n / 10);
    }
}

proof fn lemma_digit_char_injective(x: int, y: int)
    requires
        0 <= x < 10,
        0 <= y < 10,
        digit_char(x) == digit_char(y),
    ensures
        x == y,
{
    assert(0 <= x < 10 && 0 <= y < 10 && digit_char(x) == digit_char(y) ==> x == y);
}

/// Different numbers have different decimal representations.
pub proof fn law_decimal_injective(a: nat, b: nat)
    requires
        decimal(a) == decimal(b),
    ensures
        a == b,
    decreases a,
{
    lemma_decimal_len(a);
    lemma_decimal_len(b);
    if a >= 10 && b >= 10 {
        assert(decimal(a).last() == digit_char((a % 10) as int));
        assert(decimal(b).last() == digit_char((b % 10) as int));
        assert(decimal(a).drop_last() == decimal(a / 10));
        assert(decimal(b).drop_last() == decimal(b / 10));
        lemma_digit_char_injective((a % 10) as int, (b % 10) as int);
        law_decimal_injective(a / 10, b / 10);
    } else if a < 10 && b < 10 {
        assert(decimal(a)[0] == digit_char(a as int));
        assert(decimal(b)[0] == digit_char(b as int));
        lemma_digit_char_injective(a as int, b as int);
    }
}

fn digit_char_exec(d: u64) -> (c: char)
    requires
        d < 10,
    ensures
        c == digit_char(d as int),
{
    if d == 0 {
        '0'
    } else if d == 1 {
        '1'
    } else if d == 2 {
        '2'
    } else if d == 3 {
        '3'
    } else if d == 4 {
        '4'
    } else if d == 5 {
        '5'
    } else if d == 6 {
        '6'
    } else if d == 7 {
        '7'
    } else if d == 8 {
        '8'
    } else {
        '9'
    }
}

/// Appends the decimal representation of `n` to `out`.
pub fn push_decimal(out: &mut Vec<char>, n: u128)
    ensures
        final(out)@ == old(out)@ + decimal(n as nat),
    decreases n,
{
    if n >= 10 {
        push_decimal(out, n / 10);
    }
    let c = digit_char_exec((n % 10) as u64);
    out.push(c);
    proof {
        if n >= 10 {
            assert(decimal(n as nat) == decimal((n / 10) as nat).push(c));
        }
    }
    assert(out@ =~= old(out)@ + decimal(n as nat));
}

/// The decimal representation of `n`.
pub fn decimal_string(n: u128) -> (s: String)
    ensures
        s@ == decimal(n as nat),
{
    let mut v: Vec<char> = Vec::new();
    push_decimal(&mut v, n);
    assert(v@ =~= decimal(n as nat));
    string_from_chars(v.as_slice())
}

/// `c` is one of the ASCII digits.
pub open spec fn is_digit(c: char) -> bool {
    '0' <= c <= '9'
}

/// The value of the digit `c`.
pub open spec fn digit_value(c: char) -> nat {
    (c as int - 48) as nat
}

/// Every character of `d` is a digit.
pub open spec fn all_digits(d: Seq<char>) -> bool {
    forall|i: int| 0 <= i < d.len() ==> is_digit(#[trigger] d[i])
}

/// The value of the decimal digits `d`, most significant first.
pub open spec fn digits_value(d: Seq<char>) -> nat
    decreases d.len(),
{
    if d.len() == 0 {
        0
    } else {
        digits_value(d.drop_last()) * 10 + digit_value(d.last())
    }
}

/// The digits of an unsigned number: `s` without one leading `+`.
pub open spec fn unsigned_digits(s: Seq<char>) -> Seq<char> {
    if s.len() > 0 && s[0] == '+' {
        s.drop_first()
    } else {
        s
    }
}

/// The number that `s` denotes, if it is an optional `+` followed by at least
/// one decimal digit and the value is at most `max` (what `str::parse` into an
/// unsigned integer type whose largest value is `max` accepts).
pub open spec fn parse_unsigned(s: Seq<char>, max: nat) -> Option<nat> {
    let d = unsigned_digits(s);
    if d.len() > 0 && all_digits(d) && digits_value(d) <= max {
        Some(digits_value(d))
    } else {
        None
    }
}

/// The value of a sequence of digits is at least that of each of its prefixes.
pub proof fn lemma_digits_value_prefix(d: Seq<char>, k: int)
    requires
        0 <= k <= d.len(),
    ensures
        digits_value(d.take(k)) <= digits_value(d),
    decreases d.len(),
{
    if k < d.len() {
        assert(d.drop_last().take(k) =~= d.take(k));
        lemma_digits_value_prefix(d.drop_last(), k);
    } else {
        assert(d.take(k) =~= d);
    }
}

/// Parses an unsigned decimal number no larger than `max`.
pub fn parse_unsigned_text(s: &str, max: u64) -> (r: Option<u64>)
    ensures
        r matches Some(v) ==> parse_unsigned(s@, max as nat) == Some(v as nat),
        r is None ==> parse_unsigned(s@, max as nat) is None,
{
    let chars = chars_of(s);
    let start: usize = if chars.len() > 0 && chars[0] == '+' {
        1
    } else {
        0
    };
    let ghost d = unsigned_digits(s@);
    assert(d =~= chars@.subrange(start as int, chars@.len() as int));
    if start == chars.len() {
        return None;
    }
    let mut acc: u64 = 0;
    let mut i: usize = start;
    assert(d.take(0) =~= Seq::<char>::empty());
    while i < chars.len()
        invariant
            start <= i <= chars@.len(),
            chars@ == s@,
            d == chars@.subrange(start as int, chars@.len() as int),
            d == unsigned_digits(s@),
            acc <= max,
            acc == digits_value(d.take(i - start)),
            all_digits(d.take(i - start)),
        decreases chars@.len() - i,
    {
        let c = chars[i];
        let ghost k = i - start;
        assert(d[k] == c);
        if !('0' <= c && c <= '9') {
            assert(!is_digit(d[k]));
            return None;
        }
        assert(d.take(k + 1).drop_last() =~= d.take(k));
        assert(d.take(k + 1).last() == c);
        let digit: u64 = (c as u32 - 48) as u64;
        let next: u64 = match acc.checked_mul(10) {
            Some(m) => match m.checked_add(digit) {
                Some(v) => v,
                None => {
                    proof {
                        lemma_digits_value_prefix(d, k + 1);
                    }
                    return None;
                },
            },
            None => {
                proof {
                    lemma_digits_value_prefix(d, k + 1);
                }
                return None;
            },
        };
        if next > max {
            proof {
                lemma_digits_value_prefix(d, k + 1);
            }
            return None;
        }
        acc = next;
        assert forall|j: int| 0 <= j < k + 1 implies is_digit(#[trigger] d.take(k + 1)[j]) by {
            if j < k {
                assert(d.take(k + 1)[j] == d.take(k)[j]);
            }
        }
        i = i + 1;
    }
    assert(d.take(i - start) =~= d);
    Some(acc)
}

/// What `str::to_lowercase` makes of `s`: its Unicode lower-case mapping
/// (with the context rule for a final capital sigma).
pub uninterp spec fn lowercase(s: Seq<char>) -> Seq<char>;

/// Calls `str::to_lowercase`. The contract claims only that the result is
/// `lowercase` of `s`; the Unicode case tables are not stated.
#[verifier::external_body]
pub(crate) fn to_lowercase(s: &str) -> (r: String)
    ensures
        r@ == lowercase(s@),
{
    s.to_lowercase()
}

} // verus!
