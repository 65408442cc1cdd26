//! Telling proxies that share a name apart. Each proxy is an entry of its
//! name and the base it is renamed from (its name, `-` and its address). A
//! proxy whose name no other proxy has keeps it; a proxy whose name is
//! shared takes its base, and, where that is already taken, the base with a
//! counter `-1`, `-2`, ... after it, so that no two proxies end up with one name.
use vstd::prelude::*;
use vstd::relations::injective_on;
use vstd::set_lib::{lemma_int_range, lemma_len_subset, lemma_map_size, set_int_range};
use crate::link::pairs_view;
use crate::text::{
    copy_string, decimal, decimal_string, law_decimal_injective, lemma_decimal_len, strings_view,
    text_eq,
};

verus! {

/// How often `n` is the name of an entry.
pub open spec fn name_count(es: Seq<(Seq<char>, Seq<char>)>, n: Seq<char>) -> nat
    decreases es.len(),
{
    if es.len() == 0 {
        0
    } else {
        name_count(es.drop_last(), n) + (if es.last().0 == n {
            1nat
        } else {
            0nat
        })
    }
}

/// The names, among the entries `es`, that no other entry of `all` has.
pub open spec fn kept_names(all: Seq<(Seq<char>, Seq<char>)>, es: Seq<(Seq<char>, Seq<char>)>) -> Seq<
    Seq<char>,
>
    decreases es.len(),
{
    if es.len() == 0 {
        Seq::empty()
    } else {
        let rest = kept_names(all, es.drop_last());
        if name_count(all, es.last().0) <= 1 {
            rest.push(es.last().0)
        } else {
            rest
        }
    }
}

/// The names that proxies keep: those no other proxy has.
pub open spec fn reserved_names(all: Seq<(Seq<char>, Seq<char>)>) -> Seq<Seq<char>> {
    kept_names(all, all)
}

/// The name a proxy with a shared name tries first: the entry's base.
pub open spec fn base_of(e: (Seq<char>, Seq<char>)) -> Seq<char> {
    e.1
}

/// `base` for `k == 0`; otherwise `base`, `-` and `k`.
pub open spec fn suffixed(base: Seq<char>, k: nat) -> Seq<char> {
    if k == 0 {
        base
    } else {
        base + "-"@ + decimal(k)
    }
}

/// `name` is `base` with some counter (or none).
pub open spec fn counted_from(name: Seq<char>, base: Seq<char>) -> bool {
    exists|k: nat| name == #[trigger] suffixed(base, k)
}

/// The first of `suffixed(base, k)`, `suffixed(base, k + 1)`, ... that is not taken.
pub open spec fn first_free_from(base: Seq<char>, taken: Seq<Seq<char>>, k: nat) -> Seq<char>
    decreases taken.len() + 1 - k,
{
    if k > taken.len() || !taken.contains(suffixed(base, k)) {
        suffixed(base, k)
    } else {
        first_free_from(base, taken, k + 1)
    }
}

/// The first of `base`, `base-1`, `base-2`, ... that is not taken.
pub open spec fn first_free(base: Seq<char>, taken: Seq<Seq<char>>) -> Seq<char> {
    first_free_from(base, taken, 0)
}

/// The names of the first `i` entries, and the names given so far to
/// entries with a shared name.
pub open spec fn dedup_prefix(all: Seq<(Seq<char>, Seq<char>)>, i: int) -> (
    Seq<Seq<char>>,
    Seq<Seq<char>>,
)
    decreases i,
{
    if i <= 0 {
        (Seq::empty(), Seq::empty())
    } else {
        let prev = dedup_prefix(all, i - 1);
        let e = all[i - 1];
        if name_count(all, e.0) > 1 {
            let name = first_free(base_of(e), reserved_names(all) + prev.1);
            (prev.0.push(name), prev.1.push(name))
        } else {
            (prev.0.push(e.0), prev.1)
        }
    }
}

/// The names the entries end up with.
pub open spec fn dedup_names(all: Seq<(Seq<char>, Seq<char>)>) -> Seq<Seq<char>> {
    dedup_prefix(all, all.len() as int).0
}

proof fn lemma_suffixed_injective(base: Seq<char>, a: nat, b: nat)
    requires
        suffixed(base, a) == suffixed(base, b),
    ensures
        a == b,
{
    reveal_strlit("-");
    lemma_decimal_len(a);
    lemma_decimal_len(b);
    let p = base + "-"@;
    if a > 0 && b > 0 {
        let x = suffixed(base, a);
        assert(decimal(a) =~= x.subrange(p.len() as int, x.len() as int));
        assert(decimal(b) =~= x.subrange(p.len() as int, x.len() as int));
        law_decimal_injective(a, b);
    } else if a > 0 {
        assert(suffixed(base, a).len() > base.len());
    } else if b > 0 {
        assert(suffixed(base, b).len() > base.len());
    }
}

/// Among `base`, `base-1`, ..., `base-m`, where `m` is the number of taken
/// names, one is not taken.
proof fn lemma_free_suffix_exists(base: Seq<char>, taken: Seq<Seq<char>>)
    ensures
        exists|k: nat| k <= taken.len() && !taken.contains(#[trigger] suffixed(base, k)),
{
    broadcast use vstd::seq_lib::seq_to_set_is_finite;

    if forall|k: nat| k <= taken.len() ==> taken.contains(#[trigger] suffixed(base, k)) {
        let m: int = taken.len() as int;
        let r = set_int_range(0, m + 1);
        lemma_int_range(0, m + 1);
        let f = |k: int| suffixed(base, k as nat);
        let s = r.map(f);
        assert(injective_on(f, r)) by {
            assert forall|a: int, b: int|
                r.contains(a) && r.contains(b) && #[trigger] f(a) == #[trigger] f(b) implies a
                == b by {
                lemma_suffixed_injective(base, a as nat, b as nat);
            }
        }
        lemma_map_size(r, s, f);
        assert(s.subset_of(taken.to_set())) by {
            assert forall|x: Seq<char>| s.contains(x) implies taken.to_set().contains(x) by {
                let k = choose|k: int| r.contains(k) && f(k) == x;
                assert(taken.contains(suffixed(base, k as nat)));
            }
        }
        taken.lemma_cardinality_of_set();
        lemma_len_subset(s, taken.to_set());
        assert(false);
    }
}

proof fn lemma_first_free_from(base: Seq<char>, taken: Seq<Seq<char>>, k: nat)
    requires
        exists|j: nat| k <= j <= taken.len() && !taken.contains(#[trigger] suffixed(base, j)),
    ensures
        !taken.contains(first_free_from(base, taken, k)),
        exists|j: nat| first_free_from(base, taken, k) == #[trigger] suffixed(base, j),
    decreases taken.len() + 1 - k,
{
    let j = choose|j: nat| k <= j <= taken.len() && !taken.contains(#[trigger] suffixed(base, j));
    if !taken.contains(suffixed(base, k)) {
        assert(first_free_from(base, taken, k) == suffixed(base, k));
    } else {
        assert(j != k);
        assert(k + 1 <= j <= taken.len() && !taken.contains(suffixed(base, j)));
        lemma_first_free_from(base, taken, k + 1);
    }
}

/// The first free name is not taken, and is `base` with some counter.
pub proof fn lemma_first_free(base: Seq<char>, taken: Seq<Seq<char>>)
    ensures
        !taken.contains(first_free(base, taken)),
        exists|j: nat| first_free(base, taken) == #[trigger] suffixed(base, j),
{
    lemma_free_suffix_exists(base, taken);
    lemma_first_free_from(base, taken, 0);
}

proof fn lemma_count_one(es: Seq<(Seq<char>, Seq<char>)>, i: int)
    requires
        0 <= i < es.len(),
    ensures
        name_count(es, es[i].0) >= 1,
    decreases es.len(),
{
    if i < es.len() - 1 {
        lemma_count_one(es.drop_last(), i);
    }
}

proof fn lemma_count_two(es: Seq<(Seq<char>, Seq<char>)>, i: int, j: int)
    requires
        0 <= i < j < es.len(),
        es[i].0 == es[j].0,
    ensures
        name_count(es, es[i].0) >= 2,
    decreases es.len(),
{
    if j < es.len() - 1 {
        lemma_count_two(es.drop_last(), i, j);
    } else {
        lemma_count_one(es.drop_last(), i);
    }
}

proof fn lemma_kept_contains(all: Seq<(Seq<char>, Seq<char>)>, es: Seq<(Seq<char>, Seq<char>)>, i: int)
    requires
        0 <= i < es.len(),
        name_count(all, es[i].0) <= 1,
    ensures
        kept_names(all, es).contains(es[i].0),
    decreases es.len(),
{
    if i < es.len() - 1 {
        lemma_kept_contains(all, es.drop_last(), i);
        let rest = kept_names(all, es.drop_last());
        let k = choose|k: int| 0 <= k < rest.len() && rest[k] == es[i].0;
        assert(kept_names(all, es)[k] == es[i].0);
    } else {
        let kn = kept_names(all, es);
        assert(kn[kn.len() - 1] == es[i].0);
    }
}

proof fn lemma_concat_contains(a: Seq<Seq<char>>, b: Seq<Seq<char>>, x: Seq<char>)
    ensures
        (a + b).contains(x) <==> (a.contains(x) || b.contains(x)),
{
    if a.contains(x) {
        let i = choose|i: int| 0 <= i < a.len() && a[i] == x;
        assert((a + b)[i] == x);
    }
    if b.contains(x) {
        let i = choose|i: int| 0 <= i < b.len() && b[i] == x;
        assert((a + b)[a.len() + i] == x);
    }
    if (a + b).contains(x) {
        let i = choose|i: int| 0 <= i < (a + b).len() && (a + b)[i] == x;
        if i < a.len() {
            assert(a[i] == x);
        } else {
            assert(b[i - a.len()] == x);
        }
    }
}

/// What holds of the names of the first `n` entries.
proof fn lemma_dedup_prefix(all: Seq<(Seq<char>, Seq<char>)>, n: int)
    requires
        0 <= n <= all.len(),
    ensures
        dedup_prefix(all, n).0.len() == n,
        forall|i: int|
            0 <= i < n && name_count(all, all[i].0) <= 1 ==> #[trigger] dedup_prefix(all, n).0[i]
                == all[i].0,
        forall|i: int|
            0 <= i < n && name_count(all, all[i].0) > 1 ==> {
                &&& !reserved_names(all).contains(#[trigger] dedup_prefix(all, n).0[i])
                &&& dedup_prefix(all, n).1.contains(dedup_prefix(all, n).0[i])
                &&& exists|k: nat|
                    dedup_prefix(all, n).0[i] == #[trigger] suffixed(base_of(all[i]), k)
            },
        forall|i: int, j: int|
            0 <= i < j < n && name_count(all, all[i].0) > 1 && name_count(all, all[j].0) > 1
                ==> #[trigger] dedup_prefix(all, n).0[i] != #[trigger] dedup_prefix(all, n).0[j],
    decreases n,
{
    if n > 0 {
        lemma_dedup_prefix(all, n - 1);
        let prev = dedup_prefix(all, n - 1);
        let cur = dedup_prefix(all, n);
        let e = all[n - 1];
        assert forall|i: int| 0 <= i < n - 1 implies #[trigger] cur.0[i] == prev.0[i] by {}
        if name_count(all, e.0) > 1 {
            let taken = reserved_names(all) + prev.1;
            let name = first_free(base_of(e), taken);
            lemma_first_free(base_of(e), taken);
            lemma_concat_contains(reserved_names(all), prev.1, name);
            assert(cur.0[n - 1] == name);
            assert(cur.1 == prev.1.push(name));
            assert(cur.1[cur.1.len() - 1] == name);
            assert forall|i: int|
                0 <= i < n - 1 && name_count(all, all[i].0) > 1 implies cur.1.contains(
                #[trigger] cur.0[i],
            ) by {
                let k = choose|k: int| 0 <= k < prev.1.len() && prev.1[k] == prev.0[i];
                assert(cur.1[k] == prev.1[k]);
            }
            assert forall|i: int, j: int|
                0 <= i < j < n && name_count(all, all[i].0) > 1 && name_count(all, all[j].0) > 1
                    implies #[trigger] cur.0[i] != #[trigger] cur.0[j] by {
                if j == n - 1 {
                    assert(prev.1.contains(prev.0[i]));
                }
            }
        }
    }
}

/// The names keep one for each entry; a name no other entry has stays; a
/// shared name becomes the entry's base, with a counter where that is
/// taken, and never a name that another entry keeps.
pub proof fn law_dedup_names_shape(all: Seq<(Seq<char>, Seq<char>)>)
    ensures
        dedup_names(all).len() == all.len(),
        forall|i: int|
            0 <= i < all.len() && name_count(all, all[i].0) <= 1 ==> #[trigger] dedup_names(all)[i]
                == all[i].0,
        forall|i: int|
            0 <= i < all.len() && name_count(all, all[i].0) > 1 ==> counted_from(
                #[trigger] dedup_names(all)[i],
                base_of(all[i]),
            ),
{
    lemma_dedup_prefix(all, all.len() as int);
    assert forall|i: int|
        0 <= i < all.len() && name_count(all, all[i].0) > 1 implies counted_from(
        #[trigger] dedup_names(all)[i],
        base_of(all[i]),
    ) by {
        let d = dedup_prefix(all, all.len() as int).0;
        assert(d[i] == dedup_names(all)[i]);
        assert(!reserved_names(all).contains(d[i]));
        let k = choose|k: nat| d[i] == #[trigger] suffixed(base_of(all[i]), k);
        assert(dedup_names(all)[i] == suffixed(base_of(all[i]), k));
    }
}

/// A proxy whose name another proxy shares is renamed to its base (its name,
/// `-` and its address), or to that base followed by `-` and a counter of 1
/// or more.
pub proof fn law_shared_names_take_base_and_counter(all: Seq<(Seq<char>, Seq<char>)>, i: int)
    requires
        0 <= i < all.len(),
        name_count(all, all[i].0) > 1,
    ensures
        dedup_names(all)[i] == all[i].1 || exists|k: nat|
            k >= 1 && dedup_names(all)[i] == all[i].1 + "-"@ + #[trigger] decimal(k),
{
    law_dedup_names_shape(all);
    assert(counted_from(dedup_names(all)[i], base_of(all[i])));
    let k = choose|k: nat| dedup_names(all)[i] == #[trigger] suffixed(base_of(all[i]), k);
    if k >= 1 {
        assert(dedup_names(all)[i] == all[i].1 + "-"@ + decimal(k));
    }
}

/// After renaming, no two entries have the same name.
pub proof fn law_dedup_names_distinct(all: Seq<(Seq<char>, Seq<char>)>, i: int, j: int)
    requires
        0 <= i < all.len(),
        0 <= j < all.len(),
        i != j,
    ensures
        dedup_names(all)[i] != dedup_names(all)[j],
{
    lemma_dedup_prefix(all, all.len() as int);
    let names = dedup_names(all);
    let (a, b) = if i < j {
        (i, j)
    } else {
        (j, i)
    };
    let ca = name_count(all, all[a].0);
    let cb = name_count(all, all[b].0);
    if ca <= 1 && cb <= 1 {
        if all[a].0 == all[b].0 {
            lemma_count_two(all, a, b);
        }
    } else if ca <= 1 {
        lemma_kept_contains(all, all, a);
        assert(!reserved_names(all).contains(names[b]));
    } else if cb <= 1 {
        lemma_kept_contains(all, all, b);
        assert(!reserved_names(all).contains(names[a]));
    } else {
        assert(names[a] != names[b]);
    }
}

/// Where no two entries share a name, every entry keeps its name.
pub proof fn law_dedup_names_without_shared_names(all: Seq<(Seq<char>, Seq<char>)>)
    requires
        forall|i: int| 0 <= i < all.len() ==> name_count(all, #[trigger] all[i].0) <= 1,
    ensures
        dedup_names(all) == all.map_values(|e: (Seq<char>, Seq<char>)| e.0),
{
    law_dedup_names_shape(all);
    assert(dedup_names(all) =~= all.map_values(|e: (Seq<char>, Seq<char>)| e.0));
}

/// Whether `s` is one of the names.
fn names_contain(names: &Vec<String>, s: &str) -> (b: bool)
    ensures
        b == strings_view(names@).contains(s@),
{
    let mut i: usize = 0;
    while i < names.len()
        invariant
            i <= names@.len(),
            forall|j: int| 0 <= j < i ==> strings_view(names@)[j] != s@,
        decreases names@.len() - i,
    {
        if text_eq(names[i].as_str(), s) {
            assert(strings_view(names@)[i as int] == s@);
            return true;
        }
        i = i + 1;
    }
    false
}

/// `base` with the counter `k` (none for 0).
fn suffixed_name(base: &str, k: u128) -> (r: String)
    ensures
        r@ == suffixed(base@, k as nat),
{
    let mut r = copy_string(base);
    if k > 0 {
        r.append("-");
        r.append(decimal_string(k as u128).as_str());
    }
    r
}

/// The first of `base`, `base-1`, ... that is neither reserved nor assigned.
fn first_free_name(base: &str, reserved: &Vec<String>, assigned: &Vec<String>) -> (r: String)
    ensures
        r@ == first_free(base@, strings_view(reserved@) + strings_view(assigned@)),
{
    let ghost taken = strings_view(reserved@) + strings_view(assigned@);
    proof {
        lemma_free_suffix_exists(base@, taken);
    }
    let mut k: u128 = 0;
    loop
        invariant
            taken == strings_view(reserved@) + strings_view(assigned@),
            taken.len() == reserved.len() + assigned.len(),
            k <= taken.len(),
            first_free_from(base@, taken, 0) == first_free_from(base@, taken, k as nat),
            exists|j: nat| k <= j <= taken.len() && !taken.contains(#[trigger] suffixed(base@, j)),
        decreases taken.len() - k,
    {
        let cand = suffixed_name(base, k);
        proof {
            lemma_concat_contains(strings_view(reserved@), strings_view(assigned@), cand@);
        }
        if !names_contain(reserved, cand.as_str()) && !names_contain(assigned, cand.as_str()) {
            return cand;
        }
        let ghost j = choose|j: nat|
            k <= j <= taken.len() && !taken.contains(#[trigger] suffixed(base@, j));
        assert(j != k);
        k = k + 1;
    }
}

/// The names the entries end up with: see the module's description.
pub fn deduplicated_names(entries: &Vec<(String, String)>) -> (names: Vec<String>)
    ensures
        strings_view(names@) == dedup_names(pairs_view(entries@)),
{
    let ghost all = pairs_view(entries@);
    let n = entries.len();
    let mut shared: Vec<bool> = Vec::new();
    let mut reserved: Vec<String> = Vec::new();
    let mut k: usize = 0;
    assert(all.take(0) =~= Seq::<(Seq<char>, Seq<char>)>::empty());
    while k < n
        invariant
            k <= n == entries@.len() == all.len(),
            all == pairs_view(entries@),
            shared@.len() == k,
            forall|j: int| 0 <= j < k ==> shared@[j] == (name_count(all, #[trigger] all[j].0) > 1),
            strings_view(reserved@) == kept_names(all, all.take(k as int)),
        decreases n - k,
    {
        let name = entries[k].0.as_str();
        let mut count: usize = 0;
        let mut i: usize = 0;
        assert(all.take(0) =~= Seq::<(Seq<char>, Seq<char>)>::empty());
        while i < n
            invariant
                i <= n == entries@.len() == all.len(),
                all == pairs_view(entries@),
                k < n,
                name@ == all[k as int].0,
                count <= i,
                count == name_count(all.take(i as int), name@),
            decreases n - i,
        {
            let ghost pre = all.take(i as int + 1);
            assert(pre.drop_last() =~= all.take(i as int));
            if text_eq(entries[i].0.as_str(), name) {
                count = count + 1;
            }
            i = i + 1;
        }
        assert(all.take(n as int) =~= all);
        let ghost pre = all.take(k as int + 1);
        assert(pre.drop_last() =~= all.take(k as int));
        shared.push(count > 1);
        if count <= 1 {
            reserved.push(copy_string(name));
            assert(strings_view(reserved@) =~= kept_names(all, pre));
        }
        k = k + 1;
    }
    assert(all.take(n as int) =~= all);
    let mut names: Vec<String> = Vec::new();
    let mut assigned: Vec<String> = Vec::new();
    let mut i: usize = 0;
    while i < n
        invariant
            i <= n == entries@.len() == all.len(),
            all == pairs_view(entries@),
            shared@.len() == n,
            forall|j: int| 0 <= j < n ==> shared@[j] == (name_count(all, #[trigger] all[j].0) > 1),
            strings_view(reserved@) == reserved_names(all),
            strings_view(names@) == dedup_prefix(all, i as int).0,
            strings_view(assigned@) == dedup_prefix(all, i as int).1,
        decreases n - i,
    {
        let ghost prev = dedup_prefix(all, i as int);
        assert(all[i as int] == (entries@[i as int].0@, entries@[i as int].1@));
        if shared[i] {
            let name = first_free_name(entries[i].1.as_str(), &reserved, &assigned);
            names.push(copy_string(name.as_str()));
            assigned.push(name);
            assert(strings_view(names@) =~= prev.0.push(name@));
            assert(strings_view(assigned@) =~= prev.1.push(name@));
        } else {
            names.push(copy_string(entries[i].0.as_str()));
            assert(strings_view(names@) =~= prev.0.push(all[i as int].0));
        }
        i = i + 1;
    }
    names
}

} // verus!
