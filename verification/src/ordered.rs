//! Ordered collections of strings: the behaviour of `BTreeSet<String>` and of
//! the key order of `BTreeMap<String, _>`, and stable sorting of strings.

use vstd::prelude::*;
use crate::model::ext_counts_view;
use crate::text::{lemma_lt_asym, lemma_lt_irreflexive, lemma_lt_total, lemma_lt_trans, seq_lt, str_eq, str_lt, views};

verus! {

/// Insertion of `k` into an ordered key list, as a `BTreeSet` or the keys of
/// a `BTreeMap` take it: nothing changes when `k` is present; otherwise `k`
/// goes before the first key greater than it.
pub open spec fn ins_key(ks: Seq<Seq<char>>, k: Seq<char>) -> Seq<Seq<char>>
    decreases ks.len(),
{
    if ks.len() == 0 {
        seq![k]
    } else if ks[0] == k {
        ks
    } else if seq_lt(k, ks[0]) {
        seq![k] + ks
    } else {
        seq![ks[0]] + ins_key(ks.drop_first(), k)
    }
}

/// The keys of a sequence inserted one after another into an empty set.
pub open spec fn key_set_of(s: Seq<Seq<char>>) -> Seq<Seq<char>>
    decreases s.len(),
{
    if s.len() == 0 {
        Seq::empty()
    } else {
        ins_key(key_set_of(s.drop_last()), s.last())
    }
}

/// Strictly increasing: sorted without duplicates.
pub open spec fn strictly_sorted(ks: Seq<Seq<char>>) -> bool {
    forall|i: int, j: int| 0 <= i < j < ks.len() ==> seq_lt(#[trigger] ks[i], #[trigger] ks[j])
}

pub proof fn lemma_ins_key_at(ks: Seq<Seq<char>>, k: Seq<char>, j: int)
    requires
        0 <= j <= ks.len(),
        forall|i: int| 0 <= i < j ==> #[trigger] ks[i] != k && !seq_lt(k, ks[i]),
        j < ks.len() ==> (ks[j] == k || seq_lt(k, ks[j])),
    ensures
        j < ks.len() && ks[j] == k ==> ins_key(ks, k) == ks,
        !(j < ks.len() && ks[j] == k) ==> ins_key(ks, k) == ks.insert(j, k),
    decreases j,
{
    if j > 0 {
        let t = ks.drop_first();
        assert forall|i: int| 0 <= i < j - 1 implies #[trigger] t[i] != k && !seq_lt(k, t[i]) by {
            assert(t[i] == ks[i + 1]);
        }
        lemma_ins_key_at(t, k, j - 1);
        assert(ks =~= seq![ks[0]] + t);
        if !(j < ks.len() && ks[j] == k) {
            assert(seq![ks[0]] + t.insert(j - 1, k) =~= ks.insert(j, k));
        }
    } else {
        if ks.len() > 0 && ks[0] != k {
            assert(seq![k] + ks =~= ks.insert(0, k));
        }
        if ks.len() == 0 {
            assert(seq![k] =~= ks.insert(0, k));
        }
    }
}

/// Position where `ins_key` puts (or finds) `k`.
pub open spec fn ins_pos(ks: Seq<Seq<char>>, k: Seq<char>) -> int
    decreases ks.len(),
{
    if ks.len() == 0 || ks[0] == k || seq_lt(k, ks[0]) {
        0
    } else {
        1 + ins_pos(ks.drop_first(), k)
    }
}

pub proof fn lemma_ins_pos(ks: Seq<Seq<char>>, k: Seq<char>)
    ensures
        0 <= ins_pos(ks, k) <= ks.len(),
        forall|i: int| 0 <= i < ins_pos(ks, k) ==> #[trigger] ks[i] != k && !seq_lt(k, ks[i]),
        ins_pos(ks, k) < ks.len() ==> (ks[ins_pos(ks, k)] == k || seq_lt(k, ks[ins_pos(ks, k)])),
    decreases ks.len(),
{
    if !(ks.len() == 0 || ks[0] == k || seq_lt(k, ks[0])) {
        lemma_ins_pos(ks.drop_first(), k);
        assert forall|i: int| 0 <= i < ins_pos(ks, k) implies #[trigger] ks[i] != k && !seq_lt(k, ks[i]) by {
            if i > 0 {
                assert(ks[i] == ks.drop_first()[i - 1]);
            }
        }
    }
}

pub proof fn lemma_ins_key_contains(ks: Seq<Seq<char>>, k: Seq<char>)
    ensures
        forall|x: Seq<char>| ins_key(ks, k).contains(x) <==> (ks.contains(x) || x == k),
        ins_key(ks, k).len() <= ks.len() + 1,
{
    lemma_ins_pos(ks, k);
    let p = ins_pos(ks, k);
    lemma_ins_key_at(ks, k, p);
    if p < ks.len() && ks[p] == k {
        assert forall|x: Seq<char>| ins_key(ks, k).contains(x) <==> (ks.contains(x) || x == k) by {
            if x == k {
                assert(ks[p] == x);
            }
        }
    } else {
        let r = ks.insert(p, k);
        assert forall|x: Seq<char>| r.contains(x) <==> (ks.contains(x) || x == k) by {
            if ks.contains(x) {
                let i = choose|i: int| 0 <= i < ks.len() && ks[i] == x;
                if i < p {
                    assert(r[i] == x);
                } else {
                    assert(r[i + 1] == x);
                }
            }
            if x == k {
                assert(r[p] == x);
            }
            if r.contains(x) {
                let i = choose|i: int| 0 <= i < r.len() && r[i] == x;
                if i < p {
                    assert(ks[i] == x);
                } else if i > p {
                    assert(ks[i - 1] == x);
                }
            }
        }
    }
}

/// Insertion keeps a strictly sorted list strictly sorted.
pub proof fn lemma_ins_key_sorted(ks: Seq<Seq<char>>, k: Seq<char>)
    requires
        strictly_sorted(ks),
    ensures
        strictly_sorted(ins_key(ks, k)),
    decreases ks.len(),
{
    lemma_ins_key_contains(ks, k);
    if ks.len() == 0 {
    } else if ks[0] == k {
    } else if seq_lt(k, ks[0]) {
        let r = seq![k] + ks;
        assert forall|i: int, j: int| 0 <= i < j < r.len() implies seq_lt(#[trigger] r[i], #[trigger] r[j]) by {
            if i == 0 {
                if j > 1 {
                    lemma_lt_trans(k, ks[0], ks[j - 1]);
                }
            } else {
                assert(r[i] == ks[i - 1] && r[j] == ks[j - 1]);
            }
        }
    } else {
        let t = ks.drop_first();
        assert forall|i: int, j: int| 0 <= i < j < t.len() implies seq_lt(#[trigger] t[i], #[trigger] t[j]) by {
            assert(t[i] == ks[i + 1] && t[j] == ks[j + 1]);
        }
        lemma_ins_key_sorted(t, k);
        lemma_ins_key_contains(t, k);
        lemma_lt_total(k, ks[0]);
        let r = seq![ks[0]] + ins_key(t, k);
        assert forall|i: int, j: int| 0 <= i < j < r.len() implies seq_lt(#[trigger] r[i], #[trigger] r[j]) by {
            if i == 0 {
                let x = r[j];
                assert(ins_key(t, k)[j - 1] == x);
                assert(ins_key(t, k).contains(x));
                if x == k {
                } else {
                    assert(t.contains(x));
                    let m = choose|m: int| 0 <= m < t.len() && t[m] == x;
                    assert(ks[m + 1] == x);
                }
            } else {
                assert(r[i] == ins_key(t, k)[i - 1] && r[j] == ins_key(t, k)[j - 1]);
            }
        }
    }
}

/// The keys that `key_set_of` produces are strictly sorted and are exactly
/// the elements of the input.
pub proof fn lemma_key_set_of(s: Seq<Seq<char>>)
    ensures
        strictly_sorted(key_set_of(s)),
        forall|x: Seq<char>| key_set_of(s).contains(x) <==> s.contains(x),
    decreases s.len(),
{
    if s.len() > 0 {
        lemma_key_set_of(s.drop_last());
        lemma_ins_key_sorted(key_set_of(s.drop_last()), s.last());
        lemma_ins_key_contains(key_set_of(s.drop_last()), s.last());
        assert forall|x: Seq<char>| key_set_of(s).contains(x) <==> s.contains(x) by {
            if s.contains(x) {
                let i = choose|i: int| 0 <= i < s.len() && s[i] == x;
                if i < s.len() - 1 {
                    assert(s.drop_last()[i] == x);
                }
            }
            if s.drop_last().contains(x) {
                let i = choose|i: int| 0 <= i < s.drop_last().len() && s.drop_last()[i] == x;
                assert(s[i] == x);
            }
        }
    }
}

pub proof fn lemma_key_set_of_at(s: Seq<Seq<char>>, x: Seq<char>)
    ensures
        key_set_of(s).contains(x) <==> s.contains(x),
        strictly_sorted(key_set_of(s)),
{
    lemma_key_set_of(s);
}

/// Inserts `k` into an ordered key list kept in a `Vec<String>`; returns the
/// position of `k` afterwards.
pub fn insert_key(keys: &mut Vec<String>, k: &str) -> (pos: usize)
    ensures
        views(final(keys)@) == ins_key(views(old(keys)@), k@),
        final(keys)@.len() == old(keys)@.len() ==> views(final(keys)@) == views(old(keys)@),
        final(keys)@.len() != old(keys)@.len() ==> views(final(keys)@) == views(old(keys)@).insert(pos as int, k@),
        pos < final(keys)@.len(),
        pos <= old(keys)@.len(),
        final(keys)@[pos as int]@ == k@,
{
    let ghost ks = views(keys@);
    let mut j: usize = 0;
    while j < keys.len() && !str_lt(k, keys[j].as_str())
        invariant
            j <= keys.len(),
            ks == views(keys@),
            forall|i: int| 0 <= i < j ==> #[trigger] ks[i] != k@ && !seq_lt(k@, ks[i]),
        decreases keys.len() - j,
    {
        if str_eq(keys[j].as_str(), k) {
            proof {
                lemma_ins_key_at(ks, k@, j as int);
            }
            return j;
        }
        j += 1;
    }
    proof {
        lemma_lt_irreflexive(k@);
        lemma_ins_key_at(ks, k@, j as int);
    }
    keys.insert(j, k.to_string());
    assert(views(keys@) =~= ks.insert(j as int, k@));
    j
}


/// Two strictly sorted lists with the same elements are equal.
pub proof fn lemma_sorted_unique(a: Seq<Seq<char>>, b: Seq<Seq<char>>)
    requires
        strictly_sorted(a),
        strictly_sorted(b),
        forall|x: Seq<char>| a.contains(x) <==> b.contains(x),
    ensures
        a == b,
    decreases a.len() + b.len(),
{
    if a.len() == 0 {
        if b.len() > 0 {
            assert(b.contains(b[0]));
        }
        assert(a =~= b);
    } else if b.len() == 0 {
        assert(a.contains(a[0]));
    } else {
        // the first elements are the minimum of the same set
        assert(a.contains(a[0]));
        assert(b.contains(b[0]));
        let ia = choose|i: int| 0 <= i < a.len() && a[i] == b[0];
        let ib = choose|i: int| 0 <= i < b.len() && b[i] == a[0];
        if ia > 0 {
            assert(seq_lt(a[0], a[ia]));
            if ib > 0 {
                assert(seq_lt(b[0], b[ib]));
                lemma_lt_asym(a[0], b[0]);
            }
        }
        assert(a[0] == b[0]) by {
            if ia > 0 && ib == 0 {
            } else if ia == 0 {
            }
        }
        let ta = a.drop_first();
        let tb = b.drop_first();
        assert forall|i: int, j: int| 0 <= i < j < ta.len() implies seq_lt(#[trigger] ta[i], #[trigger] ta[j]) by {
            assert(ta[i] == a[i + 1] && ta[j] == a[j + 1]);
        }
        assert forall|i: int, j: int| 0 <= i < j < tb.len() implies seq_lt(#[trigger] tb[i], #[trigger] tb[j]) by {
            assert(tb[i] == b[i + 1] && tb[j] == b[j + 1]);
        }
        assert forall|x: Seq<char>| ta.contains(x) <==> tb.contains(x) by {
            if ta.contains(x) {
                let i = choose|i: int| 0 <= i < ta.len() && ta[i] == x;
                assert(a[i + 1] == x);
                assert(seq_lt(a[0], a[i + 1]));
                lemma_lt_irreflexive(x);
                assert(b.contains(x));
                let j = choose|j: int| 0 <= j < b.len() && b[j] == x;
                assert(j != 0);
                assert(tb[j - 1] == x);
            }
            if tb.contains(x) {
                let i = choose|i: int| 0 <= i < tb.len() && tb[i] == x;
                assert(b[i + 1] == x);
                assert(seq_lt(b[0], b[i + 1]));
                lemma_lt_irreflexive(x);
                assert(a.contains(x));
                let j = choose|j: int| 0 <= j < a.len() && a[j] == x;
                assert(j != 0);
                assert(ta[j - 1] == x);
            }
        }
        lemma_sorted_unique(ta, tb);
        assert(a =~= seq![a[0]] + ta);
        assert(b =~= seq![b[0]] + tb);
    }
}

/// Adds `d` to the count of key `k` in an ordered list of counts, as
/// `*map.entry(k).or_insert(0) += d` does on a `BTreeMap`: a missing key
/// goes, with count `d`, before the first greater key.
pub open spec fn bump(es: Seq<(Seq<char>, nat)>, k: Seq<char>, d: nat) -> Seq<(Seq<char>, nat)>
    decreases es.len(),
{
    if es.len() == 0 {
        seq![(k, d)]
    } else if es[0].0 == k {
        es.update(0, (k, es[0].1 + d))
    } else if seq_lt(k, es[0].0) {
        seq![(k, d)] + es
    } else {
        seq![es[0]] + bump(es.drop_first(), k, d)
    }
}

/// The keys of a list of counts.
pub open spec fn entry_keys(es: Seq<(Seq<char>, nat)>) -> Seq<Seq<char>> {
    es.map_values(|e: (Seq<char>, nat)| e.0)
}

pub proof fn lemma_bump_at(es: Seq<(Seq<char>, nat)>, k: Seq<char>, d: nat, j: int)
    requires
        0 <= j <= es.len(),
        forall|i: int| 0 <= i < j ==> #[trigger] es[i].0 != k && !seq_lt(k, es[i].0),
        j < es.len() ==> (es[j].0 == k || seq_lt(k, es[j].0)),
    ensures
        j < es.len() && es[j].0 == k ==> bump(es, k, d) == es.update(j, (k, es[j].1 + d)),
        !(j < es.len() && es[j].0 == k) ==> bump(es, k, d) == es.insert(j, (k, d)),
    decreases j,
{
    if j > 0 {
        let t = es.drop_first();
        assert forall|i: int| 0 <= i < j - 1 implies #[trigger] t[i].0 != k && !seq_lt(k, t[i].0) by {
            assert(t[i] == es[i + 1]);
        }
        lemma_bump_at(t, k, d, j - 1);
        assert(es =~= seq![es[0]] + t);
        if j < es.len() && es[j].0 == k {
            assert(seq![es[0]] + t.update(j - 1, (k, t[j - 1].1 + d)) =~= es.update(j, (k, es[j].1 + d)));
        } else {
            assert(seq![es[0]] + t.insert(j - 1, (k, d)) =~= es.insert(j, (k, d)));
        }
    } else {
        if es.len() > 0 && es[0].0 != k {
            assert(seq![(k, d)] + es =~= es.insert(0, (k, d)));
        }
        if es.len() == 0 {
            assert(seq![(k, d)] =~= es.insert(0, (k, d)));
        }
    }
}

/// The keys after a bump are the keys with `k` inserted in order.
pub proof fn lemma_bump_keys(es: Seq<(Seq<char>, nat)>, k: Seq<char>, d: nat)
    ensures
        entry_keys(bump(es, k, d)) == ins_key(entry_keys(es), k),
    decreases es.len(),
{
    if es.len() == 0 {
        assert(entry_keys(bump(es, k, d)) =~= seq![k]);
    } else if es[0].0 == k {
        assert(entry_keys(bump(es, k, d)) =~= entry_keys(es));
    } else if seq_lt(k, es[0].0) {
        assert(entry_keys(bump(es, k, d)) =~= seq![k] + entry_keys(es));
    } else {
        lemma_bump_keys(es.drop_first(), k, d);
        assert(entry_keys(es).drop_first() =~= entry_keys(es.drop_first()));
        assert(entry_keys(bump(es, k, d)) =~= seq![es[0].0] + entry_keys(bump(es.drop_first(), k, d)));
    }
}

/// Adds `d` to the count of `k` (see [`bump`]).
pub fn bump_count(es: &mut Vec<(String, usize)>, k: &str, d: usize)
    requires
        forall|j: int| 0 <= j < old(es)@.len() ==> #[trigger] old(es)@[j].1 + d <= usize::MAX,
    ensures
        ext_counts_view(final(es)@) == bump(ext_counts_view(old(es)@), k@, d as nat),
{
    let ghost es0 = ext_counts_view(es@);
    let mut j: usize = 0;
    while j < es.len() && !str_lt(k, es[j].0.as_str())
        invariant
            j <= es.len(),
            es@ == old(es)@,
            forall|i: int| 0 <= i < old(es)@.len() ==> #[trigger] old(es)@[i].1 + d <= usize::MAX,
            es0 == ext_counts_view(es@),
            forall|i: int| 0 <= i < j ==> #[trigger] es0[i].0 != k@ && !seq_lt(k@, es0[i].0),
        decreases es.len() - j,
    {
        if str_eq(es[j].0.as_str(), k) {
            proof {
                lemma_bump_at(es0, k@, d as nat, j as int);
            }
            let c = es[j].1;
            assert(old(es)@[j as int].1 + d <= usize::MAX);
            let name = es[j].0.clone();
            es.set(j, (name, c + d));
            assert(ext_counts_view(es@) =~= es0.update(j as int, (k@, es0[j as int].1 + d as nat)));
            return;
        }
        j += 1;
    }
    proof {
        lemma_lt_irreflexive(k@);
        lemma_bump_at(es0, k@, d as nat, j as int);
    }
    es.insert(j, (k.to_string(), d));
    assert(ext_counts_view(es@) =~= es0.insert(j as int, (k@, d as nat)));
}

/// The order of `(String, String)` pairs: by the first, then the second.
pub open spec fn pair_lt(a: (Seq<char>, Seq<char>), b: (Seq<char>, Seq<char>)) -> bool {
    seq_lt(a.0, b.0) || (a.0 == b.0 && seq_lt(a.1, b.1))
}

/// Insertion into an ordered set of pairs, as a `BTreeSet<(String, String)>`
/// takes it.
pub open spec fn ins_pair(ps: Seq<(Seq<char>, Seq<char>)>, k: (Seq<char>, Seq<char>)) -> Seq<(Seq<char>, Seq<char>)>
    decreases ps.len(),
{
    if ps.len() == 0 {
        seq![k]
    } else if ps[0] == k {
        ps
    } else if pair_lt(k, ps[0]) {
        seq![k] + ps
    } else {
        seq![ps[0]] + ins_pair(ps.drop_first(), k)
    }
}

/// The ordered set of the pairs of `s`.
pub open spec fn pair_set_of(s: Seq<(Seq<char>, Seq<char>)>) -> Seq<(Seq<char>, Seq<char>)>
    decreases s.len(),
{
    if s.len() == 0 {
        Seq::empty()
    } else {
        ins_pair(pair_set_of(s.drop_last()), s.last())
    }
}

pub proof fn lemma_ins_pair_at(ps: Seq<(Seq<char>, Seq<char>)>, k: (Seq<char>, Seq<char>), j: int)
    requires
        0 <= j <= ps.len(),
        forall|i: int| 0 <= i < j ==> #[trigger] ps[i] != k && !pair_lt(k, ps[i]),
        j < ps.len() ==> (ps[j] == k || pair_lt(k, ps[j])),
    ensures
        j < ps.len() && ps[j] == k ==> ins_pair(ps, k) == ps,
        !(j < ps.len() && ps[j] == k) ==> ins_pair(ps, k) == ps.insert(j, k),
    decreases j,
{
    if j > 0 {
        let t = ps.drop_first();
        assert forall|i: int| 0 <= i < j - 1 implies #[trigger] t[i] != k && !pair_lt(k, t[i]) by {
            assert(t[i] == ps[i + 1]);
        }
        lemma_ins_pair_at(t, k, j - 1);
        assert(ps =~= seq![ps[0]] + t);
        if !(j < ps.len() && ps[j] == k) {
            assert(seq![ps[0]] + t.insert(j - 1, k) =~= ps.insert(j, k));
        }
    } else {
        if ps.len() > 0 && ps[0] != k {
            assert(seq![k] + ps =~= ps.insert(0, k));
        }
        if ps.len() == 0 {
            assert(seq![k] =~= ps.insert(0, k));
        }
    }
}

pub open spec fn pairs_view(v: Seq<(String, String)>) -> Seq<(Seq<char>, Seq<char>)> {
    v.map_values(|p: (String, String)| (p.0@, p.1@))
}

fn pair_less(a0: &str, a1: &str, b0: &str, b1: &str) -> (r: bool)
    ensures
        r == pair_lt((a0@, a1@), (b0@, b1@)),
{
    str_lt(a0, b0) || (str_eq(a0, b0) && str_lt(a1, b1))
}

/// Inserts a pair into an ordered set of pairs (see [`ins_pair`]).
pub fn insert_pair(ps: &mut Vec<(String, String)>, a: String, b: String)
    ensures
        pairs_view(final(ps)@) == ins_pair(pairs_view(old(ps)@), (a@, b@)),
{
    let ghost ks = pairs_view(ps@);
    let ghost k = (a@, b@);
    let mut j: usize = 0;
    while j < ps.len() && !pair_less(a.as_str(), b.as_str(), ps[j].0.as_str(), ps[j].1.as_str())
        invariant
            j <= ps.len(),
            ks == pairs_view(ps@),
            k == (a@, b@),
            forall|i: int| 0 <= i < j ==> #[trigger] ks[i] != k && !pair_lt(k, ks[i]),
        decreases ps.len() - j,
    {
        if str_eq(ps[j].0.as_str(), a.as_str()) && str_eq(ps[j].1.as_str(), b.as_str()) {
            proof {
                lemma_ins_pair_at(ks, k, j as int);
            }
            return;
        }
        j += 1;
    }
    proof {
        lemma_lt_irreflexive(a@);
        lemma_lt_irreflexive(b@);
        lemma_ins_pair_at(ks, k, j as int);
    }
    ps.insert(j, (a, b));
    assert(pairs_view(ps@) =~= ks.insert(j as int, k));
}

} // verus!
