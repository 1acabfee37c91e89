//! Keyed entry lists kept in increasing key order, as a JSON object's
//! members are: lookup, insertion in place, removal.

use vstd::prelude::*;
use crate::text::chars_of;

verus! {

broadcast use vstd::string::group_string_axioms;

/// Lexicographic order of character sequences (the order of `String`).
pub open spec fn seq_less(a: Seq<char>, b: Seq<char>) -> bool
    decreases a.len(),
{
    if a.len() == 0 {
        b.len() > 0
    } else if b.len() == 0 {
        false
    } else if a[0] != b[0] {
        (a[0] as u32) < (b[0] as u32)
    } else {
        seq_less(a.drop_first(), b.drop_first())
    }
}

/// No key comes before itself.
pub proof fn lemma_less_irreflexive(a: Seq<char>)
    ensures
        !seq_less(a, a),
    decreases a.len(),
{
    if a.len() > 0 {
        lemma_less_irreflexive(a.drop_first());
    }
}

/// Two keys are never each before the other.
pub proof fn lemma_less_asymmetric(a: Seq<char>, b: Seq<char>)
    ensures
        !(seq_less(a, b) && seq_less(b, a)),
    decreases a.len(),
{
    if a.len() > 0 && b.len() > 0 && a[0] == b[0] {
        lemma_less_asymmetric(a.drop_first(), b.drop_first());
    }
}

/// Key order is transitive.
pub proof fn lemma_less_transitive(a: Seq<char>, b: Seq<char>, c: Seq<char>)
    requires
        seq_less(a, b),
        seq_less(b, c),
    ensures
        seq_less(a, c),
    decreases a.len(),
{
    if a.len() > 0 && b.len() > 0 && c.len() > 0 && a[0] == b[0] && b[0] == c[0] {
        lemma_less_transitive(a.drop_first(), b.drop_first(), c.drop_first());
    }
}

/// Of two different keys, one comes before the other.
pub proof fn lemma_less_total(a: Seq<char>, b: Seq<char>)
    ensures
        a == b || seq_less(a, b) || seq_less(b, a),
    decreases a.len(),
{
    if a.len() > 0 && b.len() > 0 && a[0] == b[0] {
        lemma_less_total(a.drop_first(), b.drop_first());
        if a.drop_first() == b.drop_first() {
            assert(a =~= seq![a[0]] + a.drop_first());
            assert(b =~= seq![b[0]] + b.drop_first());
        }
    } else if a.len() == 0 && b.len() == 0 {
        assert(a =~= b);
    } else if a.len() > 0 && b.len() > 0 {
        assert(a[0] != b[0]);
        vstd::utf8::char_u32_cast(a[0], a[0] as u32);
        vstd::utf8::char_u32_cast(b[0], b[0] as u32);
    }
}

fn chars_less(a: &Vec<char>, b: &Vec<char>) -> (r: bool)
    ensures
        r == seq_less(a@, b@),
{
    let mut i: usize = 0;
    assert(a@.skip(0) =~= a@);
    assert(b@.skip(0) =~= b@);
    while i < a.len() && i < b.len() && a[i] == b[i]
        invariant
            i <= a.len(),
            i <= b.len(),
            seq_less(a@.skip(i as int), b@.skip(i as int)) == seq_less(a@, b@),
        decreases a.len() - i,
    {
        assert(a@.skip(i as int).drop_first() =~= a@.skip(i + 1));
        assert(b@.skip(i as int).drop_first() =~= b@.skip(i + 1));
        i += 1;
    }
    if i == a.len() {
        i < b.len()
    } else if i == b.len() {
        false
    } else {
        (a[i] as u32) < (b[i] as u32)
    }
}

/// Whether `a` comes before `b` in `String` order.
pub fn key_less(a: &str, b: &str) -> (r: bool)
    ensures
        r == seq_less(a@, b@),
{
    let ac = chars_of(a);
    let bc = chars_of(b);
    chars_less(&ac, &bc)
}

/// The keys of an entry list.
pub open spec fn keys_of<V>(es: Seq<(Seq<char>, V)>) -> Seq<Seq<char>> {
    es.map_values(|e: (Seq<char>, V)| e.0)
}

/// Keys strictly increasing: sorted, each key once.
pub open spec fn sorted_keys<V>(es: Seq<(Seq<char>, V)>) -> bool {
    forall|i: int, j: int| 0 <= i < j < es.len() ==> seq_less(#[trigger] es[i].0, #[trigger] es[j].0)
}

/// The position of key `k`, if present.
pub open spec fn index_of<V>(es: Seq<(Seq<char>, V)>, k: Seq<char>) -> Option<int>
    decreases es.len(),
{
    if es.len() == 0 {
        None
    } else if es[0].0 == k {
        Some(0)
    } else {
        match index_of(es.drop_first(), k) {
            Some(i) => Some(i + 1),
            None => None,
        }
    }
}

/// The value under key `k`, if present.
pub open spec fn lookup<V>(es: Seq<(Seq<char>, V)>, k: Seq<char>) -> Option<V> {
    match index_of(es, k) {
        Some(i) => Some(es[i].1),
        None => None,
    }
}

/// How many leading keys come before `k`.
pub open spec fn insert_pos<V>(es: Seq<(Seq<char>, V)>, k: Seq<char>) -> int
    decreases es.len(),
{
    if es.len() == 0 {
        0
    } else if seq_less(es[0].0, k) {
        1 + insert_pos(es.drop_first(), k)
    } else {
        0
    }
}

/// Sets key `k` to `v`: in place when present, else inserted in key order.
pub open spec fn put<V>(es: Seq<(Seq<char>, V)>, k: Seq<char>, v: V) -> Seq<(Seq<char>, V)> {
    match index_of(es, k) {
        Some(i) => es.update(i, (k, v)),
        None => es.insert(insert_pos(es, k), (k, v)),
    }
}

/// Removes key `k`, if present.
pub open spec fn remove_key<V>(es: Seq<(Seq<char>, V)>, k: Seq<char>) -> Seq<(Seq<char>, V)> {
    match index_of(es, k) {
        Some(i) => es.remove(i),
        None => es,
    }
}

/// `index_of` finds the first entry with the key, and finds none exactly
/// when no entry has it.
pub proof fn lemma_index_of<V>(es: Seq<(Seq<char>, V)>, k: Seq<char>)
    ensures
        index_of(es, k) matches Some(i) ==> 0 <= i < es.len() && es[i].0 == k && forall|j: int|
            0 <= j < i ==> es[j].0 != k,
        index_of(es, k) is None ==> forall|j: int| 0 <= j < es.len() ==> es[j].0 != k,
    decreases es.len(),
{
    if es.len() > 0 && es[0].0 != k {
        lemma_index_of(es.drop_first(), k);
        if let Some(i) = index_of(es.drop_first(), k) {
            assert forall|j: int| 0 <= j < i + 1 implies es[j].0 != k by {
                if j > 0 {
                    assert(es[j] == es.drop_first()[j - 1]);
                }
            }
        } else {
            assert forall|j: int| 0 <= j < es.len() implies es[j].0 != k by {
                if j > 0 {
                    assert(es[j] == es.drop_first()[j - 1]);
                }
            }
        }
    }
}

/// In a sorted list, the insertion position splits the keys before `k`
/// from the others.
pub proof fn lemma_insert_pos<V>(es: Seq<(Seq<char>, V)>, k: Seq<char>)
    requires
        sorted_keys(es),
    ensures
        0 <= insert_pos(es, k) <= es.len(),
        forall|j: int| 0 <= j < insert_pos(es, k) ==> seq_less(#[trigger] es[j].0, k),
        forall|j: int| insert_pos(es, k) <= j < es.len() ==> !seq_less(#[trigger] es[j].0, k),
    decreases es.len(),
{
    if es.len() > 0 {
        let t = es.drop_first();
        assert(sorted_keys(t)) by {
            assert forall|i: int, j: int| 0 <= i < j < t.len() implies seq_less(#[trigger] t[i].0, #[trigger] t[j].0) by {
                assert(t[i] == es[i + 1]);
                assert(t[j] == es[j + 1]);
            }
        }
        lemma_insert_pos(t, k);
        if seq_less(es[0].0, k) {
            assert forall|j: int| 0 <= j < insert_pos(es, k) implies seq_less(#[trigger] es[j].0, k) by {
                if j > 0 {
                    assert(es[j] == t[j - 1]);
                }
            }
            assert forall|j: int| insert_pos(es, k) <= j < es.len() implies !seq_less(#[trigger] es[j].0, k) by {
                assert(es[j] == t[j - 1]);
            }
        } else {
            assert forall|j: int| 0 <= j < es.len() implies !seq_less(#[trigger] es[j].0, k) by {
                if j > 0 {
                    assert(seq_less(es[0].0, es[j].0));
                    if seq_less(es[j].0, k) {
                        lemma_less_transitive(es[0].0, es[j].0, k);
                    }
                }
            }
        }
    }
}

/// Setting a key keeps the keys in order, and afterwards the key holds the
/// new value while every other key keeps its value.
pub proof fn lemma_put<V>(es: Seq<(Seq<char>, V)>, k: Seq<char>, v: V)
    requires
        sorted_keys(es),
    ensures
        sorted_keys(put(es, k, v)),
        lookup(put(es, k, v), k) == Some(v),
        forall|k2: Seq<char>| k2 != k ==> #[trigger] lookup(put(es, k, v), k2) == lookup(es, k2),
{
    lemma_index_of(es, k);
    let r = put(es, k, v);
    match index_of(es, k) {
        Some(i) => {
            assert(sorted_keys(r)) by {
                assert forall|a: int, b: int| 0 <= a < b < r.len() implies seq_less(#[trigger] r[a].0, #[trigger] r[b].0) by {
                    assert(r[a].0 == es[a].0);
                    assert(r[b].0 == es[b].0);
                }
            }
            lemma_index_of(r, k);
            assert(index_of(r, k) == Some(i)) by {
                lemma_unique_index(r, k, i);
            }
            assert forall|k2: Seq<char>| k2 != k implies #[trigger] lookup(r, k2) == lookup(es, k2) by {
                lemma_index_of(es, k2);
                lemma_index_of(r, k2);
                match index_of(es, k2) {
                    Some(j) => {
                        lemma_unique_index(r, k2, j);
                    },
                    None => {
                        assert forall|j: int| 0 <= j < r.len() implies r[j].0 != k2 by {
                            assert(r[j].0 == es[j].0 || j == i);
                        }
                        lemma_absent_index(r, k2);
                    },
                }
            }
        },
        None => {
            lemma_insert_pos(es, k);
            let p = insert_pos(es, k);
            assert forall|j: int| p <= j < es.len() implies seq_less(k, #[trigger] es[j].0) by {
                lemma_less_total(k, es[j].0);
            }
            assert(sorted_keys(r)) by {
                assert forall|a: int, b: int| 0 <= a < b < r.len() implies seq_less(#[trigger] r[a].0, #[trigger] r[b].0) by {
                    if b < p {
                        assert(r[a] == es[a] && r[b] == es[b]);
                    } else if b == p {
                        assert(r[a] == es[a]);
                    } else if a < p {
                        assert(r[a] == es[a] && r[b] == es[b - 1]);
                        assert(seq_less(es[a].0, k));
                        lemma_less_transitive(es[a].0, k, es[b - 1].0);
                    } else if a == p {
                        assert(r[b] == es[b - 1]);
                    } else {
                        assert(r[a] == es[a - 1] && r[b] == es[b - 1]);
                    }
                }
            }
            assert(r[p] == (k, v));
            lemma_unique_index(r, k, p);
            assert forall|k2: Seq<char>| k2 != k implies #[trigger] lookup(r, k2) == lookup(es, k2) by {
                lemma_index_of(es, k2);
                match index_of(es, k2) {
                    Some(j) => {
                        let jj = if j < p { j } else { j + 1 };
                        assert(r[jj] == es[j]);
                        lemma_unique_index(r, k2, jj);
                    },
                    None => {
                        assert forall|j: int| 0 <= j < r.len() implies r[j].0 != k2 by {
                            if j < p {
                                assert(r[j] == es[j]);
                            } else if j > p {
                                assert(r[j] == es[j - 1]);
                            }
                        }
                        lemma_absent_index(r, k2);
                    },
                }
            }
        },
    }
}

/// In a list with distinct keys, the entry at `i` with key `k` is the one
/// `index_of` finds.
pub proof fn lemma_unique_index<V>(es: Seq<(Seq<char>, V)>, k: Seq<char>, i: int)
    requires
        sorted_keys(es),
        0 <= i < es.len(),
        es[i].0 == k,
    ensures
        index_of(es, k) == Some(i),
{
    lemma_index_of(es, k);
    match index_of(es, k) {
        Some(j) => {
            if j < i {
                assert(seq_less(es[j].0, es[i].0));
                lemma_less_irreflexive(k);
            }
            if i < j {
                assert(es[i].0 != k);
            }
        },
        None => {
            assert(es[i].0 != k);
        },
    }
}

/// A key no entry has is not found.
pub proof fn lemma_absent_index<V>(es: Seq<(Seq<char>, V)>, k: Seq<char>)
    requires
        forall|j: int| 0 <= j < es.len() ==> es[j].0 != k,
    ensures
        index_of(es, k) is None,
{
    lemma_index_of(es, k);
}

/// Removing a key keeps the keys in order, drops that key, and keeps every
/// other key's value.
pub proof fn lemma_remove<V>(es: Seq<(Seq<char>, V)>, k: Seq<char>)
    requires
        sorted_keys(es),
    ensures
        sorted_keys(remove_key(es, k)),
        lookup(remove_key(es, k), k) is None,
        forall|k2: Seq<char>| k2 != k ==> #[trigger] lookup(remove_key(es, k), k2) == lookup(es, k2),
{
    lemma_index_of(es, k);
    let r = remove_key(es, k);
    match index_of(es, k) {
        Some(i) => {
            assert(sorted_keys(r)) by {
                assert forall|a: int, b: int| 0 <= a < b < r.len() implies seq_less(#[trigger] r[a].0, #[trigger] r[b].0) by {
                    let aa = if a < i { a } else { a + 1 };
                    let bb = if b < i { b } else { b + 1 };
                    assert(r[a] == es[aa] && r[b] == es[bb]);
                }
            }
            assert forall|j: int| 0 <= j < r.len() implies r[j].0 != k by {
                let jj = if j < i { j } else { j + 1 };
                assert(r[j] == es[jj]);
                if es[jj].0 == k {
                    lemma_unique_index(es, k, jj);
                }
            }
            lemma_absent_index(r, k);
            assert forall|k2: Seq<char>| k2 != k implies #[trigger] lookup(r, k2) == lookup(es, k2) by {
                lemma_index_of(es, k2);
                match index_of(es, k2) {
                    Some(j) => {
                        let jj = if j < i { j } else { j - 1 };
                        assert(j != i);
                        assert(r[jj] == es[j]);
                        lemma_unique_index(r, k2, jj);
                    },
                    None => {
                        assert forall|j: int| 0 <= j < r.len() implies r[j].0 != k2 by {
                            let jj = if j < i { j } else { j + 1 };
                            assert(r[j] == es[jj]);
                        }
                        lemma_absent_index(r, k2);
                    },
                }
            }
        },
        None => {},
    }
}

} // verus!

verus! {

/// The view of an entry list: each key as characters, each value by its view.
pub open spec fn entries_view<T: View>(es: Seq<(String, T)>) -> Seq<(Seq<char>, T::V)> {
    es.map_values(|e: (String, T)| (e.0@, e.1@))
}

/// The position of key `k`.
pub fn find_key<T: View>(es: &Vec<(String, T)>, k: &str) -> (r: Option<usize>)
    ensures
        match index_of(entries_view(es@), k@) {
            Some(i) => r == Some(i as usize),
            None => r is None,
        },
        r matches Some(i) ==> i < es@.len(),
{
    let ghost ev = entries_view(es@);
    let mut i: usize = 0;
    assert(ev.skip(0) =~= ev);
    while i < es.len()
        invariant
            i <= es.len(),
            ev == entries_view(es@),
            forall|j: int| 0 <= j < i ==> ev[j].0 != k@,
        decreases es.len() - i,
    {
        if crate::text::str_eq(es[i].0.as_str(), k) {
            proof {
                lemma_index_of(ev, k@);
                match index_of(ev, k@) {
                    Some(m) => {
                        if m > i {
                            assert(ev[i as int].0 == k@);
                        }
                    },
                    None => {
                        assert(ev[i as int].0 == k@);
                    },
                }
            }
            return Some(i);
        }
        i += 1;
    }
    proof {
        lemma_absent_index(ev, k@);
    }
    None
}

/// Sets key `k` to `v`: in place when present, else inserted in key order.
pub fn put_entry<T: View>(es: &mut Vec<(String, T)>, k: String, v: T)
    ensures
        entries_view(final(es)@) == put(entries_view(old(es)@), k@, v@),
{
    let ghost ev = entries_view(es@);
    proof {
        lemma_index_of(ev, k@);
    }
    match find_key(es, k.as_str()) {
        Some(i) => {
            es.set(i, (k, v));
            assert(entries_view(es@) =~= ev.update(i as int, (k@, v@)));
        },
        None => {
            let mut p: usize = 0;
            assert(ev.skip(0) =~= ev);
            while p < es.len() && key_less(es[p].0.as_str(), k.as_str())
                invariant
                    p <= es.len(),
                    ev == entries_view(es@),
                    insert_pos(ev, k@) == p + insert_pos(ev.skip(p as int), k@),
                decreases es.len() - p,
            {
                assert(ev.skip(p as int).drop_first() =~= ev.skip(p + 1));
                assert(ev.skip(p as int)[0] == ev[p as int]);
                p += 1;
            }
            proof {
                if p < es.len() {
                    assert(ev.skip(p as int)[0] == ev[p as int]);
                }
            }
            es.insert(p, (k, v));
            assert(entries_view(es@) =~= ev.insert(p as int, (k@, v@)));
        },
    }
}

/// Removes key `k`, if present.
pub fn remove_entry<T: View>(es: &mut Vec<(String, T)>, k: &str)
    ensures
        entries_view(final(es)@) == remove_key(entries_view(old(es)@), k@),
{
    let ghost ev = entries_view(es@);
    proof {
        lemma_index_of(ev, k@);
    }
    let n = es.len();
    assert(ev.len() == n);
    match find_key(es, k) {
        Some(i) => {
            assert(index_of(ev, k@) == Some(i as int));
            es.remove(i);
            assert(entries_view(es@) =~= ev.remove(i as int));
            assert(remove_key(ev, k@) == ev.remove(i as int));
        },
        None => {
            assert(remove_key(ev, k@) == ev);
        },
    }
}

} // verus!
