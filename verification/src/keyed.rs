//! Finite maps kept as vectors of key/value pairs with distinct keys.

use vstd::prelude::*;

verus! {

/// No two pairs have the same key.
pub open spec fn keys_unique<K: View, V: View>(s: Seq<(K, V)>) -> bool {
    forall|i: int, j: int|
        0 <= i < s.len() && 0 <= j < s.len() && i != j ==> (#[trigger] s[i]).0@ != (
        #[trigger] s[j]).0@
}

/// Some pair has the key `k`.
pub open spec fn has_key<K: View, V: View>(s: Seq<(K, V)>, k: K::V) -> bool {
    exists|i: int| 0 <= i < s.len() && (#[trigger] s[i]).0@ == k
}

/// The map that a list of key/value pairs stands for.
pub open spec fn pairs_map<K: View, V: View>(s: Seq<(K, V)>) -> Map<K::V, V::V> {
    Map::new(
        |k: K::V| has_key(s, k),
        |k: K::V| s[choose|i: int| 0 <= i < s.len() && (#[trigger] s[i]).0@ == k].1@,
    )
}

pub proof fn lemma_pairs_map_value<K: View, V: View>(s: Seq<(K, V)>, i: int)
    requires
        keys_unique(s),
        0 <= i < s.len(),
    ensures
        pairs_map(s).dom().contains(s[i].0@),
        pairs_map(s)[s[i].0@] == s[i].1@,
{
    let k = s[i].0@;
    assert(has_key(s, k));
    let c = choose|c: int| 0 <= c < s.len() && (#[trigger] s[c]).0@ == k;
    assert(c == i);
}

pub proof fn lemma_pairs_map_remove<K: View, V: View>(s: Seq<(K, V)>, i: int)
    requires
        keys_unique(s),
        0 <= i < s.len(),
    ensures
        keys_unique(s.remove(i)),
        pairs_map(s.remove(i)) == pairs_map(s).remove(s[i].0@),
{
    let t = s.remove(i);
    let k = s[i].0@;
    assert forall|a: int, b: int|
        0 <= a < t.len() && 0 <= b < t.len() && a != b implies (#[trigger] t[a]).0@ != (
    #[trigger] t[b]).0@ by {
        let a2 = if a < i {
            a
        } else {
            a + 1
        };
        let b2 = if b < i {
            b
        } else {
            b + 1
        };
        assert(t[a] == s[a2]);
        assert(t[b] == s[b2]);
    }
    assert forall|m: K::V| #[trigger] pairs_map(t).dom().contains(m) == pairs_map(
        s,
    ).remove(k).dom().contains(m) by {
        if has_key(t, m) {
            let a = choose|a: int| 0 <= a < t.len() && (#[trigger] t[a]).0@ == m;
            let a2 = if a < i {
                a
            } else {
                a + 1
            };
            assert(s[a2] == t[a]);
        }
        if m != k && has_key(s, m) {
            let a = choose|a: int| 0 <= a < s.len() && (#[trigger] s[a]).0@ == m;
            assert(a != i);
            let a2 = if a < i {
                a
            } else {
                a - 1
            };
            assert(t[a2] == s[a]);
        }
    }
    assert forall|m: K::V| #[trigger]
        pairs_map(t).dom().contains(m) implies pairs_map(t)[m] == pairs_map(s).remove(k)[m] by {
        let a = choose|a: int| 0 <= a < t.len() && (#[trigger] t[a]).0@ == m;
        let a2 = if a < i {
            a
        } else {
            a + 1
        };
        assert(s[a2] == t[a]);
        lemma_pairs_map_value(t, a);
        lemma_pairs_map_value(s, a2);
    }
    assert(pairs_map(t) =~= pairs_map(s).remove(k));
}

pub proof fn lemma_pairs_map_push<K: View, V: View>(s: Seq<(K, V)>, p: (K, V))
    requires
        keys_unique(s),
        !has_key(s, p.0@),
    ensures
        keys_unique(s.push(p)),
        pairs_map(s.push(p)) == pairs_map(s).insert(p.0@, p.1@),
{
    let t = s.push(p);
    assert forall|a: int, b: int|
        0 <= a < t.len() && 0 <= b < t.len() && a != b implies (#[trigger] t[a]).0@ != (
    #[trigger] t[b]).0@ by {
        if a < s.len() && b < s.len() {
            assert(t[a] == s[a] && t[b] == s[b]);
        } else if a < s.len() {
            assert(t[a] == s[a]);
        } else {
            assert(t[b] == s[b]);
        }
    }
    assert forall|m: K::V| #[trigger] pairs_map(t).dom().contains(m) == pairs_map(
        s,
    ).insert(p.0@, p.1@).dom().contains(m) by {
        if has_key(t, m) && m != p.0@ {
            let a = choose|a: int| 0 <= a < t.len() && (#[trigger] t[a]).0@ == m;
            assert(t[a] == s[a]);
        }
        if has_key(s, m) {
            let a = choose|a: int| 0 <= a < s.len() && (#[trigger] s[a]).0@ == m;
            assert(t[a] == s[a]);
        }
        if m == p.0@ {
            assert(t[s.len() as int] == p);
        }
    }
    assert forall|m: K::V| #[trigger]
        pairs_map(t).dom().contains(m) implies pairs_map(t)[m] == pairs_map(s).insert(
        p.0@,
        p.1@,
    )[m] by {
        let a = choose|a: int| 0 <= a < t.len() && (#[trigger] t[a]).0@ == m;
        lemma_pairs_map_value(t, a);
        if a < s.len() {
            assert(t[a] == s[a]);
            lemma_pairs_map_value(s, a);
        }
    }
    assert(pairs_map(t) =~= pairs_map(s).insert(p.0@, p.1@));
}

pub open spec fn key_seq<K: View, V: View>(s: Seq<(K, V)>) -> Seq<K::V> {
    s.map_values(|p: (K, V)| p.0@)
}

pub proof fn lemma_unique_len<K: View, V: View>(s: Seq<(K, V)>)
    requires
        keys_unique(s),
    ensures
        pairs_map(s).dom().finite(),
        pairs_map(s).dom().len() == s.len(),
{
    let ks = key_seq(s);
    assert forall|a: int, b: int| 0 <= a < ks.len() && 0 <= b < ks.len() && a != b implies ks[a]
        != ks[b] by {
        assert(s[a].0@ != s[b].0@);
    }
    assert(ks.no_duplicates());
    ks.unique_seq_to_set();
    assert(pairs_map(s).dom() =~= ks.to_set()) by {
        assert forall|k: K::V| pairs_map(s).dom().contains(k) implies ks.to_set().contains(
            k,
        ) by {
            let a = choose|a: int| 0 <= a < s.len() && (#[trigger] s[a]).0@ == k;
            assert(ks[a] == k);
        }
        assert forall|k: K::V| ks.to_set().contains(k) implies pairs_map(
            s,
        ).dom().contains(k) by {
            let a = choose|a: int| 0 <= a < ks.len() && ks[a] == k;
            assert(s[a].0@ == k);
        }
    }
}

pub proof fn lemma_same_map<K: View, V: View>(s: Seq<(K, V)>, t: Seq<(K, V)>)
    requires
        keys_unique(s),
        keys_unique(t),
        s.len() == t.len(),
        forall|j: int|
            0 <= j < s.len() ==> #[trigger] pairs_map(t).dom().contains(s[j].0@) && pairs_map(
                t,
            )[s[j].0@] == s[j].1@,
    ensures
        pairs_map(s) == pairs_map(t),
{
    lemma_unique_len(s);
    lemma_unique_len(t);
    let ds = pairs_map(s).dom();
    let dt = pairs_map(t).dom();
    assert(ds.subset_of(dt)) by {
        assert forall|k: K::V| ds.contains(k) implies dt.contains(k) by {
            let a = choose|a: int| 0 <= a < s.len() && (#[trigger] s[a]).0@ == k;
            assert(pairs_map(t).dom().contains(s[a].0@));
        }
    }
    vstd::set_lib::lemma_subset_equality(ds, dt);
    assert forall|k: K::V| #[trigger] ds.contains(k) implies pairs_map(s)[k] == pairs_map(
        t,
    )[k] by {
        let a = choose|a: int| 0 <= a < s.len() && (#[trigger] s[a]).0@ == k;
        lemma_pairs_map_value(s, a);
        assert(pairs_map(t).dom().contains(s[a].0@));
    }
    assert(pairs_map(s) =~= pairs_map(t));
}

} // verus!
