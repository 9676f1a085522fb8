//! The keys of a `BTreeMap` with `u64` keys, in increasing order.
use vstd::prelude::*;
use std::collections::BTreeMap;
use vstd::std_specs::btree::{axiom_increasing_seq_meaning, increasing_seq, spec_keys_iter};
use vstd::std_specs::cmp::OrdSpec;
use vstd::std_specs::iter::IteratorSpec;

verus! {

/// Whether the numbers of `s` increase strictly from one to the next.
pub open spec fn increasing(s: Seq<u64>) -> bool {
    forall|i: int, j: int| 0 <= i < j < s.len() ==> (#[trigger] s[i]) < (#[trigger] s[j])
}

/// Whether `s` holds exactly the members of `d`.
pub open spec fn lists(s: Seq<u64>, d: Set<u64>) -> bool {
    forall|x: u64| #![trigger s.contains(x)] #![trigger d.contains(x)] s.contains(x) <==> d.contains(x)
}

/// The keys of a map in increasing order.
pub open spec fn key_order<V>(m: Map<u64, V>) -> Seq<u64> {
    choose|s: Seq<u64>| increasing(s) && lists(s, m.dom())
}

/// Two increasing sequences with the same members are the same sequence.
pub proof fn lemma_increasing_unique(a: Seq<u64>, b: Seq<u64>)
    requires
        increasing(a),
        increasing(b),
        forall|x: u64| #![trigger a.contains(x)] #![trigger b.contains(x)] a.contains(x) <==> b.contains(x),
    ensures
        a == b,
    decreases a.len(),
{
    if a.len() == 0 {
        if b.len() > 0 {
            assert(b.contains(b[0]));
        }
        assert(a =~= b);
    } else if b.len() == 0 {
        assert(a.contains(a[0]));
    } else {
        assert(a.contains(a[0]));
        assert(b.contains(b[0]));
        let j = choose|j: int| 0 <= j < b.len() && b[j] == a[0];
        let i = choose|i: int| 0 <= i < a.len() && a[i] == b[0];
        if j > 0 {
            assert(b[0] < b[j]);
        }
        if i > 0 {
            assert(a[0] < a[i]);
        }
        assert(a[0] == b[0]);
        let ta = a.drop_first();
        let tb = b.drop_first();
        assert forall|x: u64| #![trigger ta.contains(x)] #![trigger tb.contains(x)] ta.contains(x) <==> tb.contains(x) by {
            if ta.contains(x) {
                let k = choose|k: int| 0 <= k < ta.len() && ta[k] == x;
                assert(a[k + 1] == x);
                assert(a[0] < a[k + 1]);
                assert(a.contains(x));
                let m = choose|m: int| 0 <= m < b.len() && b[m] == x;
                assert(m != 0);
                assert(tb[m - 1] == x);
            }
            if tb.contains(x) {
                let k = choose|k: int| 0 <= k < tb.len() && tb[k] == x;
                assert(b[k + 1] == x);
                assert(b[0] < b[k + 1]);
                assert(b.contains(x));
                let m = choose|m: int| 0 <= m < a.len() && a[m] == x;
                assert(m != 0);
                assert(ta[m - 1] == x);
            }
        }
        assert(increasing(ta)) by {
            assert forall|p: int, q: int| 0 <= p < q < ta.len() implies (#[trigger] ta[p]) < (#[trigger] ta[q]) by {
                assert(a[p + 1] < a[q + 1]);
            }
        }
        assert(increasing(tb)) by {
            assert forall|p: int, q: int| 0 <= p < q < tb.len() implies (#[trigger] tb[p]) < (#[trigger] tb[q]) by {
                assert(b[p + 1] < b[q + 1]);
            }
        }
        lemma_increasing_unique(ta, tb);
        assert(a =~= seq![a[0]] + ta);
        assert(b =~= seq![b[0]] + tb);
    }
}

/// The order the map's own key iteration gives is increasing and lists
/// the keys.
proof fn lemma_iteration_order<V>(m: BTreeMap<u64, V>)
    ensures
        increasing(spec_keys_iter(&m).remaining().map_values(|k: &u64| *k)),
        lists(spec_keys_iter(&m).remaining().map_values(|k: &u64| *k), m@.dom()),
        spec_keys_iter(&m).remaining().len() == m@.dom().len(),
{
    let r = spec_keys_iter(&m).remaining();
    let s = r.map_values(|k: &u64| *k);
    assert(vstd::laws_cmp::obeys_cmp::<&u64>());
    assert(increasing_seq(r));
    axiom_increasing_seq_meaning::<&u64>(r);
    assert(r.unref().to_set() == m@.dom());
    assert forall|i: int, j: int| 0 <= i < j < s.len() implies (#[trigger] s[i]) < (#[trigger] s[j]) by {
        assert((&r[i]).cmp_spec(&&r[j]) is Less);
    }
    assert forall|x: u64| #[trigger] s.contains(x) <==> m@.dom().contains(x) by {
        if s.contains(x) {
            let i = choose|i: int| 0 <= i < s.len() && s[i] == x;
            assert(r.unref().to_set().contains(r.unref()[i]));
        }
        if m@.dom().contains(x) {
            assert(r.unref().to_set().contains(x));
            let i = choose|i: int| 0 <= i < r.unref().len() && r.unref()[i] == x;
            assert(s[i] == x);
        }
    }
}

/// The key order of a map is increasing, lists its keys once each, and
/// is the order the map's key iteration gives.
pub proof fn lemma_key_order<V>(m: BTreeMap<u64, V>)
    ensures
        increasing(key_order(m@)),
        lists(key_order(m@), m@.dom()),
        key_order(m@).len() == m@.dom().len(),
        key_order(m@) == spec_keys_iter(&m).remaining().map_values(|k: &u64| *k),
        forall|i: int| 0 <= i < key_order(m@).len() ==> m@.contains_key(#[trigger] key_order(m@)[i]),
        forall|k: u64| #[trigger]
            m@.contains_key(k) ==> exists|i: int| 0 <= i < key_order(m@).len() && key_order(m@)[i] == k,
{
    lemma_iteration_order(m);
    let s = spec_keys_iter(&m).remaining().map_values(|k: &u64| *k);
    let o = key_order(m@);
    assert(increasing(o) && lists(o, m@.dom()));
    lemma_increasing_unique(o, s);
    assert forall|i: int| 0 <= i < o.len() implies m@.contains_key(#[trigger] o[i]) by {
        assert(o.contains(o[i]));
    }
    assert forall|k: u64| #[trigger] m@.contains_key(k) implies exists|i: int| 0 <= i < o.len() && o[i] == k by {
        assert(o.contains(k));
    }
}

/// The keys of a map, in increasing order.
pub fn keys_in_order<V>(m: &BTreeMap<u64, V>) -> (r: Vec<u64>)
    ensures
        r@ == key_order(m@),
{
    proof {
        lemma_key_order(*m);
    }
    let mut out: Vec<u64> = Vec::new();
    for k in it: m.keys()
        invariant
            out@ == it.seq().take(it.index()).map_values(|k: &u64| *k),
    {
        out.push(*k);
        proof {
            assert(out@ =~= it.seq().take(it.index() + 1).map_values(|k: &u64| *k));
        }
    }
    proof {
        assert(out@ =~= spec_keys_iter(m).remaining().map_values(|k: &u64| *k));
    }
    out
}

/// The smallest key of a map, if it has any.
pub fn lowest_key<V>(m: &BTreeMap<u64, V>) -> (r: Option<u64>)
    ensures
        match r {
            Some(k) => m@.contains_key(k) && forall|x: u64| #[trigger] m@.contains_key(x) ==> k <= x,
            None => m@ == Map::<u64, V>::empty(),
        },
{
    proof {
        lemma_key_order(*m);
    }
    let ghost o = key_order(m@);
    let mut first: Option<u64> = None;
    for k in it: m.keys()
        invariant
            o == spec_keys_iter(m).remaining().map_values(|k: &u64| *k),
            it.index() == 0 ==> first is None,
            it.index() > 0 ==> first == Some(*it.seq()[0]),
    {
        if first.is_none() {
            first = Some(*k);
        }
    }
    proof {
        if o.len() > 0 {
            assert(first == Some(o[0]));
            assert forall|x: u64| #[trigger] m@.contains_key(x) implies o[0] <= x by {
                let i = choose|i: int| 0 <= i < o.len() && o[i] == x;
                if i > 0 {
                    assert(o[0] < o[i]);
                }
            }
        } else {
            assert(m@ =~= Map::<u64, V>::empty()) by {
                assert forall|x: u64| !m@.contains_key(x) by {
                    if m@.contains_key(x) {
                        let i = choose|i: int| 0 <= i < o.len() && o[i] == x;
                    }
                }
            }
        }
    }
    first
}

} // verus!
