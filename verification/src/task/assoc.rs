//! Lists of keyed entries read as maps.
use vstd::prelude::*;

verus! {

/// No key occurs twice in `s`.
pub open spec fn keys_distinct<V>(s: Seq<(isize, V)>) -> bool {
    forall|i: int, j: int| 0 <= i < j < s.len() ==> (#[trigger] s[i]).0 != (#[trigger] s[j]).0
}

/// Some entry of `s` has key `k`.
pub open spec fn has_key<V>(s: Seq<(isize, V)>, k: isize) -> bool {
    exists|i: int| 0 <= i < s.len() && (#[trigger] s[i]).0 == k
}

/// The map that sends each key of `s` to the value that stands beside it.
pub open spec fn assoc<V>(s: Seq<(isize, V)>) -> Map<isize, V> {
    Map::new(
        |k: isize| has_key(s, k),
        |k: isize| s[choose|i: int| 0 <= i < s.len() && (#[trigger] s[i]).0 == k].1,
    )
}

/// Looking up the key of an entry gives the value of that entry.
pub proof fn lemma_assoc_at<V>(s: Seq<(isize, V)>, i: int)
    requires
        keys_distinct(s),
        0 <= i < s.len(),
    ensures
        assoc(s).contains_key(s[i].0),
        assoc(s)[s[i].0] == s[i].1,
{
    let k = s[i].0;
    assert(has_key(s, k));
    let j = choose|j: int| 0 <= j < s.len() && (#[trigger] s[j]).0 == k;
    assert(0 <= j < s.len() && s[j].0 == k);
    assert(j == i);
}

/// Appending an entry with a new key adds it to the map.
pub proof fn lemma_assoc_push<V>(s: Seq<(isize, V)>, e: (isize, V))
    requires
        keys_distinct(s),
        !has_key(s, e.0),
    ensures
        keys_distinct(s.push(e)),
        assoc(s.push(e)) == assoc(s).insert(e.0, e.1),
{
    let t = s.push(e);
    let want = assoc(s).insert(e.0, e.1);
    assert forall|k: isize| assoc(t).contains_key(k) == want.contains_key(k) by {
        if assoc(t).contains_key(k) {
            let i = choose|i: int| 0 <= i < t.len() && (#[trigger] t[i]).0 == k;
            if i < s.len() {
                assert(s[i].0 == k);
            }
        }
        if has_key(s, k) {
            let i = choose|i: int| 0 <= i < s.len() && (#[trigger] s[i]).0 == k;
            assert(t[i].0 == k);
        }
        assert(t[s.len() as int].0 == e.0);
    }
    assert forall|k: isize| assoc(t).contains_key(k) implies assoc(t)[k] == want[k] by {
        let i = choose|i: int| 0 <= i < t.len() && (#[trigger] t[i]).0 == k;
        lemma_assoc_at(t, i);
        if i < s.len() {
            assert(s[i] == t[i]);
            lemma_assoc_at(s, i);
        }
    }
    assert(assoc(t) =~= want);
}

/// Giving an entry another value changes the map at its key alone.
pub proof fn lemma_assoc_update<V>(s: Seq<(isize, V)>, i: int, v: V)
    requires
        keys_distinct(s),
        0 <= i < s.len(),
    ensures
        keys_distinct(s.update(i, (s[i].0, v))),
        assoc(s.update(i, (s[i].0, v))) == assoc(s).insert(s[i].0, v),
{
    let t = s.update(i, (s[i].0, v));
    let want = assoc(s).insert(s[i].0, v);
    assert forall|a: int, b: int| 0 <= a < b < t.len() implies (#[trigger] t[a]).0 != (
    #[trigger] t[b]).0 by {
        assert(t[a].0 == s[a].0 && t[b].0 == s[b].0);
    }
    assert forall|k: isize| assoc(t).contains_key(k) == want.contains_key(k) by {
        if assoc(t).contains_key(k) {
            let j = choose|j: int| 0 <= j < t.len() && (#[trigger] t[j]).0 == k;
            assert(s[j].0 == k);
        }
        if has_key(s, k) {
            let j = choose|j: int| 0 <= j < s.len() && (#[trigger] s[j]).0 == k;
            assert(t[j].0 == k);
        }
    }
    assert forall|k: isize| assoc(t).contains_key(k) implies assoc(t)[k] == want[k] by {
        let j = choose|j: int| 0 <= j < t.len() && (#[trigger] t[j]).0 == k;
        lemma_assoc_at(t, j);
        assert(s[j].0 == k);
        lemma_assoc_at(s, j);
    }
    assert(assoc(t) =~= want);
}

} // verus!
