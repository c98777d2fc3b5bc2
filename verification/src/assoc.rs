//! Association lists keyed by strings, viewed as maps.

use vstd::prelude::*;

verus! {

/// The map an association list stands for (a later entry wins for a repeated key).
pub open spec fn assoc_map<V: DeepView>(s: Seq<(String, V)>) -> Map<Seq<char>, V::V>
    decreases s.len(),
{
    if s.len() == 0 {
        Map::empty()
    } else {
        assoc_map(s.drop_last()).insert(s.last().0@, s.last().1.deep_view())
    }
}

/// No key occurs twice.
pub open spec fn keys_distinct<V>(s: Seq<(String, V)>) -> bool {
    forall|i: int, j: int| 0 <= i < s.len() && 0 <= j < s.len() && i != j ==> (#[trigger] s[i]).0@ != (#[trigger] s[j]).0@
}

/// Lookups in the map of a list with distinct keys.
pub proof fn lemma_assoc_map<V: DeepView>(s: Seq<(String, V)>)
    requires
        keys_distinct(s),
    ensures
        assoc_map(s).dom().finite(),
        assoc_map(s).len() == s.len(),
        forall|k: Seq<char>| #[trigger] assoc_map(s).dom().contains(k) <==> exists|i: int| 0 <= i < s.len() && s[i].0@ == k,
        forall|i: int| 0 <= i < s.len() ==> #[trigger] assoc_map(s)[s[i].0@] == s[i].1.deep_view(),
    decreases s.len(),
{
    if s.len() > 0 {
        let t = s.drop_last();
        assert(keys_distinct(t)) by {
            assert forall|i: int, j: int| 0 <= i < t.len() && 0 <= j < t.len() && i != j implies (#[trigger] t[i]).0@ != (#[trigger] t[j]).0@ by {
                assert(t[i] == s[i] && t[j] == s[j]);
            }
        }
        lemma_assoc_map(t);
        let last = s.last();
        assert(!assoc_map(t).dom().contains(last.0@)) by {
            if assoc_map(t).dom().contains(last.0@) {
                let i = choose|i: int| 0 <= i < t.len() && t[i].0@ == last.0@;
                assert(s[i] == t[i]);
                assert(s[s.len() - 1] == last);
            }
        }
        assert forall|k: Seq<char>| #[trigger] assoc_map(s).dom().contains(k) <==> exists|i: int| 0 <= i < s.len() && s[i].0@ == k by {
            if assoc_map(s).dom().contains(k) && k != last.0@ {
                let i = choose|i: int| 0 <= i < t.len() && t[i].0@ == k;
                assert(s[i] == t[i]);
            }
            if exists|i: int| 0 <= i < s.len() && s[i].0@ == k {
                let i = choose|i: int| 0 <= i < s.len() && s[i].0@ == k;
                if i < s.len() - 1 {
                    assert(t[i] == s[i]);
                }
            }
        }
        assert forall|i: int| 0 <= i < s.len() implies #[trigger] assoc_map(s)[s[i].0@] == s[i].1.deep_view() by {
            if i < s.len() - 1 {
                assert(t[i] == s[i]);
                assert(s[i].0@ != s[s.len() - 1].0@);
            }
        }
    }
}

/// Replacing the value of entry `i` (keeping its key) updates the map at that key.
pub proof fn lemma_assoc_update<V: DeepView>(s: Seq<(String, V)>, i: int, e: (String, V))
    requires
        keys_distinct(s),
        0 <= i < s.len(),
        e.0@ == s[i].0@,
    ensures
        keys_distinct(s.update(i, e)),
        assoc_map(s.update(i, e)) == assoc_map(s).insert(e.0@, e.1.deep_view()),
{
    let u = s.update(i, e);
    assert(keys_distinct(u)) by {
        assert forall|a: int, b: int| 0 <= a < u.len() && 0 <= b < u.len() && a != b implies (#[trigger] u[a]).0@ != (#[trigger] u[b]).0@ by {
            assert(u[a].0@ == s[a].0@);
            assert(u[b].0@ == s[b].0@);
        }
    }
    lemma_assoc_map(s);
    lemma_assoc_map(u);
    let m = assoc_map(s).insert(e.0@, e.1.deep_view());
    assert forall|k: Seq<char>| #[trigger] assoc_map(u).dom().contains(k) <==> m.dom().contains(k) by {
        if assoc_map(u).dom().contains(k) {
            let j = choose|j: int| 0 <= j < u.len() && u[j].0@ == k;
            assert(u[j].0@ == s[j].0@);
        }
        if m.dom().contains(k) && k != e.0@ {
            let j = choose|j: int| 0 <= j < s.len() && s[j].0@ == k;
            assert(u[j].0@ == s[j].0@);
        }
        if k == e.0@ {
            assert(u[i].0@ == k);
        }
    }
    assert forall|k: Seq<char>| #[trigger] assoc_map(u).dom().contains(k) implies assoc_map(u)[k] == m[k] by {
        let j = choose|j: int| 0 <= j < u.len() && u[j].0@ == k;
        if j == i {
            assert(assoc_map(u)[u[j].0@] == u[j].1.deep_view());
        } else {
            assert(u[j] == s[j]);
            assert(assoc_map(u)[u[j].0@] == u[j].1.deep_view());
            assert(assoc_map(s)[s[j].0@] == s[j].1.deep_view());
        }
    }
    assert(assoc_map(u) =~= m);
}

/// Appending an entry with a new key adds that key to the map.
pub proof fn lemma_assoc_push<V: DeepView>(s: Seq<(String, V)>, e: (String, V))
    requires
        keys_distinct(s),
        !assoc_map(s).dom().contains(e.0@),
    ensures
        keys_distinct(s.push(e)),
        assoc_map(s.push(e)) == assoc_map(s).insert(e.0@, e.1.deep_view()),
{
    lemma_assoc_map(s);
    let u = s.push(e);
    assert(u.drop_last() =~= s);
    assert forall|a: int, b: int| 0 <= a < u.len() && 0 <= b < u.len() && a != b implies (#[trigger] u[a]).0@ != (#[trigger] u[b]).0@ by {
        if a < s.len() && b < s.len() {
            assert(u[a] == s[a] && u[b] == s[b]);
        } else if a < s.len() {
            assert(u[a] == s[a]);
        } else if b < s.len() {
            assert(u[b] == s[b]);
        }
    }
}

/// Removing entry `i` removes its key from the map.
pub proof fn lemma_assoc_remove<V: DeepView>(s: Seq<(String, V)>, i: int)
    requires
        keys_distinct(s),
        0 <= i < s.len(),
    ensures
        keys_distinct(s.remove(i)),
        assoc_map(s.remove(i)) == assoc_map(s).remove(s[i].0@),
{
    let u = s.remove(i);
    assert(keys_distinct(u)) by {
        assert forall|a: int, b: int| 0 <= a < u.len() && 0 <= b < u.len() && a != b implies (#[trigger] u[a]).0@ != (#[trigger] u[b]).0@ by {
            let a2 = if a < i { a } else { a + 1 };
            let b2 = if b < i { b } else { b + 1 };
            assert(u[a] == s[a2] && u[b] == s[b2]);
        }
    }
    lemma_assoc_map(s);
    lemma_assoc_map(u);
    let m = assoc_map(s).remove(s[i].0@);
    assert forall|k: Seq<char>| #[trigger] assoc_map(u).dom().contains(k) <==> m.dom().contains(k) by {
        if assoc_map(u).dom().contains(k) {
            let j = choose|j: int| 0 <= j < u.len() && u[j].0@ == k;
            let j2 = if j < i { j } else { j + 1 };
            assert(u[j] == s[j2]);
        }
        if m.dom().contains(k) {
            let j = choose|j: int| 0 <= j < s.len() && s[j].0@ == k;
            assert(j != i);
            let j2 = if j < i { j } else { j - 1 };
            assert(u[j2] == s[j]);
        }
    }
    assert forall|k: Seq<char>| #[trigger] assoc_map(u).dom().contains(k) implies assoc_map(u)[k] == m[k] by {
        let j = choose|j: int| 0 <= j < u.len() && u[j].0@ == k;
        let j2 = if j < i { j } else { j + 1 };
        assert(u[j] == s[j2]);
        assert(assoc_map(u)[u[j].0@] == u[j].1.deep_view());
        assert(assoc_map(s)[s[j2].0@] == s[j2].1.deep_view());
    }
    assert(assoc_map(u) =~= m);
}

/// Index of the entry with key `key`, if any.
pub fn find_key<V: DeepView>(s: &Vec<(String, V)>, key: &String) -> (r: Option<usize>)
    requires
        keys_distinct(s@),
    ensures
        match r {
            Some(i) => i < s@.len() && s@[i as int].0@ == key@,
            None => !assoc_map(s@).dom().contains(key@),
        },
{
    let n = s.len();
    let mut i: usize = 0;
    while i < n
        invariant
            n == s@.len(),
            i <= n,
            forall|j: int| 0 <= j < i ==> s@[j].0@ != key@,
        decreases n - i,
    {
        if s[i].0 == *key {
            return Some(i);
        }
        i += 1;
    }
    proof {
        lemma_assoc_map(s@);
    }
    None
}

} // verus!
