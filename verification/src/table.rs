//! An association list keyed by labels, in which no label occurs twice.

use crate::label::Label;
use vstd::prelude::*;

verus! {

/// No two entries of `s` carry the same label.
pub open spec fn distinct_labels<V>(s: Seq<(Label, V)>) -> bool {
    forall|i: int, j: int|
        0 <= i < s.len() && 0 <= j < s.len() && i != j ==> #[trigger] s[i].0@ != #[trigger] s[j].0@
}

/// Some entry of `s` carries the label bytes `k`.
pub open spec fn holds_key<V>(s: Seq<(Label, V)>, k: Seq<u8>) -> bool {
    exists|i: int| 0 <= i < s.len() && #[trigger] s[i].0@ == k
}

/// The position of an entry of `s` that carries the label bytes `k`.
pub open spec fn key_index<V>(s: Seq<(Label, V)>, k: Seq<u8>) -> int {
    choose|i: int| 0 <= i < s.len() && #[trigger] s[i].0@ == k
}

/// The map from label bytes to values that the entries `s` describe.
pub open spec fn entries_map<V>(s: Seq<(Label, V)>) -> Map<Seq<u8>, V> {
    Map::new(|k: Seq<u8>| holds_key(s, k), |k: Seq<u8>| s[key_index(s, k)].1)
}

/// In a list without repeated labels, the entry at `i` is the one its label finds.
pub proof fn lemma_key_index_unique<V>(s: Seq<(Label, V)>, i: int)
    requires
        distinct_labels(s),
        0 <= i < s.len(),
    ensures
        holds_key(s, s[i].0@),
        key_index(s, s[i].0@) == i,
        entries_map(s).contains_key(s[i].0@),
        entries_map(s)[s[i].0@] == s[i].1,
{
    let k = s[i].0@;
    assert(holds_key(s, k));
    let j: int = key_index(s, k);
    assert(s[j].0@ == k);
}

/// Appending an entry with a new label adds exactly that label to the map.
pub proof fn lemma_push<V>(s: Seq<(Label, V)>, l: Label, v: V)
    requires
        distinct_labels(s),
        !holds_key(s, l@),
    ensures
        distinct_labels(s.push((l, v))),
        entries_map(s.push((l, v))) == entries_map(s).insert(l@, v),
{
    let t = s.push((l, v));
    assert forall|i: int, j: int|
        0 <= i < t.len() && 0 <= j < t.len() && i != j implies #[trigger] t[i].0@ != #[trigger] t[j].0@ by {
        if i < s.len() && j < s.len() {
            assert(t[i] == s[i] && t[j] == s[j]);
        } else if i < s.len() {
            assert(t[i] == s[i]);
        } else {
            assert(t[j] == s[j]);
        }
    }
    let m = entries_map(s).insert(l@, v);
    assert forall|k: Seq<u8>| #[trigger] holds_key(t, k) <==> m.contains_key(k) by {
        if holds_key(t, k) {
            let i: int = choose|i: int| 0 <= i < t.len() && #[trigger] t[i].0@ == k;
            if i < s.len() {
                assert(s[i].0@ == k);
            }
        }
        if holds_key(s, k) {
            let i: int = choose|i: int| 0 <= i < s.len() && #[trigger] s[i].0@ == k;
            assert(t[i] == s[i]);
        }
        if k == l@ {
            assert(t[s.len() as int].0@ == k);
        }
    }
    assert forall|k: Seq<u8>| #[trigger] holds_key(t, k) implies entries_map(t)[k] == m[k] by {
        let i: int = key_index(t, k);
        lemma_key_index_unique(t, i);
        if i < s.len() {
            assert(t[i] == s[i]);
            lemma_key_index_unique(s, i);
        }
    }
    assert(entries_map(t) =~= m);
}

/// Replacing the value at `i` changes only the value of that entry's label.
pub proof fn lemma_update<V>(s: Seq<(Label, V)>, i: int, v: V)
    requires
        distinct_labels(s),
        0 <= i < s.len(),
    ensures
        distinct_labels(s.update(i, (s[i].0, v))),
        entries_map(s.update(i, (s[i].0, v))) == entries_map(s).insert(s[i].0@, v),
{
    let t = s.update(i, (s[i].0, v));
    assert forall|a: int, b: int|
        0 <= a < t.len() && 0 <= b < t.len() && a != b implies #[trigger] t[a].0@ != #[trigger] t[b].0@ by {
        assert(t[a].0 == s[a].0 && t[b].0 == s[b].0);
    }
    let m = entries_map(s).insert(s[i].0@, v);
    assert forall|k: Seq<u8>| #[trigger] holds_key(t, k) <==> m.contains_key(k) by {
        if holds_key(t, k) {
            let a: int = choose|a: int| 0 <= a < t.len() && #[trigger] t[a].0@ == k;
            assert(s[a].0@ == k);
        }
        if holds_key(s, k) {
            let a: int = choose|a: int| 0 <= a < s.len() && #[trigger] s[a].0@ == k;
            assert(t[a].0@ == k);
        }
        lemma_key_index_unique(s, i);
    }
    assert forall|k: Seq<u8>| #[trigger] holds_key(t, k) implies entries_map(t)[k] == m[k] by {
        let a: int = key_index(t, k);
        lemma_key_index_unique(t, a);
        assert(s[a].0 == t[a].0);
        lemma_key_index_unique(s, a);
    }
    assert(entries_map(t) =~= m);
}

/// Taking out the entry at `i` removes exactly that entry's label from the map.
pub proof fn lemma_remove<V>(s: Seq<(Label, V)>, i: int)
    requires
        distinct_labels(s),
        0 <= i < s.len(),
    ensures
        distinct_labels(s.remove(i)),
        entries_map(s.remove(i)) == entries_map(s).remove(s[i].0@),
{
    let t = s.remove(i);
    assert forall|a: int| 0 <= a < t.len() implies #[trigger] t[a] == (if a < i {
        s[a]
    } else {
        s[a + 1]
    }) by {}
    assert forall|a: int, b: int|
        0 <= a < t.len() && 0 <= b < t.len() && a != b implies #[trigger] t[a].0@ != #[trigger] t[b].0@ by {
        let sa: int = if a < i { a } else { a + 1 };
        let sb: int = if b < i { b } else { b + 1 };
        assert(t[a] == s[sa] && t[b] == s[sb]);
    }
    let m = entries_map(s).remove(s[i].0@);
    assert forall|k: Seq<u8>| #[trigger] holds_key(t, k) <==> m.contains_key(k) by {
        if holds_key(t, k) {
            let a: int = choose|a: int| 0 <= a < t.len() && #[trigger] t[a].0@ == k;
            let sa: int = if a < i { a } else { a + 1 };
            assert(t[a] == s[sa]);
            assert(s[sa].0@ == k);
        }
        if holds_key(s, k) && k != s[i].0@ {
            let a: int = choose|a: int| 0 <= a < s.len() && #[trigger] s[a].0@ == k;
            if a < i {
                assert(t[a] == s[a]);
            } else {
                assert(a != i);
                assert(t[a - 1] == s[a]);
            }
        }
    }
    assert forall|k: Seq<u8>| #[trigger] holds_key(t, k) implies entries_map(t)[k] == m[k] by {
        let a: int = key_index(t, k);
        lemma_key_index_unique(t, a);
        let sa: int = if a < i { a } else { a + 1 };
        assert(t[a] == s[sa]);
        lemma_key_index_unique(s, sa);
    }
    assert(entries_map(t) =~= m);
}

/// Position of the entry whose label equals `label`, if any.
pub fn find_label<V>(entries: &Vec<(Label, V)>, label: &Label) -> (r: Option<usize>)
    requires
        distinct_labels(entries@),
    ensures
        r is None <==> !holds_key(entries@, label@),
        r matches Some(i) ==> i < entries@.len() && entries@[i as int].0@ == label@
            && key_index(entries@, label@) == i,
{
    let mut i: usize = 0;
    while i < entries.len()
        invariant
            i <= entries@.len(),
            distinct_labels(entries@),
            forall|j: int| 0 <= j < i ==> #[trigger] entries@[j].0@ != label@,
        decreases entries@.len() - i,
    {
        if entries[i].0 == *label {
            proof {
                lemma_key_index_unique(entries@, i as int);
            }
            return Some(i);
        }
        i = i + 1;
    }
    None
}

} // verus!
