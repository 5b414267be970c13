//! What reads of a field collection give back after each kind of write.
use vstd::prelude::*;

use crate::fields::collection::{
    has_name, lemma_lookup_without, lemma_position_unique, lemma_without_names_members, lookup, names_unique, spec_position,
    without_names, FieldName,
};

verus! {

/// After a key whose name is new has been inserted, looking that name up
/// gives the inserted value, every other name gives what it gave before,
/// and names stay unique.
pub proof fn law_lookup_after_insert<K: FieldName, V>(s: Seq<(K, V)>, key: K, value: V)
    requires
        names_unique(s),
        !has_name(s, key.spec_name()),
    ensures
        names_unique(s.push((key, value))),
        lookup(s.push((key, value)), key.spec_name()) == Some(value),
        forall|n: Seq<char>| n != key.spec_name() ==> #[trigger] lookup(s.push((key, value)), n) == lookup(s, n),
{
    let t = s.push((key, value));
    assert forall|i: int, j: int|
        0 <= i < t.len() && 0 <= j < t.len() && i != j implies #[trigger] t[i].0.spec_name()
            != #[trigger] t[j].0.spec_name() by {
        if i < s.len() && j < s.len() {
            assert(t[i] == s[i] && t[j] == s[j]);
        } else if i < s.len() {
            assert(t[i] == s[i]);
        } else {
            assert(t[j] == s[j]);
        }
    }
    lemma_position_unique(t, key.spec_name(), s.len() as int);
    assert forall|n: Seq<char>| n != key.spec_name() implies #[trigger] lookup(t, n) == lookup(s, n) by {
        if has_name(s, n) {
            let i = choose|i: int| 0 <= i < s.len() && #[trigger] s[i].0.spec_name() == n;
            lemma_position_unique(s, n, i);
            assert(t[i] == s[i]);
            lemma_position_unique(t, n, i);
        } else {
            assert(!has_name(t, n)) by {
                if has_name(t, n) {
                    let i = choose|i: int| 0 <= i < t.len() && #[trigger] t[i].0.spec_name() == n;
                    assert(i < s.len());
                    assert(t[i] == s[i]);
                }
            }
        }
    }
}

/// Replacing the value stored under `name` (what `replace` and `upsert` do
/// with a present name) keeps every name at its position: looking `name` up
/// gives the new value, every other name gives what it gave before.
pub proof fn law_lookup_after_replace<K: FieldName, V>(s: Seq<(K, V)>, name: Seq<char>, value: V)
    requires
        names_unique(s),
        has_name(s, name),
    ensures
        ({
            let i = spec_position(s, name)->Some_0;
            let t = s.update(i, (s[i].0, value));
            &&& names_unique(t)
            &&& forall|m: Seq<char>| #[trigger] spec_position(t, m) == spec_position(s, m)
            &&& lookup(t, name) == Some(value)
            &&& forall|m: Seq<char>| m != name ==> #[trigger] lookup(t, m) == lookup(s, m)
        }),
{
    let i = spec_position(s, name)->Some_0;
    let t = s.update(i, (s[i].0, value));
    assert forall|a: int| 0 <= a < t.len() implies #[trigger] t[a].0.spec_name() == s[a].0.spec_name() by {}
    assert forall|a: int, b: int|
        0 <= a < t.len() && 0 <= b < t.len() && a != b implies #[trigger] t[a].0.spec_name()
            != #[trigger] t[b].0.spec_name() by {
        assert(t[a].0 == s[a].0 && t[b].0 == s[b].0);
    }
    assert forall|m: Seq<char>| #[trigger] spec_position(t, m) == spec_position(s, m) by {
        if has_name(s, m) {
            let j = choose|j: int| 0 <= j < s.len() && #[trigger] s[j].0.spec_name() == m;
            lemma_position_unique(s, m, j);
            assert(t[j].0 == s[j].0);
            lemma_position_unique(t, m, j);
        } else {
            assert(!has_name(t, m)) by {
                if has_name(t, m) {
                    let j = choose|j: int| 0 <= j < t.len() && #[trigger] t[j].0.spec_name() == m;
                    assert(t[j].0 == s[j].0);
                }
            }
        }
    }
    assert(lookup(t, name) == Some(value));
    assert forall|m: Seq<char>| m != name implies #[trigger] lookup(t, m) == lookup(s, m) by {
        if has_name(s, m) {
            let j = choose|j: int| 0 <= j < s.len() && #[trigger] s[j].0.spec_name() == m;
            lemma_position_unique(s, m, j);
            assert(j != i);
        }
    }
}

/// After the key named `name` has been removed, `name` is absent, every
/// other name gives what it gave before, and names stay unique.
pub proof fn law_lookup_after_remove<K: FieldName, V>(s: Seq<(K, V)>, name: Seq<char>)
    requires
        names_unique(s),
        has_name(s, name),
    ensures
        ({
            let t = s.remove(spec_position(s, name)->Some_0);
            &&& names_unique(t)
            &&& !has_name(t, name)
            &&& forall|m: Seq<char>| m != name ==> #[trigger] lookup(t, m) == lookup(s, m)
        }),
{
    let i = spec_position(s, name)->Some_0;
    let t = s.remove(i);
    assert forall|a: int| 0 <= a < t.len() implies #[trigger] t[a] == s[if a < i { a } else { a + 1 }] by {}
    assert forall|a: int, b: int|
        0 <= a < t.len() && 0 <= b < t.len() && a != b implies #[trigger] t[a].0.spec_name()
            != #[trigger] t[b].0.spec_name() by {
        let oa = if a < i { a } else { a + 1 };
        let ob = if b < i { b } else { b + 1 };
        assert(t[a] == s[oa] && t[b] == s[ob]);
    }
    assert(!has_name(t, name)) by {
        if has_name(t, name) {
            let a = choose|a: int| 0 <= a < t.len() && #[trigger] t[a].0.spec_name() == name;
            let oa = if a < i { a } else { a + 1 };
            assert(t[a] == s[oa]);
            assert(s[i].0.spec_name() == name);
        }
    }
    assert forall|m: Seq<char>| m != name implies #[trigger] lookup(t, m) == lookup(s, m) by {
        if has_name(s, m) {
            let j = choose|j: int| 0 <= j < s.len() && #[trigger] s[j].0.spec_name() == m;
            lemma_position_unique(s, m, j);
            assert(j != i);
            let k = if j < i { j } else { j - 1 };
            assert(t[k] == s[j]);
            lemma_position_unique(t, m, k);
        } else {
            assert(!has_name(t, m)) by {
                if has_name(t, m) {
                    let a = choose|a: int| 0 <= a < t.len() && #[trigger] t[a].0.spec_name() == m;
                    let oa = if a < i { a } else { a + 1 };
                    assert(t[a] == s[oa]);
                }
            }
        }
    }
}

/// Removing several names at once (what `remove_many` does) leaves none of
/// them behind and keeps what every other name gives.
pub proof fn law_lookup_after_remove_many<K: FieldName, V>(s: Seq<(K, V)>, names: Seq<Seq<char>>)
    requires
        names_unique(s),
    ensures
        forall|n: Seq<char>| names.contains(n) ==> !has_name(#[trigger] without_names(s, names), n),
        forall|n: Seq<char>| !names.contains(n) ==> #[trigger] lookup(without_names(s, names), n) == lookup(s, n),
{
    let t = without_names(s, names);
    lemma_without_names_members(s, names);
    assert forall|n: Seq<char>| names.contains(n) implies !has_name(#[trigger] without_names(s, names), n) by {
        if has_name(t, n) {
            let k = choose|k: int| 0 <= k < t.len() && #[trigger] t[k].0.spec_name() == n;
            assert(!names.contains(t[k].0.spec_name()));
        }
    }
    assert forall|n: Seq<char>| !names.contains(n) implies #[trigger] lookup(without_names(s, names), n) == lookup(s, n) by {
        lemma_lookup_without(s, names, n);
    }
}

} // verus!
