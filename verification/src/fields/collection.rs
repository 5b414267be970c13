//! An ordered collection of named fields whose names are unique.
use vstd::prelude::*;

use crate::text::str_eq;

verus! {

/// A value that carries a field name.
///
/// Keys stored in a [`FieldCollection`] and the names used to look them up
/// both implement this trait; two values denote the same field when their
/// names hold the same characters.
pub trait FieldName {
    /// The characters of the name.
    spec fn spec_name(&self) -> Seq<char>;

    /// The name as an owned string.
    fn name(&self) -> (r: String)
        ensures
            r@ == self.spec_name(),
    ;
}

impl<'a> FieldName for &'a str {
    open spec fn spec_name(&self) -> Seq<char> {
        (*self)@
    }

    fn name(&self) -> (r: String) {
        (*self).to_owned()
    }
}

/// A name paired with data that travels with it, such as where the name
/// was written; only the name takes part in lookups.
impl<'a, T> FieldName for (&'a str, T) {
    open spec fn spec_name(&self) -> Seq<char> {
        self.0@
    }

    fn name(&self) -> (r: String) {
        self.0.to_owned()
    }
}

impl FieldName for String {
    open spec fn spec_name(&self) -> Seq<char> {
        self@
    }

    fn name(&self) -> (r: String) {
        self.clone()
    }
}

/// Whether some pair in `pairs` has a key named `name`.
pub open spec fn has_name<K: FieldName, V>(pairs: Seq<(K, V)>, name: Seq<char>) -> bool {
    exists|i: int| 0 <= i < pairs.len() && #[trigger] pairs[i].0.spec_name() == name
}

/// No two pairs in `pairs` have keys with the same name.
pub open spec fn names_unique<K: FieldName, V>(pairs: Seq<(K, V)>) -> bool {
    forall|i: int, j: int|
        0 <= i < pairs.len() && 0 <= j < pairs.len() && i != j ==> #[trigger] pairs[i].0.spec_name()
            != #[trigger] pairs[j].0.spec_name()
}

/// The index of the pair whose key is named `name`, if there is one.
pub open spec fn spec_position<K: FieldName, V>(pairs: Seq<(K, V)>, name: Seq<char>) -> Option<
    int,
> {
    if has_name(pairs, name) {
        Some(choose|i: int| 0 <= i < pairs.len() && #[trigger] pairs[i].0.spec_name() == name)
    } else {
        None
    }
}

/// Owned collection of key-value pairs in insertion order.
///
/// Invariant (`wf`): all keys have unique names. Construction and every
/// operation that can add a key preserve it.
pub struct FieldCollection<K: FieldName, V> {
    pairs: Vec<(K, V)>,
}

impl<K: FieldName, V> View for FieldCollection<K, V> {
    type V = Seq<(K, V)>;

    closed spec fn view(&self) -> Seq<(K, V)> {
        self.pairs@
    }
}

/// Under unique names, the first index holding `name` is the chosen one.
pub proof fn lemma_position_unique<K: FieldName, V>(pairs: Seq<(K, V)>, name: Seq<char>, i: int)
    requires
        names_unique(pairs),
        0 <= i < pairs.len(),
        pairs[i].0.spec_name() == name,
    ensures
        spec_position(pairs, name) == Some(i),
{
    let j = choose|j: int| 0 <= j < pairs.len() && #[trigger] pairs[j].0.spec_name() == name;
    assert(pairs[j].0.spec_name() == name);
}

/// The name of each element of `ns`, in order.
pub open spec fn names_of<N: FieldName>(ns: Seq<N>) -> Seq<Seq<char>> {
    ns.map_values(|n: N| n.spec_name())
}

/// The value stored under `name`, if any.
pub open spec fn lookup<K: FieldName, V>(pairs: Seq<(K, V)>, name: Seq<char>) -> Option<V> {
    match spec_position(pairs, name) {
        Some(i) => Some(pairs[i].1),
        None => None,
    }
}

/// Some earlier pair has the same name as the pair at `j`.
pub open spec fn dup_at<K: FieldName, V>(pairs: Seq<(K, V)>, j: int) -> bool {
    exists|i: int| 0 <= i < j && #[trigger] pairs[i].0.spec_name() == pairs[j].0.spec_name()
}

/// `j` is the first position whose name already occurred earlier.
pub open spec fn is_first_dup<K: FieldName, V>(pairs: Seq<(K, V)>, j: int) -> bool {
    &&& 0 <= j < pairs.len()
    &&& dup_at(pairs, j)
    &&& forall|k: int| 0 <= k < j ==> !#[trigger] dup_at(pairs, k)
}

/// `j` is the first position of `batch` whose name is already in `existing`.
pub open spec fn is_first_clash<K: FieldName, V>(existing: Seq<(K, V)>, batch: Seq<(K, V)>, j: int) -> bool {
    &&& 0 <= j < batch.len()
    &&& has_name(existing, batch[j].0.spec_name())
    &&& forall|k: int| 0 <= k < j ==> !has_name(existing, #[trigger] batch[k].0.spec_name())
}

/// Some position of `batch` has a name already in `existing`.
pub open spec fn clashes<K: FieldName, V>(existing: Seq<(K, V)>, batch: Seq<(K, V)>) -> bool {
    exists|j: int| 0 <= j < batch.len() && has_name(existing, #[trigger] batch[j].0.spec_name())
}

/// A sequence without duplicate names has no first duplicate, and conversely.
pub proof fn lemma_unique_iff_no_dup<K: FieldName, V>(pairs: Seq<(K, V)>)
    ensures
        names_unique(pairs) <==> forall|j: int| 0 <= j < pairs.len() ==> !#[trigger] dup_at(pairs, j),
{
    if names_unique(pairs) {
        assert forall|j: int| 0 <= j < pairs.len() implies !#[trigger] dup_at(pairs, j) by {
            if dup_at(pairs, j) {
                let i = choose|i: int| 0 <= i < j && #[trigger] pairs[i].0.spec_name() == pairs[j].0.spec_name();
                assert(pairs[i].0.spec_name() != pairs[j].0.spec_name());
            }
        }
    }
    if forall|j: int| 0 <= j < pairs.len() ==> !#[trigger] dup_at(pairs, j) {
        assert forall|i: int, j: int|
            0 <= i < pairs.len() && 0 <= j < pairs.len() && i != j implies #[trigger] pairs[i].0.spec_name()
                != #[trigger] pairs[j].0.spec_name() by {
            if i < j {
                if pairs[i].0.spec_name() == pairs[j].0.spec_name() {
                    assert(dup_at(pairs, j));
                }
            } else {
                if pairs[i].0.spec_name() == pairs[j].0.spec_name() {
                    assert(dup_at(pairs, i));
                }
            }
        }
    }
}


/// Changing only the value at `i` keeps names and their uniqueness.
proof fn lemma_update_value_keeps_names<K: FieldName, V>(o: Seq<(K, V)>, i: int, s: Seq<(K, V)>)
    requires
        names_unique(o),
        0 <= i < o.len(),
        s.len() == o.len(),
        s[i].0 == o[i].0,
        forall|j: int| 0 <= j < o.len() && j != i ==> s[j] == o[j],
    ensures
        names_unique(s),
        s == o.update(i, (o[i].0, s[i].1)),
{
    assert forall|a: int, b: int|
        0 <= a < s.len() && 0 <= b < s.len() && a != b implies #[trigger] s[a].0.spec_name()
            != #[trigger] s[b].0.spec_name() by {
        assert(s[a].0 == o[a].0 && s[b].0 == o[b].0);
    }
    assert(s =~= o.update(i, (o[i].0, s[i].1)));
}

/// `pairs` without every pair whose name occurs in `ns`, order kept.
pub open spec fn without_names<K: FieldName, V>(pairs: Seq<(K, V)>, ns: Seq<Seq<char>>) -> Seq<(K, V)>
    decreases pairs.len(),
{
    if pairs.len() == 0 {
        pairs
    } else {
        let rest = without_names(pairs.drop_last(), ns);
        if ns.contains(pairs.last().0.spec_name()) {
            rest
        } else {
            rest.push(pairs.last())
        }
    }
}

/// Every pair kept by `without_names` comes from `pairs` and has a name
/// outside `ns`; every pair of `pairs` with a name outside `ns` is kept.
pub proof fn lemma_without_names_members<K: FieldName, V>(pairs: Seq<(K, V)>, ns: Seq<Seq<char>>)
    ensures
        forall|k: int| #![trigger without_names(pairs, ns)[k]] 0 <= k < without_names(pairs, ns).len() ==> {
            &&& !ns.contains(without_names(pairs, ns)[k].0.spec_name())
            &&& pairs.contains(without_names(pairs, ns)[k])
        },
        forall|j: int| 0 <= j < pairs.len() && !ns.contains(#[trigger] pairs[j].0.spec_name())
            ==> without_names(pairs, ns).contains(pairs[j]),
    decreases pairs.len(),
{
    if pairs.len() > 0 {
        let p = pairs.drop_last();
        lemma_without_names_members(p, ns);
        let c = without_names(pairs, ns);
        let cp = without_names(p, ns);
        assert forall|k: int| #![trigger c[k]] 0 <= k < c.len() implies {
            &&& !ns.contains(c[k].0.spec_name())
            &&& pairs.contains(c[k])
        } by {
            if k < cp.len() {
                assert(c[k] == cp[k]);
                let j = choose|j: int| 0 <= j < p.len() && p[j] == cp[k];
                assert(pairs[j] == p[j]);
            } else {
                assert(c[k] == pairs.last());
                assert(pairs[pairs.len() - 1] == pairs.last());
            }
        }
        assert forall|j: int| 0 <= j < pairs.len() && !ns.contains(#[trigger] pairs[j].0.spec_name())
            implies c.contains(pairs[j]) by {
            if j < pairs.len() - 1 {
                assert(p[j] == pairs[j]);
                assert(cp.contains(p[j]));
                let k = choose|k: int| 0 <= k < cp.len() && cp[k] == p[j];
                if !ns.contains(pairs.last().0.spec_name()) {
                    assert(c[k] == cp[k]);
                }
            } else {
                assert(c[c.len() - 1] == pairs[j]);
            }
        }
    }
}

/// Removing names keeps names unique.
proof fn lemma_without_names_unique<K: FieldName, V>(pairs: Seq<(K, V)>, ns: Seq<Seq<char>>)
    requires
        names_unique(pairs),
    ensures
        names_unique(without_names(pairs, ns)),
    decreases pairs.len(),
{
    if pairs.len() > 0 {
        let p = pairs.drop_last();
        assert(names_unique(p)) by {
            assert forall|a: int, b: int|
                0 <= a < p.len() && 0 <= b < p.len() && a != b implies #[trigger] p[a].0.spec_name()
                    != #[trigger] p[b].0.spec_name() by {
                assert(p[a] == pairs[a] && p[b] == pairs[b]);
            }
        }
        lemma_without_names_unique(p, ns);
        lemma_without_names_members(p, ns);
        let c = without_names(pairs, ns);
        let cp = without_names(p, ns);
        let x = pairs.last();
        if !ns.contains(x.0.spec_name()) {
            assert forall|a: int, b: int|
                0 <= a < c.len() && 0 <= b < c.len() && a != b implies #[trigger] c[a].0.spec_name()
                    != #[trigger] c[b].0.spec_name() by {
                if a < cp.len() && b < cp.len() {
                    assert(c[a] == cp[a] && c[b] == cp[b]);
                } else {
                    let other = if a < cp.len() { a } else { b };
                    assert(c[other] == cp[other]);
                    assert(p.contains(cp[other]));
                    let j = choose|j: int| 0 <= j < p.len() && p[j] == cp[other];
                    assert(pairs[j] == p[j]);
                    assert(pairs[pairs.len() - 1] == x);
                }
            }
        }
    }
}

/// Removing the pair named `n` from `without_names(pairs, ns)` is the same
/// as removing the names `ns` followed by `n`.
proof fn lemma_without_names_step<K: FieldName, V>(pairs: Seq<(K, V)>, ns: Seq<Seq<char>>, n: Seq<char>)
    requires
        names_unique(pairs),
    ensures
        match spec_position(without_names(pairs, ns), n) {
            Some(k) => without_names(pairs, ns).remove(k) == without_names(pairs, ns.push(n)),
            None => without_names(pairs, ns) == without_names(pairs, ns.push(n)),
        },
    decreases pairs.len(),
{
    let ns2 = ns.push(n);
    assert forall|m: Seq<char>| ns2.contains(m) <==> (ns.contains(m) || m == n) by {
        if ns2.contains(m) {
            let i = choose|i: int| 0 <= i < ns2.len() && ns2[i] == m;
            if i < ns.len() {
                assert(ns[i] == m);
            }
        }
        if ns.contains(m) {
            let i = choose|i: int| 0 <= i < ns.len() && ns[i] == m;
            assert(ns2[i] == m);
        }
        if m == n {
            assert(ns2[ns.len() as int] == m);
        }
    }
    if pairs.len() > 0 {
        let p = pairs.drop_last();
        let x = pairs.last();
        assert(names_unique(p)) by {
            assert forall|a: int, b: int|
                0 <= a < p.len() && 0 <= b < p.len() && a != b implies #[trigger] p[a].0.spec_name()
                    != #[trigger] p[b].0.spec_name() by {
                assert(p[a] == pairs[a] && p[b] == pairs[b]);
            }
        }
        lemma_without_names_step(p, ns, n);
        lemma_without_names_unique(pairs, ns);
        lemma_without_names_unique(p, ns);
        lemma_without_names_members(p, ns);
        let c = without_names(pairs, ns);
        let cp = without_names(p, ns);
        if ns.contains(x.0.spec_name()) {
            assert(c == cp);
        } else if x.0.spec_name() == n {
            assert(c == cp.push(x));
            assert(!has_name(cp, n)) by {
                if has_name(cp, n) {
                    let k = choose|k: int| 0 <= k < cp.len() && #[trigger] cp[k].0.spec_name() == n;
                    assert(p.contains(cp[k]));
                    let j = choose|j: int| 0 <= j < p.len() && p[j] == cp[k];
                    assert(pairs[j] == p[j]);
                    assert(pairs[pairs.len() - 1] == x);
                }
            }
            assert(c[c.len() - 1] == x);
            lemma_position_unique(c, n, c.len() - 1);
            assert(c.remove(c.len() - 1) =~= cp);
        } else {
            assert(c == cp.push(x));
            match spec_position(cp, n) {
                Some(k) => {
                    let k0 = choose|i: int| 0 <= i < cp.len() && #[trigger] cp[i].0.spec_name() == n;
                    assert(c[k0] == cp[k0]);
                    lemma_position_unique(c, n, k0);
                    lemma_position_unique(cp, n, k0);
                    assert(c.remove(k0) =~= cp.remove(k0).push(x));
                },
                None => {
                    assert(!has_name(c, n)) by {
                        if has_name(c, n) {
                            let k = choose|k: int| 0 <= k < c.len() && #[trigger] c[k].0.spec_name() == n;
                            if k < cp.len() {
                                assert(c[k] == cp[k]);
                            }
                        }
                    }
                },
            }
        }
    }
}

/// Removing `n` from `orig` after the names `before` have been removed:
/// what is found, and that the result is `orig` without `before` and `n`.
pub proof fn lemma_remove_from_without<K: FieldName, V>(orig: Seq<(K, V)>, before: Seq<Seq<char>>, n: Seq<char>)
    requires
        names_unique(orig),
    ensures
        names_unique(without_names(orig, before)),
        match spec_position(without_names(orig, before), n) {
            Some(k) => {
                &&& !before.contains(n)
                &&& lookup(orig, n) == Some(without_names(orig, before)[k].1)
                &&& without_names(orig, before).remove(k) == without_names(orig, before.push(n))
            },
            None => {
                &&& (before.contains(n) || lookup(orig, n) is None)
                &&& without_names(orig, before) == without_names(orig, before.push(n))
            },
        },
{
    let cur = without_names(orig, before);
    lemma_without_names_step(orig, before, n);
    lemma_without_names_members(orig, before);
    lemma_without_names_unique(orig, before);
    if before.contains(n) {
        assert(!has_name(cur, n)) by {
            if has_name(cur, n) {
                let k = choose|k: int| 0 <= k < cur.len() && #[trigger] cur[k].0.spec_name() == n;
            }
        }
    } else {
        match spec_position(orig, n) {
            Some(j) => {
                let j0 = choose|j0: int| 0 <= j0 < orig.len() && #[trigger] orig[j0].0.spec_name() == n;
                lemma_position_unique(orig, n, j0);
                assert(cur.contains(orig[j0]));
                let k = choose|k: int| 0 <= k < cur.len() && cur[k] == orig[j0];
                lemma_position_unique(cur, n, k);
            },
            None => {
                assert(!has_name(cur, n)) by {
                    if has_name(cur, n) {
                        let k = choose|k: int| 0 <= k < cur.len() && #[trigger] cur[k].0.spec_name() == n;
                        assert(orig.contains(cur[k]));
                        let j = choose|j: int| 0 <= j < orig.len() && orig[j] == cur[k];
                        assert(orig[j].0.spec_name() == n);
                    }
                }
            },
        }
    }
}

/// Looking up a name that was not removed finds what `pairs` holds for it.
pub proof fn lemma_lookup_without<K: FieldName, V>(pairs: Seq<(K, V)>, ns: Seq<Seq<char>>, n: Seq<char>)
    requires
        names_unique(pairs),
        !ns.contains(n),
    ensures
        lookup(without_names(pairs, ns), n) == lookup(pairs, n),
{
    let c = without_names(pairs, ns);
    lemma_without_names_members(pairs, ns);
    lemma_without_names_unique(pairs, ns);
    if has_name(pairs, n) {
        let j = choose|j: int| 0 <= j < pairs.len() && #[trigger] pairs[j].0.spec_name() == n;
        lemma_position_unique(pairs, n, j);
        assert(c.contains(pairs[j]));
        let k = choose|k: int| 0 <= k < c.len() && c[k] == pairs[j];
        lemma_position_unique(c, n, k);
    } else {
        assert(!has_name(c, n)) by {
            if has_name(c, n) {
                let k = choose|k: int| 0 <= k < c.len() && #[trigger] c[k].0.spec_name() == n;
                assert(pairs.contains(c[k]));
                let j = choose|j: int| 0 <= j < pairs.len() && pairs[j] == c[k];
                assert(pairs[j].0.spec_name() == n);
            }
        }
    }
}

/// Removing `a` and then `b` removes `a + b`.
pub proof fn lemma_without_names_twice<K: FieldName, V>(pairs: Seq<(K, V)>, a: Seq<Seq<char>>, b: Seq<Seq<char>>)
    ensures
        without_names(without_names(pairs, a), b) == without_names(pairs, a + b),
    decreases pairs.len(),
{
    assert forall|m: Seq<char>| (a + b).contains(m) <==> (a.contains(m) || b.contains(m)) by {
        if (a + b).contains(m) {
            let i = choose|i: int| 0 <= i < (a + b).len() && (a + b)[i] == m;
            if i < a.len() {
                assert(a[i] == m);
            } else {
                assert(b[i - a.len()] == m);
            }
        }
        if a.contains(m) {
            let i = choose|i: int| 0 <= i < a.len() && a[i] == m;
            assert((a + b)[i] == m);
        }
        if b.contains(m) {
            let i = choose|i: int| 0 <= i < b.len() && b[i] == m;
            assert((a + b)[a.len() + i] == m);
        }
    }
    if pairs.len() > 0 {
        let p = pairs.drop_last();
        let x = pairs.last();
        lemma_without_names_twice(p, a, b);
        let wa = without_names(pairs, a);
        if !a.contains(x.0.spec_name()) {
            assert(wa == without_names(p, a).push(x));
            assert(wa.drop_last() =~= without_names(p, a));
            assert(wa.last() == x);
        }
    }
}

/// The first duplicate position is unique.
pub proof fn lemma_first_dup_unique<K: FieldName, V>(pairs: Seq<(K, V)>, j1: int, j2: int)
    requires
        is_first_dup(pairs, j1),
        is_first_dup(pairs, j2),
    ensures
        j1 == j2,
{
    if j1 < j2 {
        assert(!dup_at(pairs, j1));
    }
    if j2 < j1 {
        assert(!dup_at(pairs, j2));
    }
}

/// Removing no names keeps every pair.
pub proof fn lemma_without_names_empty<K: FieldName, V>(pairs: Seq<(K, V)>, ns: Seq<Seq<char>>)
    requires
        ns.len() == 0,
    ensures
        without_names(pairs, ns) == pairs,
    decreases pairs.len(),
{
    if pairs.len() > 0 {
        lemma_without_names_empty(pairs.drop_last(), ns);
        assert(pairs.drop_last().push(pairs.last()) =~= pairs);
    }
}

impl<K: FieldName, V> FieldCollection<K, V> {
    /// Well-formedness: no two stored keys share a name.
    pub open spec fn wf(&self) -> bool {
        names_unique(self@)
    }

    /// The first index whose key is named `name`.
    fn position<N: FieldName>(&self, name: &N) -> (r: Option<usize>)
        ensures
            match r {
                Some(i) => {
                    &&& i < self@.len()
                    &&& self@[i as int].0.spec_name() == name.spec_name()
                    &&& forall|j: int| 0 <= j < i ==> #[trigger] self@[j].0.spec_name() != name.spec_name()
                },
                None => !has_name(self@, name.spec_name()),
            },
    {
        let target = name.name();
        let mut i: usize = 0;
        while i < self.pairs.len()
            invariant
                i <= self.pairs@.len(),
                target@ == name.spec_name(),
                forall|j: int| 0 <= j < i ==> #[trigger] self.pairs@[j].0.spec_name() != name.spec_name(),
            decreases self.pairs@.len() - i,
        {
            let key_name = self.pairs[i].0.name();
            if str_eq(key_name.as_str(), target.as_str()) {
                return Some(i);
            }
            i += 1;
        }
        None
    }

    /// Return the number of stored fields.
    pub fn len(&self) -> (r: usize)
        ensures
            r == self@.len(),
    {
        self.pairs.len()
    }

    /// Return whether a field with `name` exists.
    pub fn contains<N: FieldName>(&self, name: N) -> (r: bool)
        ensures
            r == has_name(self@, name.spec_name()),
    {
        self.position(&name).is_some()
    }

    /// Borrow the value stored under `name`.
    pub fn get<N: FieldName>(&self, name: N) -> (r: Option<&V>)
        requires
            self.wf(),
        ensures
            match spec_position(self@, name.spec_name()) {
                Some(i) => r == Some(&self@[i].1),
                None => r is None,
            },
    {
        match self.position(&name) {
            Some(i) => {
                proof { lemma_position_unique(self@, name.spec_name(), i as int); }
                Some(&self.pairs[i].1)
            },
            None => None,
        }
    }

    /// Mutably borrow the value stored under `name`.
    pub fn get_mut<N: FieldName>(&mut self, name: N) -> (r: Option<&mut V>)
        requires
            old(self).wf(),
        ensures
            match spec_position(old(self)@, name.spec_name()) {
                Some(i) => r matches Some(v) && *v == old(self)@[i].1 && final(self)@ == old(self)@.update(i, (old(self)@[i].0, *final(v))),
                None => r is None && final(self)@ == old(self)@,
            },
    {
        match self.position(&name) {
            Some(i) => {
                proof { lemma_position_unique(self@, name.spec_name(), i as int); }
                Some(&mut self.pairs[i].1)
            },
            None => None,
        }
    }

    /// Construct a collection from key-value pairs, rejecting duplicates.
    ///
    /// On error, the key of the second occurrence (the first position whose
    /// name occurred earlier) is returned.
    pub fn try_from_pairs(pairs: Vec<(K, V)>) -> (r: Result<Self, K>)
        ensures
            r is Ok <==> names_unique(pairs@),
            match r {
                Ok(c) => c.wf() && c@ == pairs@,
                Err(k) => exists|j: int| is_first_dup(pairs@, j) && k == pairs@[j].0,
            },
    {
        let ghost src = pairs@;
        let mut collection = Self { pairs: Vec::new() };
        proof { lemma_unique_iff_no_dup(src); }
        for pair in it: pairs.into_iter()
            invariant
                it.seq() == src,
                collection.wf(),
                collection@ == src.take(it.index() as int),
                forall|k: int| 0 <= k < it.index() ==> !#[trigger] dup_at(src, k),
        {
            let ghost idx = it.index() as int;
            let (key, value) = pair;
            proof {
                assert(src[idx] == (key, value));
                assert(has_name(collection@, key.spec_name()) <==> dup_at(src, idx)) by {
                    if has_name(collection@, key.spec_name()) {
                        let i = choose|i: int| 0 <= i < collection@.len() && #[trigger] collection@[i].0.spec_name() == key.spec_name();
                        assert(src[i].0.spec_name() == src[idx].0.spec_name());
                    }
                    if dup_at(src, idx) {
                        let i = choose|i: int| 0 <= i < idx && #[trigger] src[i].0.spec_name() == src[idx].0.spec_name();
                        assert(collection@[i].0.spec_name() == key.spec_name());
                    }
                }
            }
            match collection.insert(key, value) {
                Ok(()) => {
                    assert(src.take(idx + 1) =~= src.take(idx).push(src[idx]));
                },
                Err(k) => {
                    assert(is_first_dup(src, idx));
                    return Err(k);
                },
            }
        }
        assert(src.take(src.len() as int) =~= src);
        Ok(collection)
    }

    /// Return `true` when no fields are stored.
    pub fn is_empty(&self) -> (r: bool)
        ensures
            r == (self@.len() == 0),
    {
        self.pairs.is_empty()
    }

    /// Borrow every field in insertion order.
    pub fn iter(&self) -> (r: Vec<(&K, &V)>)
        ensures
            r@.len() == self@.len(),
            forall|i: int| 0 <= i < self@.len() ==> *(#[trigger] r@[i]).0 == self@[i].0 && *r@[i].1 == self@[i].1,
    {
        let mut r: Vec<(&K, &V)> = Vec::new();
        let mut i: usize = 0;
        while i < self.pairs.len()
            invariant
                i <= self.pairs@.len(),
                r@.len() == i,
                forall|j: int| 0 <= j < i ==> *(#[trigger] r@[j]).0 == self.pairs@[j].0 && *r@[j].1 == self.pairs@[j].1,
            decreases self.pairs@.len() - i,
        {
            let pair = &self.pairs[i];
            r.push((&pair.0, &pair.1));
            i += 1;
        }
        r
    }

    /// Return whether every requested field exists.
    pub fn contains_all<N: FieldName>(&self, names: &[N]) -> (r: bool)
        ensures
            r == forall|i: int| 0 <= i < names@.len() ==> has_name(self@, #[trigger] names@[i].spec_name()),
    {
        let mut i: usize = 0;
        while i < names.len()
            invariant
                i <= names@.len(),
                forall|j: int| 0 <= j < i ==> has_name(self@, #[trigger] names@[j].spec_name()),
            decreases names@.len() - i,
        {
            if self.position(&names[i]).is_none() {
                return false;
            }
            i += 1;
        }
        true
    }

    /// Return whether at least one requested field exists.
    pub fn contains_any<N: FieldName>(&self, names: &[N]) -> (r: bool)
        ensures
            r == exists|i: int| 0 <= i < names@.len() && has_name(self@, #[trigger] names@[i].spec_name()),
    {
        let mut i: usize = 0;
        while i < names.len()
            invariant
                i <= names@.len(),
                forall|j: int| 0 <= j < i ==> !has_name(self@, #[trigger] names@[j].spec_name()),
            decreases names@.len() - i,
        {
            if self.position(&names[i]).is_some() {
                return true;
            }
            i += 1;
        }
        false
    }

    /// Borrow several values in `names` order, one entry per requested name.
    pub fn get_many<N: FieldName>(&self, names: &[N]) -> (r: Vec<Option<&V>>)
        requires
            self.wf(),
        ensures
            r@.len() == names@.len(),
            forall|i: int| 0 <= i < names@.len() ==> match spec_position(self@, #[trigger] names@[i].spec_name()) {
                Some(k) => r@[i] == Some(&self@[k].1),
                None => r@[i] is None,
            },
    {
        let mut r: Vec<Option<&V>> = Vec::new();
        let mut i: usize = 0;
        while i < names.len()
            invariant
                self.wf(),
                i <= names@.len(),
                r@.len() == i,
                forall|j: int| 0 <= j < i ==> match spec_position(self@, #[trigger] names@[j].spec_name()) {
                    Some(k) => r@[j] == Some(&self@[k].1),
                    None => r@[j] is None,
                },
            decreases names@.len() - i,
        {
            let got = match self.position(&names[i]) {
                Some(k) => {
                    proof { lemma_position_unique(self@, names@[i as int].spec_name(), k as int); }
                    Some(&self.pairs[k].1)
                },
                None => None,
            };
            r.push(got);
            i += 1;
        }
        r
    }

    /// Insert a new field at the end of the collection.
    ///
    /// When the name already exists the collection is unchanged and the
    /// supplied key is handed back.
    pub fn insert(&mut self, key: K, value: V) -> (r: Result<(), K>)
        requires
            old(self).wf(),
        ensures
            final(self).wf(),
            if has_name(old(self)@, key.spec_name()) {
                r == Err::<(), K>(key) && final(self)@ == old(self)@
            } else {
                r is Ok && final(self)@ == old(self)@.push((key, value))
            },
    {
        if self.position(&key).is_some() {
            return Err(key);
        }
        self.pairs.push((key, value));
        proof {
            let s = self.pairs@;
            assert forall|i: int, j: int|
                0 <= i < s.len() && 0 <= j < s.len() && i != j implies #[trigger] s[i].0.spec_name()
                    != #[trigger] s[j].0.spec_name() by {
                if i == s.len() - 1 {
                    assert(old(self)@[j].0.spec_name() == s[j].0.spec_name());
                } else if j == s.len() - 1 {
                    assert(old(self)@[i].0.spec_name() == s[i].0.spec_name());
                } else {
                    assert(old(self)@[i] == s[i] && old(self)@[j] == s[j]);
                }
            }
        }
        Ok(())
    }

    /// Inserts all pairs atomically at the end of the collection.
    ///
    /// A name repeated inside the batch is reported first (at its second
    /// occurrence); otherwise the first batch key whose name is already stored
    /// is reported. On error the collection is unchanged.
    pub fn insert_many(&mut self, pairs: Vec<(K, V)>) -> (r: Result<(), K>)
        requires
            old(self).wf(),
        ensures
            final(self).wf(),
            !names_unique(pairs@) ==> final(self)@ == old(self)@ && exists|j: int|
                is_first_dup(pairs@, j) && r == Err::<(), K>(pairs@[j].0),
            names_unique(pairs@) && clashes(old(self)@, pairs@) ==> final(self)@ == old(self)@
                && exists|j: int| is_first_clash(old(self)@, pairs@, j) && r == Err::<(), K>(pairs@[j].0),
            names_unique(pairs@) && !clashes(old(self)@, pairs@) ==> r is Ok && final(self)@ == old(self)@ + pairs@,
    {
        let ghost batch = pairs@;
        let mut candidates = match Self::try_from_pairs(pairs) {
            Ok(c) => c,
            Err(k) => return Err(k),
        };
        let mut index: usize = 0;
        while index < candidates.pairs.len()
            invariant
                candidates@ == batch,
                batch == pairs@,
                names_unique(batch),
                self.wf(),
                self@ == old(self)@,
                index <= batch.len(),
                forall|k: int| 0 <= k < index ==> !has_name(self@, #[trigger] batch[k].0.spec_name()),
            decreases batch.len() - index,
        {
            let found = self.position(&candidates.pairs[index].0).is_some();
            if found {
                assert(is_first_clash(old(self)@, batch, index as int));
                assert(clashes(old(self)@, batch));
                let (key, _) = candidates.pairs.remove(index);
                assert(key == batch[index as int].0);
                assert(is_first_clash(old(self)@, pairs@, index as int) && key == pairs@[index as int].0);
                return Err(key);
            }
            index += 1;
        }
        let mut rest = candidates.into_pairs();
        self.pairs.append(&mut rest);
        proof {
            let s = self.pairs@;
            let o = old(self)@;
            assert(s =~= o + batch);
            assert forall|i: int, j: int|
                0 <= i < s.len() && 0 <= j < s.len() && i != j implies #[trigger] s[i].0.spec_name()
                    != #[trigger] s[j].0.spec_name() by {
                if i < o.len() && j < o.len() {
                    assert(o[i] == s[i] && o[j] == s[j]);
                } else if i >= o.len() && j >= o.len() {
                    assert(batch[i - o.len()] == s[i] && batch[j - o.len()] == s[j]);
                } else if i < o.len() {
                    assert(o[i] == s[i] && batch[j - o.len()] == s[j]);
                    assert(!has_name(o, batch[j - o.len()].0.spec_name()));
                } else {
                    assert(o[j] == s[j] && batch[i - o.len()] == s[i]);
                    assert(!has_name(o, batch[i - o.len()].0.spec_name()));
                }
            }
            if clashes(o, batch) {
                let j = choose|j: int| 0 <= j < batch.len() && has_name(o, #[trigger] batch[j].0.spec_name());
                assert(!has_name(o, batch[j].0.spec_name()));
            }
        }
        Ok(())
    }

    /// Replace an existing value without changing its key or position.
    pub fn replace<N: FieldName>(&mut self, name: N, value: V) -> (r: Option<V>)
        requires
            old(self).wf(),
        ensures
            final(self).wf(),
            match spec_position(old(self)@, name.spec_name()) {
                Some(i) => r == Some(old(self)@[i].1) && final(self)@ == old(self)@.update(i, (old(self)@[i].0, value)),
                None => r is None && final(self)@ == old(self)@,
            },
    {
        match self.position(&name) {
            Some(i) => {
                proof { lemma_position_unique(self@, name.spec_name(), i as int); }
                let mut value = value;
                std::mem::swap(&mut self.pairs[i].1, &mut value);
                proof { lemma_update_value_keeps_names(old(self)@, i as int, self@); }
                Some(value)
            },
            None => None,
        }
    }

    /// Replace an existing value or append a new field.
    ///
    /// When the name already exists, the stored key and its position are kept;
    /// the supplied key is used only when appending.
    pub fn upsert(&mut self, key: K, value: V) -> (r: Option<V>)
        requires
            old(self).wf(),
        ensures
            final(self).wf(),
            match spec_position(old(self)@, key.spec_name()) {
                Some(i) => r == Some(old(self)@[i].1) && final(self)@ == old(self)@.update(i, (old(self)@[i].0, value)),
                None => r is None && final(self)@ == old(self)@.push((key, value)),
            },
    {
        match self.position(&key) {
            Some(i) => {
                proof { lemma_position_unique(self@, key.spec_name(), i as int); }
                let mut value = value;
                std::mem::swap(&mut self.pairs[i].1, &mut value);
                proof { lemma_update_value_keeps_names(old(self)@, i as int, self@); }
                Some(value)
            },
            None => {
                let r = self.insert(key, value);
                assert(r is Ok);
                None
            },
        }
    }

    /// Remove and return the value stored under `name`.
    pub fn remove<N: FieldName>(&mut self, name: N) -> (r: Option<V>)
        requires
            old(self).wf(),
        ensures
            final(self).wf(),
            match spec_position(old(self)@, name.spec_name()) {
                Some(i) => r == Some(old(self)@[i].1) && final(self)@ == old(self)@.remove(i),
                None => r is None && final(self)@ == old(self)@,
            },
    {
        self.remove_by_ref(&name)
    }

    pub(crate) fn remove_by_ref<N: FieldName>(&mut self, name: &N) -> (r: Option<V>)
        requires
            old(self).wf(),
        ensures
            final(self).wf(),
            match spec_position(old(self)@, name.spec_name()) {
                Some(i) => r == Some(old(self)@[i].1) && final(self)@ == old(self)@.remove(i),
                None => r is None && final(self)@ == old(self)@,
            },
    {
        match self.position(name) {
            Some(i) => {
                proof { lemma_position_unique(self@, name.spec_name(), i as int); }
                let (_, value) = self.pairs.remove(i);
                proof {
                    let s = self.pairs@;
                    let o = old(self)@;
                    assert forall|a: int, b: int|
                        0 <= a < s.len() && 0 <= b < s.len() && a != b implies #[trigger] s[a].0.spec_name()
                            != #[trigger] s[b].0.spec_name() by {
                        let oa = if a < i { a } else { a + 1 };
                        let ob = if b < i { b } else { b + 1 };
                        assert(s[a] == o[oa] && s[b] == o[ob]);
                    }
                }
                Some(value)
            },
            None => None,
        }
    }

    /// Remove every stored field.
    pub fn clear(&mut self)
        ensures
            final(self)@ == Seq::<(K, V)>::empty(),
            final(self).wf(),
    {
        self.pairs.clear();
    }

    /// The key of the first field whose name is not in `allowed`.
    pub fn first_not_in<N: FieldName>(&self, allowed: &[N]) -> (r: Option<&K>)
        ensures
            match r {
                Some(k) => exists|i: int| {
                    &&& 0 <= i < self@.len()
                    &&& *k == self@[i].0
                    &&& !names_of(allowed@).contains(self@[i].0.spec_name())
                    &&& forall|j: int| 0 <= j < i ==> names_of(allowed@).contains(#[trigger] self@[j].0.spec_name())
                },
                None => forall|i: int| 0 <= i < self@.len() ==> names_of(allowed@).contains(#[trigger] self@[i].0.spec_name()),
            },
    {
        let ghost allowed_names = names_of(allowed@);
        let mut i: usize = 0;
        while i < self.pairs.len()
            invariant
                i <= self.pairs@.len(),
                allowed_names == names_of(allowed@),
                forall|j: int| 0 <= j < i ==> allowed_names.contains(#[trigger] self.pairs@[j].0.spec_name()),
            decreases self.pairs@.len() - i,
        {
            let name = self.pairs[i].0.name();
            let mut found = false;
            let mut a: usize = 0;
            while a < allowed.len()
                invariant
                    a <= allowed@.len(),
                    i < self.pairs@.len(),
                    name@ == self.pairs@[i as int].0.spec_name(),
                    allowed_names == names_of(allowed@),
                    found ==> allowed_names.contains(name@),
                    !found ==> forall|b: int| 0 <= b < a ==> #[trigger] allowed@[b].spec_name() != name@,
                ensures
                    found ==> allowed_names.contains(name@),
                    !found ==> forall|b: int| 0 <= b < allowed@.len() ==> #[trigger] allowed@[b].spec_name() != name@,
                decreases allowed@.len() - a,
            {
                let allowed_name = allowed[a].name();
                if str_eq(allowed_name.as_str(), name.as_str()) {
                    assert(allowed_names[a as int] == allowed@[a as int].spec_name());
                    found = true;
                    break;
                }
                a += 1;
            }
            if !found {
                proof {
                    if allowed_names.contains(name@) {
                        let b = choose|b: int| 0 <= b < allowed_names.len() && allowed_names[b] == name@;
                        assert(allowed@[b].spec_name() == name@);
                    }
                    assert(!names_of(allowed@).contains(self@[i as int].0.spec_name()));
                }
                return Some(&self.pairs[i].0);
            }
            i += 1;
        }
        None
    }

    /// The stored pairs as a vector.
    pub closed spec fn pairs_vec(self) -> Vec<(K, V)> {
        self.pairs
    }

    /// Take the stored pairs out, in insertion order.
    pub fn into_pairs(self) -> (r: Vec<(K, V)>)
        ensures
            r@ == self@,
            r == self.pairs_vec(),
    {
        self.pairs
    }

    /// Remove several fields in `names` order, one entry per requested name.
    ///
    /// A name requested twice yields its value the first time and `None`
    /// afterwards.
    pub fn remove_many<N: FieldName>(&mut self, names: &[N]) -> (r: Vec<Option<V>>)
        requires
            old(self).wf(),
        ensures
            final(self).wf(),
            final(self)@ == without_names(old(self)@, names_of(names@)),
            r@.len() == names@.len(),
            forall|i: int| 0 <= i < names@.len() ==> #[trigger] r@[i] == if names_of(names@).take(i).contains(names@[i].spec_name()) {
                None
            } else {
                lookup(old(self)@, names@[i].spec_name())
            },
    {
        let ghost ns = names_of(names@);
        let ghost orig = self@;
        let mut r: Vec<Option<V>> = Vec::new();
        let mut i: usize = 0;
        proof {
            assert(ns.take(0) =~= Seq::<Seq<char>>::empty());
            assert(without_names(orig, ns.take(0)) =~= orig) by {
                lemma_without_names_empty(orig, ns.take(0));
            }
        }
        while i < names.len()
            invariant
                ns == names_of(names@),
                names_unique(orig),
                orig == old(self)@,
                self.wf(),
                i <= names@.len(),
                self@ == without_names(orig, ns.take(i as int)),
                r@.len() == i,
                forall|j: int| 0 <= j < i ==> #[trigger] r@[j] == if ns.take(j).contains(names@[j].spec_name()) {
                    None
                } else {
                    lookup(orig, names@[j].spec_name())
                },
            decreases names@.len() - i,
        {
            let ghost cur = self@;
            let ghost n = names@[i as int].spec_name();
            let ghost before = ns.take(i as int);
            proof {
                assert(ns[i as int] == n);
                assert(ns.take(i + 1) =~= before.push(n));
                lemma_remove_from_without(orig, before, n);
            }
            let got = self.remove_by_ref(&names[i]);
            r.push(got);
            i += 1;
        }
        proof {
            assert(ns.take(names@.len() as int) =~= ns);
        }
        r
    }

    /// Mutably borrow every value in insertion order, keeping keys immutable.
    pub fn iter_mut(&mut self) -> (r: Vec<(&K, &mut V)>)
        ensures
            r@.len() == old(self)@.len(),
            final(self)@.len() == old(self)@.len(),
            forall|i: int| #![trigger r@[i]] 0 <= i < r@.len() ==> {
                &&& *r@[i].0 == old(self)@[i].0
                &&& *r@[i].1 == old(self)@[i].1
                &&& final(self)@[i] == (old(self)@[i].0, *final(r@[i].1))
            },
    {
        let ghost s0 = self@;
        let len = self.pairs.len();
        let ghost fin = final(self)@;
        let mut out: Vec<(&K, &mut V)> = Vec::new();
        let mut rest: &mut [(K, V)] = self.pairs.as_mut_slice();
        let ghost n = s0.len();
        assert(n == len);
        let mut i: usize = 0;
        while rest.len() > 0
            invariant
                n == s0.len(),
                n <= usize::MAX,
                rest@ == s0.subrange(i as int, n as int),
                i <= n,
                out@.len() == i,
                forall|j: int| #![trigger out@[j]] 0 <= j < i ==> *out@[j].0 == s0[j].0 && *out@[j].1 == s0[j].1,
                fin.len() == i + final(rest)@.len(),
                forall|j: int| #![trigger out@[j]] 0 <= j < i ==> fin[j] == (s0[j].0, *final(out@[j].1)),
                forall|j: int| 0 <= j < final(rest)@.len() ==> fin[i + j] == #[trigger] final(rest)@[j],
            decreases rest@.len(),
        {
            let ghost fr = final(rest)@;
            assert(forall|j: int| 0 <= j < fr.len() ==> fin[i + j] == #[trigger] fr[j]);
            let (head, tail) = rest.split_at_mut(1);
            let ghost ft = final(tail)@;
            assert(fr == final(head)@ + ft);
            let ghost fh = final(head)@;
            let ghost h0 = head@;
            let pair = head.first_mut().unwrap();
            assert(fh == h0.update(0, *final(pair)));
            let ghost fp = *final(pair);
            let (k, v) = pair;
            assert(fp == (*final(k), *final(v)));
            let kr: &K = &*k;
            assert(*final(k) == *k);
            out.push((kr, v));
            assert(*final(out@[i as int].1) == fp.1);
            assert(fh.len() == 1);
            assert(fin[i as int] == fr[0]);
            assert(fr[0] == fh[0]);
            assert forall|j: int| 0 <= j < ft.len() implies fin[i + 1 + j] == #[trigger] ft[j] by {
                assert(fr[1 + j] == ft[j]);
            }
            rest = tail;
            assert(s0.subrange(i as int, n as int).subrange(1, n - i) =~= s0.subrange(i + 1, n as int));
            i += 1;
        }
        out
    }
}

} // verus!
