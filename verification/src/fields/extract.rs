//! Consuming extraction of the fields an attribute grammar accepts.
use vstd::prelude::*;

use super::collection::{
    has_name, is_first_dup, lemma_first_dup_unique, lemma_lookup_without,
    lemma_remove_from_without, lemma_without_names_empty, lemma_without_names_twice, lookup,
    names_of, names_unique, without_names, FieldName,
};
use super::error::{is_duplicate_of, is_missing_of, is_unknown_of};
use super::{AttrFields, AttrFieldsError, AttrLiteralFields};
use crate::tokens::{diagnostic, CompileError, Ident, Literal, Span};

verus! {

/// The `i`-th requested name can be taken: it was not requested before and
/// it is stored.
pub open spec fn available_at<V>(fields: Seq<(crate::tokens::Ident, V)>, ns: Seq<Seq<char>>, i: int) -> bool {
    !ns.take(i).contains(ns[i]) && has_name(fields, ns[i])
}

/// The `i`-th requested name is the first one that cannot be taken.
pub open spec fn is_first_missing<V>(fields: Seq<(crate::tokens::Ident, V)>, ns: Seq<Seq<char>>, i: int) -> bool {
    &&& 0 <= i < ns.len()
    &&& !available_at(fields, ns, i)
    &&& forall|j: int| 0 <= j < i ==> #[trigger] available_at(fields, ns, j)
}

impl<V> AttrFields<V> {
    /// Reject the first field whose name is not in `allowed`.
    ///
    /// This check does not consume any fields, so callers can validate the
    /// accepted grammar before extracting required and optional values.
    pub fn reject_unknown<N: FieldName>(&self, allowed: &[N]) -> (r: Result<(), AttrFieldsError>)
        ensures
            match r {
                Ok(()) => forall|i: int| 0 <= i < self@.len() ==> names_of(allowed@).contains(#[trigger] self@[i].0.spec_name()),
                Err(e) => exists|i: int| {
                    &&& 0 <= i < self@.len()
                    &&& is_unknown_of(e, self@[i].0)
                    &&& !names_of(allowed@).contains(self@[i].0.spec_name())
                    &&& forall|j: int| 0 <= j < i ==> names_of(allowed@).contains(#[trigger] self@[j].0.spec_name())
                },
            },
    {
        match self.collection.first_not_in(allowed) {
            Some(key) => {
                let e = AttrFieldsError::unknown(key);
                let ghost c = self.collection@;
                let ghost w = choose|i: int| {
                    &&& 0 <= i < c.len()
                    &&& *key == c[i].0
                    &&& !names_of(allowed@).contains(c[i].0.spec_name())
                    &&& forall|j: int| 0 <= j < i ==> names_of(allowed@).contains(#[trigger] c[j].0.spec_name())
                };
                assert(is_unknown_of(e, self@[w].0));
                assert(exists|i: int| {
                    &&& 0 <= i < self@.len()
                    &&& is_unknown_of(e, self@[i].0)
                    &&& !names_of(allowed@).contains(self@[i].0.spec_name())
                    &&& forall|j: int| 0 <= j < i ==> names_of(allowed@).contains(#[trigger] self@[j].0.spec_name())
                });
                Err(e)
            },
            None => {
                assert forall|i: int| 0 <= i < self@.len() implies names_of(allowed@).contains(#[trigger] self@[i].0.spec_name()) by {
                    assert(names_of(allowed@).contains(self.collection@[i].0.spec_name()));
                }
                Ok(())
            },
        }
    }

    /// Consume and return a required field.
    ///
    /// A missing field is reported at the macro call site because no field
    /// token exists from which to obtain a more precise span.
    pub fn take_required<N: FieldName>(&mut self, name: N) -> (r: Result<V, AttrFieldsError>)
        requires
            old(self).wf(),
        ensures
            final(self).wf(),
            match lookup(old(self)@, name.spec_name()) {
                Some(v) => r == Ok::<V, AttrFieldsError>(v) && final(self)@ == without_names(old(self)@, seq![name.spec_name()]),
                None => r matches Err(e) && is_missing_of(e, name.spec_name()) && final(self)@ == old(self)@,
            },
    {
        self.take_required_ref(&name)
    }

    fn take_required_ref<N: FieldName>(&mut self, name: &N) -> (r: Result<V, AttrFieldsError>)
        requires
            old(self).wf(),
        ensures
            final(self).wf(),
            match lookup(old(self)@, name.spec_name()) {
                Some(v) => r == Ok::<V, AttrFieldsError>(v) && final(self)@ == without_names(old(self)@, seq![name.spec_name()]),
                None => r matches Err(e) && is_missing_of(e, name.spec_name()) && final(self)@ == old(self)@,
            },
    {
        let ghost o = self@;
        let ghost n = name.spec_name();
        proof {
            let e = Seq::<Seq<char>>::empty();
            lemma_remove_from_without(o, e, n);
            lemma_without_names_empty(o, e);
            assert(e.push(n) =~= seq![n]);
        }
        match self.collection.remove_by_ref(name) {
            Some(v) => Ok(v),
            None => {
                let n = name.name();
                Err(AttrFieldsError::missing_required(n.as_str()))
            },
        }
    }

    /// Consume and return an optional field, or `None` when it is absent.
    pub fn take_optional<N: FieldName>(&mut self, name: N) -> (r: Option<V>)
        requires
            old(self).wf(),
        ensures
            final(self).wf(),
            r == lookup(old(self)@, name.spec_name()),
            final(self)@ == without_names(old(self)@, seq![name.spec_name()]),
    {
        let ghost o = self@;
        let ghost n = name.spec_name();
        proof {
            let e = Seq::<Seq<char>>::empty();
            lemma_remove_from_without(o, e, n);
            lemma_without_names_empty(o, e);
            assert(e.push(n) =~= seq![n]);
        }
        self.collection.remove_by_ref(&name)
    }

    /// Consume and return several required fields in `names` order.
    ///
    /// If a field is missing (or requested a second time), values requested
    /// earlier in the slice have already been removed; callers should return
    /// the error and discard this collection.
    pub fn take_required_many<N: FieldName>(&mut self, names: &[N]) -> (r: Result<Vec<V>, AttrFieldsError>)
        requires
            old(self).wf(),
        ensures
            final(self).wf(),
            r is Ok <==> forall|i: int| 0 <= i < names@.len() ==> #[trigger] available_at(old(self)@, names_of(names@), i),
            match r {
                Ok(values) => {
                    &&& values@.len() == names@.len()
                    &&& forall|i: int| 0 <= i < names@.len() ==> Some(#[trigger] values@[i]) == lookup(old(self)@, names@[i].spec_name())
                    &&& final(self)@ == without_names(old(self)@, names_of(names@))
                },
                Err(e) => exists|i: int| {
                    &&& is_first_missing(old(self)@, names_of(names@), i)
                    &&& is_missing_of(e, names@[i].spec_name())
                    &&& final(self)@ == without_names(old(self)@, names_of(names@).take(i))
                },
            },
    {
        let ghost ns = names_of(names@);
        let ghost orig = self@;
        let mut values: Vec<V> = Vec::new();
        let mut i: usize = 0;
        proof {
            assert(ns.take(0) =~= Seq::<Seq<char>>::empty());
            lemma_without_names_empty(orig, ns.take(0));
        }
        while i < names.len()
            invariant
                ns == names_of(names@),
                orig == old(self)@,
                super::collection::names_unique(orig),
                self.wf(),
                i <= names@.len(),
                self@ == without_names(orig, ns.take(i as int)),
                values@.len() == i,
                forall|j: int| 0 <= j < i ==> #[trigger] available_at(orig, ns, j),
                forall|j: int| 0 <= j < i ==> Some(#[trigger] values@[j]) == lookup(orig, names@[j].spec_name()),
            decreases names@.len() - i,
        {
            let ghost n = names@[i as int].spec_name();
            let ghost before = ns.take(i as int);
            proof {
                assert(ns[i as int] == n);
                assert(ns.take(i + 1) =~= before.push(n));
                lemma_remove_from_without(orig, before, n);
            }
            match self.collection.remove_by_ref(&names[i]) {
                Some(v) => {
                    values.push(v);
                },
                None => {
                    proof {
                        assert(!available_at(orig, ns, i as int));
                        assert(is_first_missing(orig, ns, i as int));
                    }
                    let n = names[i].name();
                    return Err(AttrFieldsError::missing_required(n.as_str()));
                },
            }
            i += 1;
        }
        proof {
            assert(ns.take(names@.len() as int) =~= ns);
        }
        Ok(values)
    }

    /// Consume several optional fields in `names` order, one entry per
    /// requested name.
    pub fn take_optional_many<N: FieldName>(&mut self, names: &[N]) -> (r: Vec<Option<V>>)
        requires
            old(self).wf(),
        ensures
            final(self).wf(),
            final(self)@ == without_names(old(self)@, names_of(names@)),
            r@.len() == names@.len(),
            forall|i: int| 0 <= i < names@.len() ==> #[trigger] r@[i] == if names_of(names@).take(i).contains(names@[i].spec_name()) {
                None
            } else {
                lookup(old(self)@, names@[i].spec_name())
            },
    {
        self.remove_many(names)
    }

    /// Reject the first unconsumed field.
    ///
    /// Consuming `self` prevents extraction from continuing after this final
    /// exhaustiveness check.
    pub fn reject_rest(self) -> (r: Result<(), AttrFieldsError>)
        ensures
            self@.len() == 0 ==> r is Ok,
            self@.len() > 0 ==> (r matches Err(e) && is_unknown_of(e, self@[0].0)),
    {
        let mut pairs = self.into_pairs();
        if pairs.len() > 0 {
            let (key, _) = pairs.remove(0);
            return Err(AttrFieldsError::unknown(&key));
        }
        Ok(())
    }
}

} // verus!

verus! {

/// No name occurs twice in `ns`.
pub open spec fn distinct_names(ns: Seq<Seq<char>>) -> bool {
    forall|i: int, j: int| 0 <= i < ns.len() && 0 <= j < ns.len() && i != j ==> ns[i] != ns[j]
}

/// The first position of `pairs` whose name already occurred, as a diagnostic.
pub open spec fn duplicate_diagnostic(pairs: Seq<(Ident, Literal)>) -> (Span, Seq<char>) {
    let j = choose|j: int| is_first_dup(pairs, j);
    (pairs[j].0.span, "duplicate field `"@ + pairs[j].0.name@ + "`"@)
}

/// The diagnostic for an absent required field.
pub open spec fn missing_diagnostic(name: Seq<char>) -> (Span, Seq<char>) {
    (Span::CallSite, "missing required field `"@ + name + "`"@)
}

/// The diagnostic for the first field of `rest`, which no rule accepts.
pub open spec fn unknown_diagnostic(rest: Seq<(Ident, Literal)>) -> (Span, Seq<char>) {
    (rest[0].0.span, "unknown field `"@ + rest[0].0.name@ + "`"@)
}

/// Validate literal fields against a grammar with one required name and
/// some optional names: duplicates are reported first (at the second
/// occurrence), then a missing required field (at the call site), then the
/// first field the grammar does not accept.
pub open spec fn spec_take_fields(pairs: Seq<(Ident, Literal)>, required: Seq<char>, optional: Seq<Seq<char>>) -> Result<(Literal, Seq<Option<Literal>>), (Span, Seq<char>)> {
    if !names_unique(pairs) {
        Err(duplicate_diagnostic(pairs))
    } else {
        match lookup(pairs, required) {
            None => Err(missing_diagnostic(required)),
            Some(value) => {
                let rest = without_names(pairs, seq![required] + optional);
                if rest.len() > 0 {
                    Err(unknown_diagnostic(rest))
                } else {
                    Ok((value, optional.map_values(|n: Seq<char>| lookup(pairs, n))))
                }
            },
        }
    }
}

/// Validate parsed literal fields: take the required field and the optional
/// ones, and reject duplicates and any field outside the grammar.
pub fn take_literal_fields(pairs: Vec<(Ident, Literal)>, required: &str, optional: &[&str]) -> (r: Result<(Literal, Vec<Option<Literal>>), CompileError>)
    requires
        distinct_names(seq![required@] + names_of(optional@)),
    ensures
        match r {
            Ok((v, opts)) => spec_take_fields(pairs@, required@, names_of(optional@)) == Ok::<(Literal, Seq<Option<Literal>>), (Span, Seq<char>)>((v, opts@)),
            Err(e) => spec_take_fields(pairs@, required@, names_of(optional@)) == Err::<(Literal, Seq<Option<Literal>>), (Span, Seq<char>)>(diagnostic(e)),
        },
{
    let ghost p = pairs@;
    let ghost ns = names_of(optional@);
    let ghost req = required@;
    let mut fields: AttrLiteralFields = match AttrLiteralFields::try_from(pairs) {
        Ok(f) => f,
        Err(e) => {
            proof {
                let j = choose|j: int| is_first_dup(p, j) && is_duplicate_of(e, p[j].0);
                let j2 = choose|j: int| is_first_dup(p, j);
                lemma_first_dup_unique(p, j, j2);
            }
            return Err(e.into_diagnostic());
        },
    };
    let value = match fields.take_required(required) {
        Ok(v) => v,
        Err(e) => return Err(e.into_diagnostic()),
    };
    let ghost f1 = fields@;
    let opts = fields.take_optional_many(optional);
    proof {
        let a = seq![req];
        assert(f1 == without_names(p, a));
        lemma_without_names_twice(p, a, ns);
        assert forall|i: int| 0 <= i < ns.len() implies #[trigger] opts@[i] == lookup(p, ns[i]) by {
            assert((seq![req] + ns)[0] == req);
            assert((seq![req] + ns)[i + 1] == ns[i]);
            assert(ns[i] != req);
            assert(!a.contains(ns[i])) by {
                if a.contains(ns[i]) {
                    assert(a[0] == ns[i]);
                }
            }
            lemma_lookup_without(p, a, ns[i]);
            assert(!ns.take(i).contains(ns[i])) by {
                if ns.take(i).contains(ns[i]) {
                    let k = choose|k: int| 0 <= k < i && ns.take(i)[k] == ns[i];
                    assert((seq![req] + ns)[k + 1] == ns[k]);
                }
            }
            assert(names_of(optional@)[i] == optional@[i].spec_name());
        }
        assert(opts@ =~= ns.map_values(|n: Seq<char>| lookup(p, n)));
    }
    match fields.reject_rest() {
        Ok(()) => {},
        Err(e) => return Err(e.into_diagnostic()),
    }
    Ok((value, opts))
}

} // verus!
