//! A generic data-access layer: one collection of entities of a single type,
//! with insert, update, delete and find.
//!
//! The collection enforces the store's primary-key rule: every entity carries
//! a key, keys are unique across the collection, and an update never changes
//! the key of the entity it rewrites. `update` and `delete` act on the first
//! entity matching a filter; `find` returns every match, honoring optional
//! skip and limit query options.

use vstd::prelude::*;
use vstd::pervasive::VecAdditionalExecFns;

verus! {

/// Errors surfaced by the service layer.
#[derive(Clone, Copy, PartialEq, Eq, Structural, Debug)]
pub enum ServiceError {
    /// The operation required an existing record and none matched.
    NotFound,
    /// The backing store refused the operation (for the in-memory collection,
    /// only a primary-key collision on insert).
    Store,
}

/// Outcome of an update call: how many documents matched the filter.
pub struct UpdateOutcome {
    pub matched: usize,
}

/// Outcome of a delete call: how many documents were removed.
pub struct DeleteOutcome {
    pub deleted: usize,
}

/// Optional query options honored by `find`: skip the first `skip` matches,
/// then return at most `limit` of the rest.
#[derive(Clone, Copy)]
pub struct FindOptions {
    pub skip: Option<usize>,
    pub limit: Option<usize>,
}

/// An entity type that a `BaseService` collection can hold: it carries a
/// primary key, knows which filters it satisfies, and knows how a partial
/// update rewrites it.
pub trait Entity: Sized {
    /// The filter documents that select entities of this type.
    type Filter;

    /// The partial-update documents that rewrite entities of this type.
    type Update;

    /// The primary key of this entity.
    spec fn key(self) -> Seq<char>;

    /// Whether this entity satisfies every constraint the filter carries.
    spec fn is_match(self, f: Self::Filter) -> bool;

    /// The entity after the partial update: fields present in `u` are
    /// overwritten, absent fields keep their prior values, the key is kept.
    spec fn applied(self, u: Self::Update) -> Self;

    /// A partial update never rewrites the primary key.
    proof fn lemma_applied_key(self, u: Self::Update)
        ensures
            self.applied(u).key() == self.key(),
    ;

    /// The primary key, read in executable code.
    fn key_ref(&self) -> (r: &String)
        ensures
            r@ == self.key(),
    ;

    /// `is_match`, decided in executable code.
    fn check_match(&self, f: &Self::Filter) -> (r: bool)
        ensures
            r == self.is_match(*f),
    ;

    /// `applied`, computed in executable code.
    fn apply(&self, u: &Self::Update) -> (r: Self)
        ensures
            r == self.applied(*u),
    ;

    /// An exact copy of this entity.
    fn copy(&self) -> (r: Self)
        ensures
            r == *self,
    ;
}

/// The index of the first entity in `s` that matches `f`, or -1 if none does.
pub open spec fn first_match<T: Entity>(s: Seq<T>, f: T::Filter) -> int
    decreases s.len(),
{
    if s.len() == 0 {
        -1
    } else if s[0].is_match(f) {
        0
    } else {
        let rest = first_match(s.skip(1), f);
        if rest == -1 {
            -1
        } else {
            rest + 1
        }
    }
}

/// The subsequence of `s` made of the entities that match `f`, in order.
pub open spec fn selected<T: Entity>(s: Seq<T>, f: T::Filter) -> Seq<T>
    decreases s.len(),
{
    if s.len() == 0 {
        Seq::empty()
    } else {
        let rest = selected(s.skip(1), f);
        if s[0].is_match(f) {
            seq![s[0]] + rest
        } else {
            rest
        }
    }
}

/// No two entities of `s` share a primary key.
pub open spec fn unique_keys<T: Entity>(s: Seq<T>) -> bool {
    forall|i: int, j: int|
        0 <= i < s.len() && 0 <= j < s.len() && i != j ==> #[trigger] s[i].key() != #[trigger] s[j].key()
}

/// Some entity of `s` has primary key `k`.
pub open spec fn contains_key<T: Entity>(s: Seq<T>, k: Seq<char>) -> bool {
    exists|i: int| 0 <= i < s.len() && #[trigger] s[i].key() == k
}

/// `f` selects exactly the entities whose primary key is `k`.
pub open spec fn key_selective<T: Entity>(f: T::Filter, k: Seq<char>) -> bool {
    forall|x: T| #[trigger] x.is_match(f) <==> x.key() == k
}

/// How many matches the `skip` option discards.
pub open spec fn skip_of(opts: Option<FindOptions>) -> int {
    match opts {
        Some(o) => match o.skip {
            Some(k) => k as int,
            None => 0,
        },
        None => 0,
    }
}

/// How many matches the `limit` option lets through, of `avail` remaining.
pub open spec fn limit_of(opts: Option<FindOptions>, avail: int) -> int {
    match opts {
        Some(o) => match o.limit {
            Some(l) => if l as int <= avail {
                l as int
            } else {
                avail
            },
            None => avail,
        },
        None => avail,
    }
}

/// The window of `s` that the query options keep.
pub open spec fn apply_options<T>(s: Seq<T>, opts: Option<FindOptions>) -> Seq<T> {
    let start = if skip_of(opts) <= s.len() {
        skip_of(opts)
    } else {
        s.len() as int
    };
    let end = start + limit_of(opts, s.len() - start);
    s.subrange(start, end)
}

pub proof fn lemma_first_match_props<T: Entity>(s: Seq<T>, f: T::Filter)
    ensures
        first_match(s, f) == -1 ==> forall|i: int| 0 <= i < s.len() ==> !(#[trigger] s[i].is_match(f)),
        first_match(s, f) != -1 ==> 0 <= first_match(s, f) < s.len()
            && s[first_match(s, f)].is_match(f)
            && forall|i: int| 0 <= i < first_match(s, f) ==> !(#[trigger] s[i].is_match(f)),
    decreases s.len(),
{
    if s.len() > 0 && !s[0].is_match(f) {
        lemma_first_match_props(s.skip(1), f);
        assert forall|i: int| 1 <= i < s.len() implies s[i] == s.skip(1)[i - 1] by {}
    }
}

pub proof fn lemma_first_match_is<T: Entity>(s: Seq<T>, f: T::Filter, i: int)
    requires
        0 <= i < s.len(),
        s[i].is_match(f),
        forall|j: int| 0 <= j < i ==> !(#[trigger] s[j].is_match(f)),
    ensures
        first_match(s, f) == i,
    decreases i,
{
    if i > 0 {
        lemma_first_match_is(s.skip(1), f, i - 1);
    }
}

pub proof fn lemma_first_match_none<T: Entity>(s: Seq<T>, f: T::Filter)
    requires
        forall|j: int| 0 <= j < s.len() ==> !(#[trigger] s[j].is_match(f)),
    ensures
        first_match(s, f) == -1,
    decreases s.len(),
{
    if s.len() > 0 {
        lemma_first_match_none(s.skip(1), f);
    }
}

/// Extending the collection by one entity extends its selection by that
/// entity exactly when the entity matches.
pub proof fn lemma_selected_push<T: Entity>(s: Seq<T>, x: T, f: T::Filter)
    ensures
        selected(s.push(x), f) == if x.is_match(f) {
            selected(s, f).push(x)
        } else {
            selected(s, f)
        },
    decreases s.len(),
{
    if s.len() == 0 {
        assert(s.push(x).len() == 1);
        assert(s.push(x)[0] == x);
        assert(s.push(x).skip(1) =~= Seq::<T>::empty());
        assert(selected(Seq::<T>::empty(), f) == Seq::<T>::empty());
        assert(selected(s, f) == Seq::<T>::empty());
        if x.is_match(f) {
            assert(selected(s.push(x), f) == seq![x] + Seq::<T>::empty());
            assert(seq![x] + Seq::<T>::empty() =~= selected(s, f).push(x));
        } else {
            assert(selected(s.push(x), f) == Seq::<T>::empty());
        }
    } else {
        assert(s.push(x)[0] == s[0]);
        assert(s.push(x).skip(1) =~= s.skip(1).push(x));
        lemma_selected_push(s.skip(1), x, f);
        assert(selected(s, f) == if s[0].is_match(f) {
            seq![s[0]] + selected(s.skip(1), f)
        } else {
            selected(s.skip(1), f)
        });
        assert(selected(s.push(x), f) == if s[0].is_match(f) {
            seq![s[0]] + selected(s.skip(1).push(x), f)
        } else {
            selected(s.skip(1).push(x), f)
        });
        if x.is_match(f) {
            if s[0].is_match(f) {
                assert(seq![s[0]] + selected(s.skip(1), f).push(x)
                    =~= (seq![s[0]] + selected(s.skip(1), f)).push(x));
            }
        }
    }
}

/// Every entity that `selected` keeps matches the filter and comes from the
/// collection; every matching entity of the collection is kept.
pub proof fn lemma_selected_exact<T: Entity>(s: Seq<T>, f: T::Filter)
    ensures
        forall|i: int| 0 <= i < selected(s, f).len()
            ==> (#[trigger] selected(s, f)[i]).is_match(f) && s.contains(selected(s, f)[i]),
        forall|i: int| 0 <= i < s.len() && (#[trigger] s[i]).is_match(f)
            ==> selected(s, f).contains(s[i]),
    decreases s.len(),
{
    if s.len() > 0 {
        lemma_selected_exact(s.skip(1), f);
        let rest = selected(s.skip(1), f);
        assert forall|i: int| 0 <= i < selected(s, f).len()
            implies (#[trigger] selected(s, f)[i]).is_match(f) && s.contains(selected(s, f)[i]) by {
            if s[0].is_match(f) {
                assert(selected(s, f) == seq![s[0]] + rest);
                if i == 0 {
                    assert(selected(s, f)[0] == s[0]);
                } else {
                    assert(selected(s, f)[i] == rest[i - 1]);
                    let w = choose|w: int| 0 <= w < s.skip(1).len() && s.skip(1)[w] == rest[i - 1];
                    assert(s[w + 1] == s.skip(1)[w]);
                }
            } else {
                assert(selected(s, f)[i] == rest[i]);
                let w = choose|w: int| 0 <= w < s.skip(1).len() && s.skip(1)[w] == rest[i];
                assert(s[w + 1] == s.skip(1)[w]);
            }
        }
        assert forall|i: int| 0 <= i < s.len() && (#[trigger] s[i]).is_match(f)
            implies selected(s, f).contains(s[i]) by {
            if s[0].is_match(f) {
                assert(selected(s, f) == seq![s[0]] + rest);
            }
            if i == 0 {
                assert(s[0].is_match(f));
                assert(selected(s, f)[0] == s[0]);
            } else {
                assert(s.skip(1)[i - 1] == s[i]);
                assert(rest.contains(s[i]));
                let w = choose|w: int| 0 <= w < rest.len() && rest[w] == s[i];
                if s[0].is_match(f) {
                    assert(selected(s, f)[w + 1] == rest[w]);
                } else {
                    assert(selected(s, f)[w] == rest[w]);
                }
            }
        }
    }
}

/// A filter that every entity matches selects the whole collection.
pub proof fn lemma_selected_all<T: Entity>(s: Seq<T>, f: T::Filter)
    requires
        forall|i: int| 0 <= i < s.len() ==> (#[trigger] s[i]).is_match(f),
    ensures
        selected(s, f) == s,
    decreases s.len(),
{
    if s.len() > 0 {
        assert forall|i: int| 0 <= i < s.skip(1).len() implies (#[trigger] s.skip(1)[i]).is_match(f) by {
            assert(s.skip(1)[i] == s[i + 1]);
        }
        lemma_selected_all(s.skip(1), f);
        assert(selected(s, f) == seq![s[0]] + s.skip(1));
        assert(seq![s[0]] + s.skip(1) =~= s);
    }
}

/// Two collections whose entities match `f` at exactly the same positions
/// have the same first match.
pub proof fn lemma_first_match_same<T: Entity>(s1: Seq<T>, s2: Seq<T>, f: T::Filter)
    requires
        s1.len() == s2.len(),
        forall|i: int| 0 <= i < s1.len()
            ==> ((#[trigger] s1[i]).is_match(f) == (#[trigger] s2[i]).is_match(f)),
    ensures
        first_match(s1, f) == first_match(s2, f),
    decreases s1.len(),
{
    if s1.len() > 0 && !s1[0].is_match(f) {
        assert forall|i: int| 0 <= i < s1.skip(1).len()
            implies ((#[trigger] s1.skip(1)[i]).is_match(f) == (#[trigger] s2.skip(1)[i]).is_match(f)) by {
            assert(s1.skip(1)[i] == s1[i + 1]);
            assert(s2.skip(1)[i] == s2[i + 1]);
        }
        lemma_first_match_same(s1.skip(1), s2.skip(1), f);
    }
}

/// Under unique keys, a key-selective filter selects at most one entity:
/// none when it has no match, and exactly the first match otherwise.
pub proof fn lemma_selected_selective<T: Entity>(s: Seq<T>, f: T::Filter, k: Seq<char>)
    requires
        unique_keys(s),
        key_selective::<T>(f, k),
    ensures
        first_match(s, f) == -1 ==> selected(s, f) == Seq::<T>::empty(),
        first_match(s, f) >= 0 ==> selected(s, f) == seq![s[first_match(s, f)]],
    decreases s.len(),
{
    if s.len() > 0 {
        assert forall|i: int, j: int|
            0 <= i < s.skip(1).len() && 0 <= j < s.skip(1).len() && i != j
            implies #[trigger] s.skip(1)[i].key() != #[trigger] s.skip(1)[j].key() by {
            assert(s.skip(1)[i] == s[i + 1]);
            assert(s.skip(1)[j] == s[j + 1]);
        }
        lemma_selected_selective(s.skip(1), f, k);
        lemma_first_match_props(s.skip(1), f);
        assert(selected(s, f) == if s[0].is_match(f) {
            seq![s[0]] + selected(s.skip(1), f)
        } else {
            selected(s.skip(1), f)
        });
        if s[0].is_match(f) {
            assert(s[0].key() == k);
            assert forall|j: int| 0 <= j < s.skip(1).len() implies !(#[trigger] s.skip(1)[j].is_match(f)) by {
                assert(s.skip(1)[j] == s[j + 1]);
                assert(s[j + 1].key() != s[0].key());
            }
            lemma_first_match_none(s.skip(1), f);
            assert(selected(s, f) == seq![s[0]] + Seq::<T>::empty());
            assert(seq![s[0]] + Seq::<T>::empty() =~= seq![s[0]]);
            assert(first_match(s, f) == 0);
        } else {
            let rest = first_match(s.skip(1), f);
            if rest >= 0 {
                assert(s[rest + 1] == s.skip(1)[rest]);
            }
        }
    }
}

/// With no query options, `find` keeps the whole selection.
pub proof fn lemma_apply_options_none<T>(s: Seq<T>)
    ensures
        apply_options(s, None) == s,
{
    assert(s.subrange(0, s.len() as int) =~= s);
}

/// A collection of entities of one type, wrapping the backing store of one
/// named collection. Here the store is held in memory as a vector; the
/// store's primary-key rule is the well-formedness invariant `wf`.
pub struct BaseService<T> {
    docs: Vec<T>,
}

impl<T: Entity> Clone for BaseService<T> {
    /// An exact copy of the collection.
    fn clone(&self) -> (r: Self)
        ensures
            r@ == self@,
    {
        let mut docs: Vec<T> = Vec::new();
        let mut i: usize = 0;
        while i < self.docs.len()
            invariant
                i <= self.docs.len(),
                docs@ == self.docs@.take(i as int),
            decreases self.docs.len() - i,
        {
            docs.push(self.docs[i].copy());
            proof {
                assert(self.docs@.take(i as int + 1)
                    =~= self.docs@.take(i as int).push(self.docs@[i as int]));
            }
            i += 1;
        }
        proof {
            assert(self.docs@.take(self.docs@.len() as int) =~= self.docs@);
        }
        BaseService { docs }
    }
}

impl<T> View for BaseService<T> {
    type V = Seq<T>;

    closed spec fn view(&self) -> Seq<T> {
        self.docs@
    }
}

impl<T: Entity> BaseService<T> {
    /// The store's primary-key rule: no two documents share a key.
    pub open spec fn wf(self) -> bool {
        unique_keys(self@)
    }

    /// A fresh, empty collection.
    pub fn new() -> (s: Self)
        ensures
            s@ == Seq::<T>::empty(),
            s.wf(),
    {
        BaseService { docs: Vec::new() }
    }

    /// Persists one new document. The store refuses a document whose key is
    /// already present (a primary-key collision); otherwise the document is
    /// appended to the collection.
    pub fn insert(&mut self, document: T) -> (r: Result<(), ServiceError>)
        requires
            old(self).wf(),
        ensures
            final(self).wf(),
            contains_key(old(self)@, document.key()) ==> r is Err && r->Err_0 == ServiceError::Store
                && final(self)@ == old(self)@,
            !contains_key(old(self)@, document.key()) ==> r is Ok
                && final(self)@ == old(self)@.push(document),
    {
        let mut i: usize = 0;
        while i < self.docs.len()
            invariant
                old(self).wf(),
                i <= self.docs.len(),
                self == old(self),
                forall|j: int| 0 <= j < i ==> #[trigger] self.docs@[j].key() != document.key(),
            decreases self.docs.len() - i,
        {
            if *self.docs[i].key_ref() == *document.key_ref() {
                return Err(ServiceError::Store);
            }
            i += 1;
        }
        self.docs.push(document);
        Ok(())
    }

    /// Applies a partial update to the first document matching `filter`.
    /// Zero matches is not an error: the collection is simply unchanged.
    pub fn update(&mut self, filter: &T::Filter, update: &T::Update) -> (r: UpdateOutcome)
        requires
            old(self).wf(),
        ensures
            final(self).wf(),
            first_match(old(self)@, *filter) == -1 ==> r.matched == 0 && final(self)@ == old(self)@,
            first_match(old(self)@, *filter) >= 0 ==> ({
                let i = first_match(old(self)@, *filter);
                r.matched == 1 && final(self)@ == old(self)@.update(i, old(self)@[i].applied(*update))
            }),
    {
        let mut i: usize = 0;
        while i < self.docs.len()
            invariant
                old(self).wf(),
                i <= self.docs.len(),
                self == old(self),
                forall|j: int| 0 <= j < i ==> !(#[trigger] self.docs@[j].is_match(*filter)),
            decreases self.docs.len() - i,
        {
            if self.docs[i].check_match(filter) {
                let updated = self.docs[i].apply(update);
                proof {
                    lemma_first_match_is(self.docs@, *filter, i as int);
                    old(self)@[i as int].lemma_applied_key(*update);
                }
                self.docs.set(i, updated);
                proof {
                    assert forall|a: int, b: int|
                        0 <= a < self.docs@.len() && 0 <= b < self.docs@.len() && a != b
                        implies #[trigger] self.docs@[a].key() != #[trigger] self.docs@[b].key() by {
                        assert(self.docs@[a].key() == old(self)@[a].key());
                        assert(self.docs@[b].key() == old(self)@[b].key());
                    }
                }
                return UpdateOutcome { matched: 1 };
            }
            i += 1;
        }
        proof {
            lemma_first_match_none(self.docs@, *filter);
        }
        UpdateOutcome { matched: 0 }
    }

    /// Removes the first document matching `filter`. Zero matches is not an
    /// error: the collection is simply unchanged.
    pub fn delete(&mut self, filter: &T::Filter) -> (r: DeleteOutcome)
        requires
            old(self).wf(),
        ensures
            final(self).wf(),
            first_match(old(self)@, *filter) == -1 ==> r.deleted == 0 && final(self)@ == old(self)@,
            first_match(old(self)@, *filter) >= 0 ==> r.deleted == 1
                && final(self)@ == old(self)@.remove(first_match(old(self)@, *filter)),
    {
        let mut i: usize = 0;
        while i < self.docs.len()
            invariant
                old(self).wf(),
                i <= self.docs.len(),
                self == old(self),
                forall|j: int| 0 <= j < i ==> !(#[trigger] self.docs@[j].is_match(*filter)),
            decreases self.docs.len() - i,
        {
            if self.docs[i].check_match(filter) {
                proof {
                    lemma_first_match_is(self.docs@, *filter, i as int);
                }
                self.docs.remove(i);
                proof {
                    assert forall|a: int, b: int|
                        0 <= a < self.docs@.len() && 0 <= b < self.docs@.len() && a != b
                        implies #[trigger] self.docs@[a].key() != #[trigger] self.docs@[b].key() by {
                        let a0 = if a < i as int { a } else { a + 1 };
                        let b0 = if b < i as int { b } else { b + 1 };
                        assert(self.docs@[a] == old(self)@[a0]);
                        assert(self.docs@[b] == old(self)@[b0]);
                    }
                }
                return DeleteOutcome { deleted: 1 };
            }
            i += 1;
        }
        proof {
            lemma_first_match_none(self.docs@, *filter);
        }
        DeleteOutcome { deleted: 0 }
    }

    /// Returns every document matching `filter`, in collection order,
    /// honoring the optional skip and limit query options.
    pub fn find(&self, filter: &T::Filter, opts: Option<FindOptions>) -> (r: Vec<T>)
        ensures
            r@ == apply_options(selected(self@, *filter), opts),
    {
        let mut matched: Vec<T> = Vec::new();
        let mut i: usize = 0;
        while i < self.docs.len()
            invariant
                i <= self.docs.len(),
                matched@ == selected(self.docs@.take(i as int), *filter),
            decreases self.docs.len() - i,
        {
            proof {
                lemma_selected_push(self.docs@.take(i as int), self.docs@[i as int], *filter);
                assert(self.docs@.take(i as int + 1)
                    =~= self.docs@.take(i as int).push(self.docs@[i as int]));
            }
            if self.docs[i].check_match(filter) {
                matched.push(self.docs[i].copy());
            }
            i += 1;
        }
        proof {
            assert(self.docs@.take(self.docs@.len() as int) =~= self.docs@);
        }
        let total = matched.len();
        let start = match opts {
            Some(o) => match o.skip {
                Some(k) => if k <= total {
                    k
                } else {
                    total
                },
                None => 0,
            },
            None => 0,
        };
        let count = match opts {
            Some(o) => match o.limit {
                Some(l) => if l <= total - start {
                    l
                } else {
                    total - start
                },
                None => total - start,
            },
            None => total - start,
        };
        let end = start + count;
        let mut out: Vec<T> = Vec::new();
        let mut j: usize = start;
        while j < end
            invariant
                start <= j <= end,
                end <= matched@.len(),
                out@ == matched@.subrange(start as int, j as int),
            decreases end - j,
        {
            out.push(matched[j].copy());
            proof {
                assert(matched@.subrange(start as int, j as int + 1)
                    =~= matched@.subrange(start as int, j as int).push(matched@[j as int]));
            }
            j += 1;
        }
        out
    }
}

} // verus!
