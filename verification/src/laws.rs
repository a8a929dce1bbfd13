//! The properties that hold of the user service, stated over the store model
//! and proved: what search returns, that updates are idempotent and touch
//! only the requested fields, that deletes remove the identifier, and that a
//! created record is found again.

use vstd::prelude::*;

use crate::service::{
    deleted_store, idx_of_id, lemma_id_filter_selective, search_matches, search_results,
    updated_store,
};
use crate::store::{
    lemma_first_match_none, lemma_first_match_props, lemma_first_match_same, lemma_selected_all,
    lemma_selected_exact, lemma_selected_push, selected, unique_keys, Entity,
};
use crate::user::{
    id_filter_spec, search_filter_spec, update_doc_spec, SearchUsersReq, UpdateUserReq, User,
};

verus! {

/// Search returns exactly the matching records: every returned record
/// satisfies the request's constraints and comes from the store, and every
/// stored record satisfying them is returned. A request constraining both
/// name and email thus returns only records matching both.
pub proof fn lemma_search_exact(s: Seq<User>, req: SearchUsersReq)
    ensures
        forall|i: int| 0 <= i < search_results(s, req).len()
            ==> search_matches(#[trigger] search_results(s, req)[i], req)
                && s.contains(search_results(s, req)[i]),
        forall|i: int| 0 <= i < s.len() && search_matches(#[trigger] s[i], req)
            ==> search_results(s, req).contains(s[i]),
{
    let f = search_filter_spec(req);
    lemma_selected_exact(s, f);
    assert forall|i: int| 0 <= i < search_results(s, req).len()
        implies search_matches(#[trigger] search_results(s, req)[i], req)
            && s.contains(search_results(s, req)[i]) by {
        assert(selected(s, f)[i].is_match(f));
    }
    assert forall|i: int| 0 <= i < s.len() && search_matches(#[trigger] s[i], req)
        implies search_results(s, req).contains(s[i]) by {
        assert(s[i].is_match(f));
    }
}

/// A search request with no fields set constrains nothing, so it returns
/// the whole store.
pub proof fn lemma_search_no_filter(s: Seq<User>, req: SearchUsersReq)
    requires
        req.name is None,
        req.email is None,
    ensures
        search_results(s, req) == s,
{
    let f = search_filter_spec(req);
    assert forall|i: int| 0 <= i < s.len() implies (#[trigger] s[i]).is_match(f) by {}
    lemma_selected_all(s, f);
}

/// An update request with only the name present changes the name and leaves
/// the identifier, email and password of the record unchanged.
pub proof fn lemma_update_name_only(u: User, req: UpdateUserReq)
    requires
        req.name is Some,
        req.email is None,
        req.password is None,
    ensures
        u.applied(update_doc_spec(req)).name == req.name->0,
        u.applied(update_doc_spec(req)).email == u.email,
        u.applied(update_doc_spec(req)).password == u.password,
        u.applied(update_doc_spec(req)).id == u.id,
{
}

/// Applying the same update twice is idempotent: the second run targets the
/// same record, leaves the store exactly as the first run left it, and
/// returns the same resulting record.
pub proof fn lemma_update_idempotent(s: Seq<User>, req: UpdateUserReq)
    ensures
        idx_of_id(updated_store(s, req), req.id) == idx_of_id(s, req.id),
        updated_store(updated_store(s, req), req) == updated_store(s, req),
        idx_of_id(s, req.id) >= 0
            ==> updated_store(s, req)[idx_of_id(s, req.id)].applied(update_doc_spec(req))
                == s[idx_of_id(s, req.id)].applied(update_doc_spec(req)),
{
    let f = id_filter_spec(req.id);
    let i = idx_of_id(s, req.id);
    lemma_first_match_props(s, f);
    if i != -1 {
        let d = update_doc_spec(req);
        let s1 = updated_store(s, req);
        lemma_id_filter_selective(req.id);
        assert forall|j: int| 0 <= j < s.len()
            implies ((#[trigger] s[j].is_match(f)) == (#[trigger] s1[j].is_match(f))) by {
            if j == i {
                assert(s1[j].key() == s[j].key());
            }
        }
        lemma_first_match_same(s, s1, f);
        assert(s1[i] == s[i].applied(d));
        assert(s1[i].applied(d) == s[i].applied(d));
        assert(updated_store(s1, req) =~= s1);
    }
}

/// After a delete of identifier `id`, no stored record carries it: neither
/// an id lookup nor a full scan finds it again.
pub proof fn lemma_delete_removes_id(s: Seq<User>, id: String)
    requires
        unique_keys(s),
    ensures
        idx_of_id(deleted_store(s, id), id) == -1,
        forall|j: int| 0 <= j < deleted_store(s, id).len()
            ==> (#[trigger] deleted_store(s, id)[j]).id@ != id@,
{
    let f = id_filter_spec(id);
    let i = idx_of_id(s, id);
    let t = deleted_store(s, id);
    lemma_id_filter_selective(id);
    lemma_first_match_props(s, f);
    if i == -1 {
        assert forall|j: int| 0 <= j < t.len() implies (#[trigger] t[j]).id@ != id@ by {
            assert(!s[j].is_match(f));
        }
    } else {
        assert forall|j: int| 0 <= j < t.len() implies !(#[trigger] t[j].is_match(f)) by {
            let j0 = if j < i {
                j
            } else {
                j + 1
            };
            assert(t[j] == s[j0]);
            assert(s[j0].key() != s[i].key());
        }
        lemma_first_match_none(t, f);
        assert forall|j: int| 0 <= j < t.len() implies (#[trigger] t[j]).id@ != id@ by {
            assert(!t[j].is_match(f));
        }
    }
}

/// A freshly created record's identifier differs from the identifier of
/// every record that was already stored.
pub proof fn lemma_created_id_fresh(s: Seq<User>, u: User)
    requires
        idx_of_id(s, u.id) == -1,
    ensures
        forall|j: int| 0 <= j < s.len() ==> (#[trigger] s[j]).id@ != u.id@,
{
    lemma_id_filter_selective(u.id);
    lemma_first_match_props(s, id_filter_spec(u.id));
    assert forall|j: int| 0 <= j < s.len() implies (#[trigger] s[j]).id@ != u.id@ by {
        assert(!s[j].is_match(id_filter_spec(u.id)));
    }
}

/// Round trip: after a create, a search for the created record's name and
/// email returns what it returned before, plus the created record itself,
/// structurally equal, as the last element.
pub proof fn lemma_create_then_search(s: Seq<User>, u: User, req: SearchUsersReq)
    requires
        req.name is Some,
        req.name->0@ == u.name@,
        req.email is Some,
        req.email->0@ == u.email@,
    ensures
        search_results(s.push(u), req) == search_results(s, req).push(u),
{
    lemma_selected_push(s, u, search_filter_spec(req));
}

} // verus!
