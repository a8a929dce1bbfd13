//! The user service: the four use cases (create, search, update, delete)
//! composed from the generic data-access layer.
//!
//! Each use case translates its request object into filter and update
//! documents and forwards them to the data-access layer. The service holds no
//! state of its own beyond the collection; its well-formedness is the store's
//! primary-key rule. Where the target of an update or delete does not exist,
//! the service answers with an explicit `NotFound` error rather than reading
//! an element of an empty result.

use vstd::prelude::*;

use crate::store::{
    apply_options, contains_key, first_match, key_selective, lemma_apply_options_none,
    lemma_first_match_props, lemma_first_match_same, lemma_selected_selective, selected,
    unique_keys, BaseService, Entity, FindOptions, ServiceError,
};
use crate::user::{
    id_filter, id_filter_spec, search_filter, search_filter_spec, update_doc, update_doc_spec,
    CreateUserReq, DeleteUserReq, SearchUsersReq, UpdateUserReq, User,
};

verus! {

/// The index of the record with identifier `id`, or -1 if none is stored.
pub open spec fn idx_of_id(s: Seq<User>, id: String) -> int {
    first_match(s, id_filter_spec(id))
}

/// Whether `u` satisfies the equality constraints that the search use case
/// builds from `req`: present name and email must be equal; the request's
/// `id` field is not wired into the filter.
pub open spec fn search_matches(u: User, req: SearchUsersReq) -> bool {
    &&& (req.name is Some ==> u.name@ == req.name->0@)
    &&& (req.email is Some ==> u.email@ == req.email->0@)
}

/// The records that the search use case selects from `s`, in store order,
/// before query options are applied.
pub open spec fn search_results(s: Seq<User>, req: SearchUsersReq) -> Seq<User> {
    selected(s, search_filter_spec(req))
}

/// The store after the update use case runs against `s` with `req`: the
/// record with the requested identifier is partially rewritten, or nothing
/// changes when no record has it.
pub open spec fn updated_store(s: Seq<User>, req: UpdateUserReq) -> Seq<User> {
    let i = idx_of_id(s, req.id);
    if i == -1 {
        s
    } else {
        s.update(i, s[i].applied(update_doc_spec(req)))
    }
}

/// The store after the delete use case removes identifier `id` from `s`, or
/// `s` itself when no record has it.
pub open spec fn deleted_store(s: Seq<User>, id: String) -> Seq<User> {
    let i = idx_of_id(s, id);
    if i == -1 {
        s
    } else {
        s.remove(i)
    }
}

/// The filter on one identifier selects exactly the records carrying that
/// identifier as their primary key.
pub proof fn lemma_id_filter_selective(id: String)
    ensures
        key_selective::<User>(id_filter_spec(id), id@),
{
    assert forall|u: User| #[trigger] u.is_match(id_filter_spec(id)) <==> u.key() == id@ by {}
}

/// A record with identifier `id` is stored exactly when `idx_of_id` finds
/// one.
pub proof fn lemma_idx_of_id_contains(s: Seq<User>, id: String)
    ensures
        (idx_of_id(s, id) == -1) <==> !contains_key(s, id@),
        idx_of_id(s, id) != -1 ==> 0 <= idx_of_id(s, id) < s.len() && s[idx_of_id(s, id)].id@ == id@,
{
    lemma_id_filter_selective(id);
    lemma_first_match_props(s, id_filter_spec(id));
    if contains_key(s, id@) {
        let w = choose|i: int| 0 <= i < s.len() && #[trigger] s[i].key() == id@;
        assert(s[w].is_match(id_filter_spec(id)));
    }
}

/// The hardened access to "the first match" of a result sequence: an empty
/// result becomes an explicit `NotFound` error rather than an out-of-bounds
/// access.
pub fn first_or_not_found(users: Vec<User>) -> (r: Result<User, ServiceError>)
    ensures
        users@.len() == 0 ==> r is Err && r->Err_0 == ServiceError::NotFound,
        users@.len() > 0 ==> r is Ok && r->Ok_0 == users@[0],
{
    let mut users = users;
    if users.len() == 0 {
        Err(ServiceError::NotFound)
    } else {
        Ok(users.remove(0))
    }
}

/// The user service over one collection of `User` records.
pub struct UserService {
    base: BaseService<User>,
}

impl Clone for UserService {
    /// An exact copy of the service's collection.
    fn clone(&self) -> (r: Self)
        ensures
            r@ == self@,
    {
        UserService { base: self.base.clone() }
    }
}

impl View for UserService {
    type V = Seq<User>;

    closed spec fn view(&self) -> Seq<User> {
        self.base@
    }
}

impl UserService {
    /// The store's primary-key rule: no two stored users share an id.
    pub open spec fn wf(self) -> bool {
        unique_keys(self@)
    }

    /// A service over a fresh, empty collection.
    pub fn new() -> (s: UserService)
        ensures
            s@ == Seq::<User>::empty(),
            s.wf(),
    {
        UserService { base: BaseService::new() }
    }

    /// Creates a user with the given identifier and the request's fields:
    /// the insert decision for one candidate identifier, whatever its
    /// origin. Succeeds exactly when no stored record carries the identifier
    /// already; the store refuses the insert otherwise, and no state
    /// changes.
    pub fn create_user_with_id(&mut self, id: String, req: CreateUserReq) -> (r: Result<
        User,
        ServiceError,
    >)
        requires
            old(self).wf(),
        ensures
            final(self).wf(),
            idx_of_id(old(self)@, id) == -1 ==> r is Ok
                && r->Ok_0 == (User {
                    id: id,
                    name: req.name,
                    email: req.email,
                    password: req.password,
                })
                && final(self)@ == old(self)@.push(r->Ok_0),
            idx_of_id(old(self)@, id) != -1 ==> r is Err && r->Err_0 == ServiceError::Store
                && final(self)@ == old(self)@,
    {
        let user = User { id, name: req.name, email: req.email, password: req.password };
        proof {
            lemma_idx_of_id_contains(old(self)@, user.id);
        }
        match self.base.insert(user.copy()) {
            Ok(_) => Ok(user),
            Err(e) => Err(e),
        }
    }

    /// Creates a user with a freshly generated identifier and the request's
    /// fields, inserts it, and returns the constructed entity (not a
    /// re-read) on confirmed insert success. The store refuses the insert
    /// only when the generated identifier collides with a stored one, so a
    /// returned user's identifier is new to the store and an empty store
    /// always succeeds; on failure no state changes.
    pub fn create_user(&mut self, req: CreateUserReq) -> (r: Result<User, ServiceError>)
        requires
            old(self).wf(),
        ensures
            final(self).wf(),
            r is Ok ==> r->Ok_0.id@.len() == 36
                && r->Ok_0.name == req.name
                && r->Ok_0.email == req.email
                && r->Ok_0.password == req.password
                && idx_of_id(old(self)@, r->Ok_0.id) == -1
                && final(self)@ == old(self)@.push(r->Ok_0),
            r is Err ==> r->Err_0 == ServiceError::Store && final(self)@ == old(self)@,
            old(self)@.len() == 0 ==> r is Ok,
    {
        let id = crate::user::generate_id();
        self.create_user_with_id(id, req)
    }

    /// Returns every stored user matching the request's present fields, in
    /// store order, honoring the optional query options. Absent fields impose
    /// no constraint; a request with none returns all users.
    pub fn search_users(&self, req: SearchUsersReq, options: Option<FindOptions>) -> (r: Result<
        Vec<User>,
        ServiceError,
    >)
        ensures
            r is Ok,
            r->Ok_0@ == apply_options(search_results(self@, req), options),
    {
        let filter = search_filter(req);
        Ok(self.base.find(&filter, options))
    }

    /// Applies the request's partial update to the record with the requested
    /// identifier, re-reads it by the same filter, and returns the resulting
    /// record. When no record has that identifier, returns `NotFound` and
    /// changes nothing; a no-op update of an existing record still succeeds.
    pub fn update_user(&mut self, req: UpdateUserReq) -> (r: Result<User, ServiceError>)
        requires
            old(self).wf(),
        ensures
            final(self).wf(),
            final(self)@ == updated_store(old(self)@, req),
            idx_of_id(old(self)@, req.id) == -1 ==> r is Err && r->Err_0 == ServiceError::NotFound,
            idx_of_id(old(self)@, req.id) >= 0 ==> r is Ok
                && r->Ok_0 == old(self)@[idx_of_id(old(self)@, req.id)].applied(update_doc_spec(req)),
    {
        let filter = id_filter(&req.id);
        let update = update_doc(&req);
        let _outcome = self.base.update(&filter, &update);
        proof {
            let f = id_filter_spec(req.id);
            let i = first_match(old(self)@, f);
            lemma_id_filter_selective(req.id);
            lemma_first_match_props(old(self)@, f);
            if i >= 0 {
                assert forall|j: int| 0 <= j < old(self)@.len()
                    implies ((#[trigger] old(self)@[j].is_match(f)) == (#[trigger] self@[j].is_match(f))) by {
                    if j == i {
                        assert(self@[j].key() == old(self)@[j].key());
                    }
                }
                lemma_first_match_same(old(self)@, self@, f);
            }
            lemma_selected_selective(self@, f, req.id@);
            lemma_apply_options_none(selected(self@, f));
        }
        let found = self.base.find(&filter, None);
        first_or_not_found(found)
    }

    /// Reads the record with the requested identifier (to return its
    /// pre-deletion value), then deletes it by the same filter. When no
    /// record has that identifier, returns `NotFound` and changes nothing.
    pub fn delete_user(&mut self, req: DeleteUserReq) -> (r: Result<User, ServiceError>)
        requires
            old(self).wf(),
        ensures
            final(self).wf(),
            final(self)@ == deleted_store(old(self)@, req.id),
            idx_of_id(old(self)@, req.id) == -1 ==> r is Err && r->Err_0 == ServiceError::NotFound,
            idx_of_id(old(self)@, req.id) >= 0 ==> r is Ok
                && r->Ok_0 == old(self)@[idx_of_id(old(self)@, req.id)],
    {
        let filter = id_filter(&req.id);
        proof {
            lemma_id_filter_selective(req.id);
            lemma_first_match_props(old(self)@, id_filter_spec(req.id));
            lemma_selected_selective(old(self)@, id_filter_spec(req.id), req.id@);
            lemma_apply_options_none(selected(old(self)@, id_filter_spec(req.id)));
        }
        let found = self.base.find(&filter, None);
        match first_or_not_found(found) {
            Ok(user) => {
                let _outcome = self.base.delete(&filter);
                Ok(user)
            },
            Err(e) => Err(e),
        }
    }
}

/// The bundle of entity services handed to the surrounding request handlers.
pub struct ServiceContainer {
    pub user_svc: UserService,
}

impl Clone for ServiceContainer {
    /// An exact copy of each held service's collection.
    fn clone(&self) -> (r: Self)
        ensures
            r.user_svc@ == self.user_svc@,
    {
        ServiceContainer { user_svc: self.user_svc.clone() }
    }
}

} // verus!
