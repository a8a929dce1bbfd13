//! The user entity, its request objects, and its filter and update documents.
//!
//! A `User` is the sole persisted entity: an opaque unique identifier
//! generated at creation, plus name, email and password. `UserFilter` is a
//! sparse equality filter (present fields are combined with logical AND) and
//! `UserUpdate` a sparse partial update (present fields are overwritten,
//! absent fields untouched, the identifier never). The request objects carry
//! the caller's input for the four use cases.

use vstd::prelude::*;

use crate::store::Entity;

verus! {

/// The persisted user entity. The identifier is the store's primary key,
/// generated at creation and immutable afterwards; the password is stored as
/// provided.
#[derive(Debug, PartialEq, Eq)]
pub struct User {
    pub id: String,
    pub name: String,
    pub email: String,
    pub password: String,
}

/// A sparse equality filter over user fields: each present field must be
/// equal, absent fields impose no constraint, and present fields combine
/// with logical AND.
#[derive(Debug)]
pub struct UserFilter {
    pub id: Option<String>,
    pub name: Option<String>,
    pub email: Option<String>,
}

/// A sparse partial update over user fields: each present field is written,
/// absent fields are untouched. The identifier cannot be updated.
#[derive(Debug)]
pub struct UserUpdate {
    pub name: Option<String>,
    pub email: Option<String>,
    pub password: Option<String>,
}

/// The input of the create use case: all fields are required.
#[derive(Debug)]
pub struct CreateUserReq {
    pub name: String,
    pub email: String,
    pub password: String,
}

/// The input of the search use case: each present field becomes an equality
/// constraint. The `id` field is declared but deliberately not wired into
/// the filter that `search_users` builds; see `search_filter`.
#[derive(Debug)]
pub struct SearchUsersReq {
    pub id: Option<String>,
    pub name: Option<String>,
    pub email: Option<String>,
}

/// The input of the update use case: `id` selects the target record, the
/// optional fields are the partial update.
#[derive(Debug)]
pub struct UpdateUserReq {
    pub id: String,
    pub name: Option<String>,
    pub email: Option<String>,
    pub password: Option<String>,
}

/// The input of the delete use case.
#[derive(Debug)]
pub struct DeleteUserReq {
    pub id: String,
}

/// Relies on uuid::Uuid::new_v4 and the Display impl behind Uuid::to_string:
/// a fresh random version-4 UUID, rendered in the hyphenated form, which is
/// always 36 characters long. The value is random, so nothing more is
/// promised of it.
#[verifier::external_body]
pub(crate) fn generate_id() -> (r: String)
    ensures
        r@.len() == 36,
{
    uuid::Uuid::new_v4().to_string()
}

impl User {
    /// A new user with a freshly generated identifier and the given fields.
    pub fn new(name: String, email: String, password: String) -> (u: User)
        ensures
            u.id@.len() == 36,
            u.name == name,
            u.email == email,
            u.password == password,
    {
        User { id: generate_id(), name, email, password }
    }
}

impl Clone for User {
    fn clone(&self) -> (r: User)
        ensures
            r == *self,
    {
        User {
            id: self.id.clone(),
            name: self.name.clone(),
            email: self.email.clone(),
            password: self.password.clone(),
        }
    }
}

impl Entity for User {
    type Filter = UserFilter;

    type Update = UserUpdate;

    open spec fn key(self) -> Seq<char> {
        self.id@
    }

    open spec fn is_match(self, f: UserFilter) -> bool {
        &&& (f.id is Some ==> self.id@ == f.id->0@)
        &&& (f.name is Some ==> self.name@ == f.name->0@)
        &&& (f.email is Some ==> self.email@ == f.email->0@)
    }

    open spec fn applied(self, u: UserUpdate) -> User {
        User {
            id: self.id,
            name: if u.name is Some {
                u.name->0
            } else {
                self.name
            },
            email: if u.email is Some {
                u.email->0
            } else {
                self.email
            },
            password: if u.password is Some {
                u.password->0
            } else {
                self.password
            },
        }
    }

    proof fn lemma_applied_key(self, u: UserUpdate) {
    }

    fn key_ref(&self) -> (r: &String) {
        &self.id
    }

    fn check_match(&self, f: &UserFilter) -> (r: bool) {
        let id_ok = match &f.id {
            Some(v) => *v == self.id,
            None => true,
        };
        let name_ok = match &f.name {
            Some(v) => *v == self.name,
            None => true,
        };
        let email_ok = match &f.email {
            Some(v) => *v == self.email,
            None => true,
        };
        id_ok && name_ok && email_ok
    }

    fn apply(&self, u: &UserUpdate) -> (r: User) {
        User {
            id: self.id.clone(),
            name: match &u.name {
                Some(v) => v.clone(),
                None => self.name.clone(),
            },
            email: match &u.email {
                Some(v) => v.clone(),
                None => self.email.clone(),
            },
            password: match &u.password {
                Some(v) => v.clone(),
                None => self.password.clone(),
            },
        }
    }

    fn copy(&self) -> (r: User) {
        self.clone()
    }
}

impl Clone for CreateUserReq {
    fn clone(&self) -> (r: CreateUserReq)
        ensures
            r == *self,
    {
        CreateUserReq {
            name: self.name.clone(),
            email: self.email.clone(),
            password: self.password.clone(),
        }
    }
}

impl Clone for SearchUsersReq {
    fn clone(&self) -> (r: SearchUsersReq)
        ensures
            r == *self,
    {
        SearchUsersReq {
            id: clone_opt(&self.id),
            name: clone_opt(&self.name),
            email: clone_opt(&self.email),
        }
    }
}

impl Clone for UpdateUserReq {
    fn clone(&self) -> (r: UpdateUserReq)
        ensures
            r == *self,
    {
        UpdateUserReq {
            id: self.id.clone(),
            name: clone_opt(&self.name),
            email: clone_opt(&self.email),
            password: clone_opt(&self.password),
        }
    }
}

impl Clone for DeleteUserReq {
    fn clone(&self) -> (r: DeleteUserReq)
        ensures
            r == *self,
    {
        DeleteUserReq { id: self.id.clone() }
    }
}

/// An exact copy of an optional string field.
fn clone_opt(o: &Option<String>) -> (r: Option<String>)
    ensures
        r == *o,
{
    match o {
        Some(v) => Some(v.clone()),
        None => None,
    }
}

/// The filter that selects exactly the record with identifier `id`.
pub open spec fn id_filter_spec(id: String) -> UserFilter {
    UserFilter { id: Some(id), name: None, email: None }
}

/// Builds `id_filter_spec` in executable code.
pub fn id_filter(id: &String) -> (f: UserFilter)
    ensures
        f == id_filter_spec(*id),
{
    UserFilter { id: Some(id.clone()), name: None, email: None }
}

/// The filter that the search use case builds from a request: whichever of
/// name and email are present become equality constraints. The request's
/// `id` field is deliberately left out, as the filter-building logic never
/// wired it in; whether that is intended is an open question, so the
/// behavior is kept rather than guessed at.
pub open spec fn search_filter_spec(req: SearchUsersReq) -> UserFilter {
    UserFilter { id: None, name: req.name, email: req.email }
}

/// Builds `search_filter_spec` in executable code, consuming the request.
pub fn search_filter(req: SearchUsersReq) -> (f: UserFilter)
    ensures
        f == search_filter_spec(req),
{
    UserFilter { id: None, name: req.name, email: req.email }
}

/// The partial-update document that the update use case builds from a
/// request: whichever of name, email and password are present are written.
pub open spec fn update_doc_spec(req: UpdateUserReq) -> UserUpdate {
    UserUpdate { name: req.name, email: req.email, password: req.password }
}

/// Builds `update_doc_spec` in executable code.
pub fn update_doc(req: &UpdateUserReq) -> (u: UserUpdate)
    ensures
        u == update_doc_spec(*req),
{
    UserUpdate {
        name: match &req.name {
            Some(v) => Some(v.clone()),
            None => None,
        },
        email: match &req.email {
            Some(v) => Some(v.clone()),
            None => None,
        },
        password: match &req.password {
            Some(v) => Some(v.clone()),
            None => None,
        },
    }
}

} // verus!
