use user_store::service::{first_or_not_found, ServiceContainer, UserService};
use user_store::store::{FindOptions, ServiceError};
use user_store::user::{CreateUserReq, DeleteUserReq, SearchUsersReq, UpdateUserReq, User};

fn create_req(name: &str, email: &str, password: &str) -> CreateUserReq {
    CreateUserReq { name: name.to_string(), email: email.to_string(), password: password.to_string() }
}

fn search_req(id: Option<&str>, name: Option<&str>, email: Option<&str>) -> SearchUsersReq {
    SearchUsersReq {
        id: id.map(|s| s.to_string()),
        name: name.map(|s| s.to_string()),
        email: email.map(|s| s.to_string()),
    }
}

#[test]
fn create_returns_fields_and_generated_id() {
    let mut svc = UserService::new();
    let user = svc.create_user(create_req("Ann", "ann@x.com", "p1")).unwrap();
    assert_eq!(user.name, "Ann");
    assert_eq!(user.email, "ann@x.com");
    assert_eq!(user.password, "p1");
    assert_eq!(user.id.len(), 36);
    assert!(!user.id.is_empty());
}

#[test]
fn created_ids_are_unique() {
    let mut svc = UserService::new();
    let a = svc.create_user(create_req("Ann", "ann@x.com", "p1")).unwrap();
    let b = svc.create_user(create_req("Ann", "ann@x.com", "p1")).unwrap();
    let c = svc.create_user(create_req("Ann", "ann@x.com", "p1")).unwrap();
    assert_ne!(a.id, b.id);
    assert_ne!(a.id, c.id);
    assert_ne!(b.id, c.id);
}

#[test]
fn create_with_existing_id_is_store_error() {
    let mut svc = UserService::new();
    let first = svc.create_user_with_id("u1".to_string(), create_req("Ann", "ann@x.com", "p1"));
    assert!(first.is_ok());
    let second = svc.create_user_with_id("u1".to_string(), create_req("Bob", "bob@x.com", "p2"));
    assert_eq!(second.unwrap_err(), ServiceError::Store);
    // the failed insert left the store unchanged
    let all = svc.search_users(search_req(None, None, None), None).unwrap();
    assert_eq!(all.len(), 1);
    assert_eq!(all[0].name, "Ann");
}

#[test]
fn search_by_name_returns_exactly_matching() {
    let mut svc = UserService::new();
    let ann1 = svc.create_user(create_req("Ann", "ann@x.com", "p1")).unwrap();
    svc.create_user(create_req("Bob", "bob@x.com", "p2")).unwrap();
    let ann2 = svc.create_user(create_req("Ann", "ann2@x.com", "p3")).unwrap();

    let found = svc.search_users(search_req(None, Some("Ann"), None), None).unwrap();
    assert_eq!(found.len(), 2);
    assert!(found.iter().all(|u| u.name == "Ann"));
    assert!(found.iter().any(|u| u.id == ann1.id));
    assert!(found.iter().any(|u| u.id == ann2.id));

    let none = svc.search_users(search_req(None, Some("Zed"), None), None).unwrap();
    assert!(none.is_empty());
}

#[test]
fn search_without_fields_returns_all() {
    let mut svc = UserService::new();
    svc.create_user(create_req("Ann", "ann@x.com", "p1")).unwrap();
    svc.create_user(create_req("Bob", "bob@x.com", "p2")).unwrap();
    svc.create_user(create_req("Cid", "cid@x.com", "p3")).unwrap();
    let all = svc.search_users(search_req(None, None, None), None).unwrap();
    assert_eq!(all.len(), 3);
}

#[test]
fn search_by_name_and_email_returns_users_matching_both() {
    let mut svc = UserService::new();
    let target = svc.create_user(create_req("Ann", "ann@x.com", "p1")).unwrap();
    svc.create_user(create_req("Ann", "ann2@x.com", "p2")).unwrap();
    svc.create_user(create_req("Bob", "ann@x.com", "p3")).unwrap();
    let found = svc.search_users(search_req(None, Some("Ann"), Some("ann@x.com")), None).unwrap();
    assert_eq!(found.len(), 1);
    assert_eq!(found[0], target);
}

#[test]
fn search_does_not_filter_by_id() {
    // The request's id field is declared but not wired into the filter, so a
    // search constrained only by id still returns every user.
    let mut svc = UserService::new();
    let a = svc.create_user(create_req("Ann", "ann@x.com", "p1")).unwrap();
    svc.create_user(create_req("Bob", "bob@x.com", "p2")).unwrap();
    let found = svc.search_users(search_req(Some(a.id.as_str()), None, None), None).unwrap();
    assert_eq!(found.len(), 2);
}

#[test]
fn search_honors_skip_and_limit() {
    let mut svc = UserService::new();
    let mut ids: Vec<String> = Vec::new();
    for email in ["a@x.com", "b@x.com", "c@x.com", "d@x.com"] {
        ids.push(svc.create_user(create_req("Ann", email, "p")).unwrap().id);
    }
    let opts = FindOptions { skip: Some(1), limit: Some(2) };
    let found = svc.search_users(search_req(None, Some("Ann"), None), Some(opts)).unwrap();
    assert_eq!(found.len(), 2);
    assert_eq!(found[0].email, "b@x.com");
    assert_eq!(found[1].email, "c@x.com");
}

#[test]
fn update_name_only_leaves_other_fields() {
    let mut svc = UserService::new();
    let user = svc.create_user(create_req("Ann", "ann@x.com", "p1")).unwrap();
    let updated = svc
        .update_user(UpdateUserReq {
            id: user.id.clone(),
            name: Some("Anna".to_string()),
            email: None,
            password: None,
        })
        .unwrap();
    assert_eq!(updated.id, user.id);
    assert_eq!(updated.name, "Anna");
    assert_eq!(updated.email, "ann@x.com");
    assert_eq!(updated.password, "p1");
}

#[test]
fn update_twice_with_same_payload_is_idempotent() {
    let mut svc = UserService::new();
    let user = svc.create_user(create_req("Ann", "ann@x.com", "p1")).unwrap();
    let req = UpdateUserReq {
        id: user.id.clone(),
        name: Some("Anna".to_string()),
        email: None,
        password: None,
    };
    let once = svc.update_user(req.clone()).unwrap();
    let after_once = svc.search_users(search_req(None, None, None), None).unwrap();
    let twice = svc.update_user(req).unwrap();
    let after_twice = svc.search_users(search_req(None, None, None), None).unwrap();
    assert_eq!(once, twice);
    assert_eq!(after_once, after_twice);
}

#[test]
fn update_missing_id_is_not_found() {
    let mut svc = UserService::new();
    svc.create_user(create_req("Ann", "ann@x.com", "p1")).unwrap();
    let r = svc.update_user(UpdateUserReq {
        id: "no-such-id".to_string(),
        name: Some("Anna".to_string()),
        email: None,
        password: None,
    });
    assert_eq!(r.unwrap_err(), ServiceError::NotFound);
    // nothing changed
    let all = svc.search_users(search_req(None, None, None), None).unwrap();
    assert_eq!(all.len(), 1);
    assert_eq!(all[0].name, "Ann");
}

#[test]
fn delete_returns_previous_record_and_removes_it() {
    let mut svc = UserService::new();
    let ann = svc.create_user(create_req("Ann", "ann@x.com", "p1")).unwrap();
    let bob = svc.create_user(create_req("Bob", "bob@x.com", "p2")).unwrap();
    let deleted = svc.delete_user(DeleteUserReq { id: ann.id.clone() }).unwrap();
    assert_eq!(deleted, ann);
    let all = svc.search_users(search_req(None, None, None), None).unwrap();
    assert_eq!(all.len(), 1);
    assert_eq!(all[0], bob);
    assert!(all.iter().all(|u| u.id != ann.id));
}

#[test]
fn delete_missing_id_is_not_found() {
    let mut svc = UserService::new();
    svc.create_user(create_req("Ann", "ann@x.com", "p1")).unwrap();
    let r = svc.delete_user(DeleteUserReq { id: "no-such-id".to_string() });
    assert_eq!(r.unwrap_err(), ServiceError::NotFound);
    let all = svc.search_users(search_req(None, None, None), None).unwrap();
    assert_eq!(all.len(), 1);
}

#[test]
fn first_or_not_found_decides() {
    let empty: Vec<User> = Vec::new();
    assert_eq!(first_or_not_found(empty).unwrap_err(), ServiceError::NotFound);
    let mut svc = UserService::new();
    let a = svc.create_user(create_req("Ann", "ann@x.com", "p1")).unwrap();
    let b = svc.create_user(create_req("Bob", "bob@x.com", "p2")).unwrap();
    let firsts = first_or_not_found(vec![a.clone(), b]).unwrap();
    assert_eq!(firsts, a);
}

#[test]
fn round_trip_create_update_delete() {
    let mut svc = UserService::new();
    let created = svc.create_user(create_req("Ann", "ann@x.com", "p1")).unwrap();
    assert_eq!(created.name, "Ann");
    assert_eq!(created.email, "ann@x.com");
    assert_eq!(created.password, "p1");
    assert!(!created.id.is_empty());

    // a search for the created name and email returns the created record
    let found = svc
        .search_users(search_req(None, Some("Ann"), Some("ann@x.com")), None)
        .unwrap();
    assert_eq!(found.len(), 1);
    assert_eq!(found[0], created);

    let updated = svc
        .update_user(UpdateUserReq {
            id: created.id.clone(),
            name: None,
            email: Some("ann2@x.com".to_string()),
            password: None,
        })
        .unwrap();
    assert_eq!(updated.id, created.id);
    assert_eq!(updated.name, "Ann");
    assert_eq!(updated.email, "ann2@x.com");
    assert_eq!(updated.password, "p1");

    let deleted = svc.delete_user(DeleteUserReq { id: created.id.clone() }).unwrap();
    assert_eq!(deleted, updated);

    let after = svc
        .search_users(search_req(None, None, Some("ann2@x.com")), None)
        .unwrap();
    assert!(after.is_empty());
}

#[test]
fn container_holds_the_user_service() {
    let container = ServiceContainer { user_svc: UserService::new() };
    let mut svc = container.user_svc;
    let user = svc.create_user(create_req("Ann", "ann@x.com", "p1")).unwrap();
    assert_eq!(user.name, "Ann");
}

#[test]
fn search_on_empty_store_is_empty() {
    let svc = UserService::new();
    let all = svc.search_users(search_req(None, None, None), None).unwrap();
    assert!(all.is_empty());
    let by_name = svc.search_users(search_req(None, Some("Ann"), None), None).unwrap();
    assert!(by_name.is_empty());
}

#[test]
fn update_and_delete_on_empty_store_are_not_found() {
    let mut svc = UserService::new();
    let upd = svc.update_user(UpdateUserReq {
        id: "u1".to_string(),
        name: Some("Ann".to_string()),
        email: None,
        password: None,
    });
    assert_eq!(upd.unwrap_err(), ServiceError::NotFound);
    let del = svc.delete_user(DeleteUserReq { id: "u1".to_string() });
    assert_eq!(del.unwrap_err(), ServiceError::NotFound);
}

#[test]
fn options_beyond_the_result_are_harmless() {
    let mut svc = UserService::new();
    svc.create_user(create_req("Ann", "a@x.com", "p")).unwrap();
    svc.create_user(create_req("Ann", "b@x.com", "p")).unwrap();

    let skipped_all = svc
        .search_users(search_req(None, Some("Ann"), None), Some(FindOptions { skip: Some(5), limit: None }))
        .unwrap();
    assert!(skipped_all.is_empty());

    let none_kept = svc
        .search_users(search_req(None, Some("Ann"), None), Some(FindOptions { skip: None, limit: Some(0) }))
        .unwrap();
    assert!(none_kept.is_empty());

    let wide_limit = svc
        .search_users(search_req(None, Some("Ann"), None), Some(FindOptions { skip: None, limit: Some(10) }))
        .unwrap();
    assert_eq!(wide_limit.len(), 2);
}

#[test]
fn user_new_generates_an_id_and_keeps_the_fields() {
    let u = User::new("Ann".to_string(), "ann@x.com".to_string(), "p1".to_string());
    assert_eq!(u.id.len(), 36);
    assert_eq!(u.name, "Ann");
    assert_eq!(u.email, "ann@x.com");
    assert_eq!(u.password, "p1");
    let v = User::new("Ann".to_string(), "ann@x.com".to_string(), "p1".to_string());
    assert_ne!(u.id, v.id);
}
