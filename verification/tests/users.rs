use kioku_api::error::ApiError;
use kioku_api::store::Store;
use kioku_api::users::{create_user, delete_user, update_user, user, users, CreateUser, UpdateUser};

fn alice() -> CreateUser {
    CreateUser { username: String::from("alice"), email: String::from("a@x.com") }
}

#[test]
fn list_users_empty_store_is_ok() {
    let store = Store::new();
    let r = users(&store).unwrap();
    assert!(r.is_empty());
}

#[test]
fn create_user_returns_the_row() {
    let mut store = Store::new();
    let u = create_user(&mut store, alice()).unwrap();
    assert_eq!(u.username, "alice");
    assert_eq!(u.email, "a@x.com");
    let listed = users(&store).unwrap();
    assert_eq!(listed.len(), 1);
    assert_eq!(listed[0].id, u.id);
    assert_eq!(listed[0].username, "alice");
}

#[test]
fn create_user_taken_username_is_conflict() {
    let mut store = Store::new();
    create_user(&mut store, alice()).unwrap();
    let again = CreateUser { username: String::from("alice"), email: String::from("b@x.com") };
    let r = create_user(&mut store, again);
    assert_eq!(r.unwrap_err(), ApiError::Conflict);
    // no duplicate row was written
    assert_eq!(users(&store).unwrap().len(), 1);
}

#[test]
fn get_missing_user_is_not_found() {
    let store = Store::new();
    let r = user(&store, 7);
    assert_eq!(r.unwrap_err(), ApiError::NotFound);
}

#[test]
fn get_user_returns_the_stored_row() {
    let mut store = Store::new();
    let created = create_user(&mut store, alice()).unwrap();
    let got = user(&store, created.id).unwrap();
    assert_eq!(got.id, created.id);
    assert_eq!(got.username, "alice");
    assert_eq!(got.email, "a@x.com");
}

#[test]
fn update_user_replaces_username_only() {
    let mut store = Store::new();
    let created = create_user(&mut store, alice()).unwrap();
    let updated =
        update_user(&mut store, created.id, UpdateUser { username: String::from("bob") }).unwrap();
    assert_eq!(updated.id, created.id);
    assert_eq!(updated.username, "bob");
    assert_eq!(updated.email, "a@x.com");
    let got = user(&store, created.id).unwrap();
    assert_eq!(got.username, "bob");
}

#[test]
fn update_missing_user_is_not_found() {
    let mut store = Store::new();
    let r = update_user(&mut store, 3, UpdateUser { username: String::from("bob") });
    assert_eq!(r.unwrap_err(), ApiError::NotFound);
}

#[test]
fn delete_user_returns_the_removed_row() {
    let mut store = Store::new();
    let created = create_user(&mut store, alice()).unwrap();
    let removed = delete_user(&mut store, created.id).unwrap();
    assert_eq!(removed.id, created.id);
    assert_eq!(removed.username, "alice");
    assert!(users(&store).unwrap().is_empty());
    assert_eq!(user(&store, created.id).unwrap_err(), ApiError::NotFound);
}

#[test]
fn delete_missing_user_is_not_found() {
    let mut store = Store::new();
    let r = delete_user(&mut store, 3);
    assert_eq!(r.unwrap_err(), ApiError::NotFound);
}
