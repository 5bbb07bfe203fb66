//! The full request sequence a client would drive, end to end.

use kioku_api::cards::{card, create_card, delete_card, CreateCard};
use kioku_api::error::ApiError;
use kioku_api::store::Store;
use kioku_api::users::{create_user, CreateUser};

#[test]
fn create_fetch_delete_round_trip() {
    let mut store = Store::new();

    // POST /users
    let u = create_user(
        &mut store,
        CreateUser { username: String::from("alice"), email: String::from("a@x.com") },
    )
    .unwrap();
    assert_eq!(u.username, "alice");
    assert_eq!(u.email, "a@x.com");

    // POST /cards referencing the new user
    let c = create_card(
        &mut store,
        CreateCard {
            name: String::from("n"),
            front_desc: String::from("f"),
            back_desc: String::from("b"),
            creator_id: u.id,
            deck_id: None,
        },
    )
    .unwrap();
    assert_eq!(c.creator_id, u.id);

    // GET /cards/{id} returns the identical card
    let got = card(&store, c.id).unwrap();
    assert_eq!(got.id, c.id);
    assert_eq!(got.name, "n");
    assert_eq!(got.front_desc, "f");
    assert_eq!(got.back_desc, "b");
    assert_eq!(got.creator_id, u.id);
    assert_eq!(got.deck_id, None);

    // DELETE /cards/{id} returns the deleted card
    let removed = delete_card(&mut store, c.id).unwrap();
    assert_eq!(removed.id, c.id);
    assert_eq!(removed.name, "n");

    // GET /cards/{id} is now 404
    assert_eq!(card(&store, c.id).unwrap_err(), ApiError::NotFound);
}

#[test]
fn ids_are_never_reused_after_delete() {
    let mut store = Store::new();
    let u = create_user(
        &mut store,
        CreateUser { username: String::from("alice"), email: String::from("a@x.com") },
    )
    .unwrap();
    let first = create_card(
        &mut store,
        CreateCard {
            name: String::from("one"),
            front_desc: String::from("f"),
            back_desc: String::from("b"),
            creator_id: u.id,
            deck_id: None,
        },
    )
    .unwrap();
    delete_card(&mut store, first.id).unwrap();
    let second = create_card(
        &mut store,
        CreateCard {
            name: String::from("two"),
            front_desc: String::from("f"),
            back_desc: String::from("b"),
            creator_id: u.id,
            deck_id: None,
        },
    )
    .unwrap();
    assert_ne!(second.id, first.id);
}
