use kioku_api::cards::{card, cards, create_card, delete_card, update_card, CreateCard, UpdateCard};
use kioku_api::decks::{create_deck, CreateDeck};
use kioku_api::error::ApiError;
use kioku_api::store::Store;
use kioku_api::users::{create_user, CreateUser};

fn store_with_user() -> (Store, u64) {
    let mut store = Store::new();
    let u = create_user(
        &mut store,
        CreateUser { username: String::from("alice"), email: String::from("a@x.com") },
    )
    .unwrap();
    (store, u.id)
}

fn card_request(creator_id: u64, deck_id: Option<u64>) -> CreateCard {
    CreateCard {
        name: String::from("n"),
        front_desc: String::from("f"),
        back_desc: String::from("b"),
        creator_id,
        deck_id,
    }
}

#[test]
fn list_cards_empty_store_is_ok() {
    let store = Store::new();
    assert!(cards(&store).unwrap().is_empty());
}

#[test]
fn create_card_missing_creator_is_not_found_and_writes_nothing() {
    let mut store = Store::new();
    let r = create_card(&mut store, card_request(42, None));
    assert_eq!(r.unwrap_err(), ApiError::NotFound);
    assert!(cards(&store).unwrap().is_empty());
}

#[test]
fn create_card_keeps_creator_reference() {
    let (mut store, uid) = store_with_user();
    let c = create_card(&mut store, card_request(uid, None)).unwrap();
    assert_eq!(c.creator_id, uid);
    assert_eq!(c.name, "n");
    assert_eq!(c.front_desc, "f");
    assert_eq!(c.back_desc, "b");
    assert_eq!(c.deck_id, None);
    let listed = cards(&store).unwrap();
    assert_eq!(listed.len(), 1);
    assert_eq!(listed[0].creator_id, uid);
}

#[test]
fn create_card_missing_deck_is_not_found() {
    let (mut store, uid) = store_with_user();
    let r = create_card(&mut store, card_request(uid, Some(99)));
    assert_eq!(r.unwrap_err(), ApiError::NotFound);
    assert!(cards(&store).unwrap().is_empty());
}

#[test]
fn create_card_with_existing_deck_succeeds() {
    let (mut store, uid) = store_with_user();
    let d = create_deck(
        &mut store,
        CreateDeck { name: String::from("d"), cards: Vec::new(), creator_id: uid },
    )
    .unwrap();
    let c = create_card(&mut store, card_request(uid, Some(d.id))).unwrap();
    assert_eq!(c.deck_id, Some(d.id));
}

#[test]
fn get_missing_card_is_not_found() {
    let store = Store::new();
    assert_eq!(card(&store, 9).unwrap_err(), ApiError::NotFound);
}

#[test]
fn update_card_replaces_fields_and_keeps_creator() {
    let (mut store, uid) = store_with_user();
    let c = create_card(&mut store, card_request(uid, None)).unwrap();
    let upd = UpdateCard {
        name: String::from("n2"),
        front_desc: String::from("f2"),
        back_desc: String::from("b2"),
        deck_id: None,
    };
    let updated = update_card(&mut store, c.id, upd).unwrap();
    assert_eq!(updated.id, c.id);
    assert_eq!(updated.creator_id, uid);
    assert_eq!(updated.name, "n2");
    assert_eq!(updated.front_desc, "f2");
    assert_eq!(updated.back_desc, "b2");
    let got = card(&store, c.id).unwrap();
    assert_eq!(got.name, "n2");
}

#[test]
fn update_missing_card_is_not_found() {
    let mut store = Store::new();
    let upd = UpdateCard {
        name: String::from("n"),
        front_desc: String::from("f"),
        back_desc: String::from("b"),
        deck_id: None,
    };
    assert_eq!(update_card(&mut store, 5, upd).unwrap_err(), ApiError::NotFound);
}

#[test]
fn delete_card_returns_the_removed_row() {
    let (mut store, uid) = store_with_user();
    let c = create_card(&mut store, card_request(uid, None)).unwrap();
    let removed = delete_card(&mut store, c.id).unwrap();
    assert_eq!(removed.id, c.id);
    assert_eq!(removed.name, "n");
    assert!(cards(&store).unwrap().is_empty());
    assert_eq!(card(&store, c.id).unwrap_err(), ApiError::NotFound);
}

#[test]
fn delete_missing_card_is_not_found() {
    let mut store = Store::new();
    assert_eq!(delete_card(&mut store, 5).unwrap_err(), ApiError::NotFound);
}
