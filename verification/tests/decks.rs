use kioku_api::cards::{create_card, CreateCard};
use kioku_api::decks::{create_deck, deck, decks, delete_deck, update_deck, CreateDeck, UpdateDeck};
use kioku_api::error::ApiError;
use kioku_api::store::Store;
use kioku_api::users::{create_user, CreateUser};

fn store_with_user_and_cards(n: usize) -> (Store, u64, Vec<u64>) {
    let mut store = Store::new();
    let u = create_user(
        &mut store,
        CreateUser { username: String::from("alice"), email: String::from("a@x.com") },
    )
    .unwrap();
    let mut ids = Vec::new();
    for i in 0..n {
        let c = create_card(
            &mut store,
            CreateCard {
                name: format!("card {i}"),
                front_desc: String::from("f"),
                back_desc: String::from("b"),
                creator_id: u.id,
                deck_id: None,
            },
        )
        .unwrap();
        ids.push(c.id);
    }
    (store, u.id, ids)
}

#[test]
fn list_decks_empty_store_is_ok() {
    let store = Store::new();
    assert!(decks(&store).unwrap().is_empty());
}

#[test]
fn create_deck_with_existing_cards_succeeds() {
    let (mut store, uid, ids) = store_with_user_and_cards(2);
    let d = create_deck(
        &mut store,
        CreateDeck { name: String::from("d"), cards: ids.clone(), creator_id: uid },
    )
    .unwrap();
    assert_eq!(d.name, "d");
    assert_eq!(d.creator_id, uid);
    assert_eq!(d.cards, ids);
    let listed = decks(&store).unwrap();
    assert_eq!(listed.len(), 1);
    assert_eq!(listed[0].id, d.id);
}

#[test]
fn create_deck_missing_card_is_not_found_and_writes_nothing() {
    let (mut store, uid, mut ids) = store_with_user_and_cards(1);
    ids.push(1000);
    let r = create_deck(
        &mut store,
        CreateDeck { name: String::from("d"), cards: ids, creator_id: uid },
    );
    assert_eq!(r.unwrap_err(), ApiError::NotFound);
    assert!(decks(&store).unwrap().is_empty());
}

#[test]
fn create_deck_with_no_cards_succeeds() {
    let (mut store, uid, _) = store_with_user_and_cards(0);
    let d = create_deck(
        &mut store,
        CreateDeck { name: String::from("empty"), cards: Vec::new(), creator_id: uid },
    )
    .unwrap();
    assert!(d.cards.is_empty());
}

#[test]
fn get_missing_deck_is_not_found() {
    let store = Store::new();
    assert_eq!(deck(&store, 4).unwrap_err(), ApiError::NotFound);
}

#[test]
fn get_deck_returns_the_stored_row() {
    let (mut store, uid, ids) = store_with_user_and_cards(1);
    let d = create_deck(
        &mut store,
        CreateDeck { name: String::from("d"), cards: ids.clone(), creator_id: uid },
    )
    .unwrap();
    let got = deck(&store, d.id).unwrap();
    assert_eq!(got.id, d.id);
    assert_eq!(got.name, "d");
    assert_eq!(got.cards, ids);
}

#[test]
fn update_deck_replaces_name_and_members() {
    let (mut store, uid, ids) = store_with_user_and_cards(2);
    let d = create_deck(
        &mut store,
        CreateDeck { name: String::from("d"), cards: vec![ids[0]], creator_id: uid },
    )
    .unwrap();
    let updated = update_deck(
        &mut store,
        d.id,
        UpdateDeck { name: String::from("d2"), cards: ids.clone() },
    )
    .unwrap();
    assert_eq!(updated.id, d.id);
    assert_eq!(updated.creator_id, uid);
    assert_eq!(updated.name, "d2");
    assert_eq!(updated.cards, ids);
}

#[test]
fn update_missing_deck_is_not_found() {
    let mut store = Store::new();
    let r = update_deck(&mut store, 8, UpdateDeck { name: String::from("d"), cards: Vec::new() });
    assert_eq!(r.unwrap_err(), ApiError::NotFound);
}

#[test]
fn delete_deck_returns_the_removed_row() {
    let (mut store, uid, ids) = store_with_user_and_cards(1);
    let d = create_deck(
        &mut store,
        CreateDeck { name: String::from("d"), cards: ids, creator_id: uid },
    )
    .unwrap();
    let removed = delete_deck(&mut store, d.id).unwrap();
    assert_eq!(removed.id, d.id);
    assert!(decks(&store).unwrap().is_empty());
    assert_eq!(deck(&store, d.id).unwrap_err(), ApiError::NotFound);
}

#[test]
fn delete_missing_deck_is_not_found() {
    let mut store = Store::new();
    assert_eq!(delete_deck(&mut store, 8).unwrap_err(), ApiError::NotFound);
}
