//! Deck endpoints: list, fetch, create, update, delete.
//!
//! Deck creation resolves every listed member card against the card table,
//! failing with `NotFound` on the first missing id before anything is
//! written.

use vstd::prelude::*;

use crate::entities::{Deck, DeckView};
use crate::error::ApiError;
use crate::store::{Store, StoreView};

verus! {

/// Body of `POST /decks`.
pub struct CreateDeck {
    pub name: String,
    pub cards: Vec<u64>,
    pub creator_id: u64,
}

/// The mathematical value of a [`CreateDeck`] request.
#[verifier::ext_equal]
pub ghost struct CreateDeckView {
    pub name: Seq<char>,
    pub cards: Seq<u64>,
    pub creator_id: u64,
}

impl View for CreateDeck {
    type V = CreateDeckView;

    open spec fn view(&self) -> CreateDeckView {
        CreateDeckView { name: self.name@, cards: self.cards@, creator_id: self.creator_id }
    }
}

/// Body of `PUT /decks/{id}`.
pub struct UpdateDeck {
    pub name: String,
    pub cards: Vec<u64>,
}

/// The mathematical value of an [`UpdateDeck`] request.
#[verifier::ext_equal]
pub ghost struct UpdateDeckView {
    pub name: Seq<char>,
    pub cards: Seq<u64>,
}

impl View for UpdateDeck {
    type V = UpdateDeckView;

    open spec fn view(&self) -> UpdateDeckView {
        UpdateDeckView { name: self.name@, cards: self.cards@ }
    }
}

/// The outcome of a deck handler, seen mathematically.
pub open spec fn deck_result_view(r: Result<Deck, ApiError>) -> Result<DeckView, ApiError> {
    match r {
        Ok(d) => Ok(d@),
        Err(e) => Err(e),
    }
}

/// Whether every listed card id names a card row.
pub open spec fn all_cards_present(s: StoreView, ids: Seq<u64>) -> bool {
    forall|i: int| 0 <= i < ids.len() ==> s.has_card(#[trigger] ids[i])
}

/// What fetching a deck by id returns.
pub open spec fn spec_get_deck(s: StoreView, id: u64) -> Result<DeckView, ApiError> {
    if s.has_deck(id) {
        Ok(s.deck_at(id))
    } else {
        Err(ApiError::NotFound)
    }
}

/// What creating a deck does to the store and returns.
///
/// Every member card must exist; a missing one is `NotFound` and nothing is
/// written.
pub open spec fn spec_create_deck(s: StoreView, req: CreateDeckView) -> (StoreView, Result<
    DeckView,
    ApiError,
>) {
    if !all_cards_present(s, req.cards) {
        (s, Err(ApiError::NotFound))
    } else if s.next_id == u64::MAX {
        (s, Err(ApiError::Internal))
    } else {
        let d = DeckView {
            id: s.next_id,
            name: req.name,
            creator_id: req.creator_id,
            cards: req.cards,
        };
        (
            StoreView { decks: s.decks.push(d), next_id: (s.next_id + 1) as u64, ..s },
            Ok(d),
        )
    }
}

/// What updating a deck does to the store and returns. The id and the
/// creator are kept; the name and the member list are replaced.
pub open spec fn spec_update_deck(s: StoreView, id: u64, req: UpdateDeckView) -> (StoreView, Result<
    DeckView,
    ApiError,
>) {
    if s.has_deck(id) {
        let d = DeckView { name: req.name, cards: req.cards, ..s.deck_at(id) };
        (StoreView { decks: s.decks.update(s.deck_index(id), d), ..s }, Ok(d))
    } else {
        (s, Err(ApiError::NotFound))
    }
}

/// What deleting a deck does to the store and returns.
pub open spec fn spec_delete_deck(s: StoreView, id: u64) -> (StoreView, Result<
    DeckView,
    ApiError,
>) {
    if s.has_deck(id) {
        (StoreView { decks: s.decks.remove(s.deck_index(id)), ..s }, Ok(s.deck_at(id)))
    } else {
        (s, Err(ApiError::NotFound))
    }
}

/// `GET /decks`: every deck row. Always succeeds, an empty table included.
pub fn decks(store: &Store) -> (r: Result<Vec<Deck>, ApiError>)
    ensures
        r matches Ok(list) && list.deep_view() == store@.decks,
{
    Ok(store.list_decks())
}

/// `GET /decks/{id}`: the deck with this id, or `NotFound`.
pub fn deck(store: &Store, id: u64) -> (r: Result<Deck, ApiError>)
    requires
        store@.wf(),
    ensures
        deck_result_view(r) == spec_get_deck(store@, id),
{
    match store.get_deck(id) {
        Some(d) => Ok(d.duplicate()),
        None => Err(ApiError::NotFound),
    }
}

/// `POST /decks`: create a deck after resolving every member card,
/// short-circuiting on the first missing one.
pub fn create_deck(store: &mut Store, payload: CreateDeck) -> (r: Result<Deck, ApiError>)
    requires
        old(store)@.wf(),
    ensures
        final(store)@.wf(),
        final(store)@ == spec_create_deck(old(store)@, payload@).0,
        deck_result_view(r) == spec_create_deck(old(store)@, payload@).1,
{
    let mut i: usize = 0;
    while i < payload.cards.len()
        invariant
            old(store)@.wf(),
            store@ == old(store)@,
            i <= payload.cards@.len(),
            forall|k: int| 0 <= k < i ==> store@.has_card(#[trigger] payload.cards@[k]),
        decreases payload.cards@.len() - i,
    {
        if store.get_card(payload.cards[i]).is_none() {
            return Err(ApiError::NotFound);
        }
        i = i + 1;
    }
    let r = store.create_deck(payload.name, payload.creator_id, payload.cards);
    proof {
        assert(final(store)@ =~= spec_create_deck(old(store)@, payload@).0);
    }
    r
}

/// `PUT /decks/{id}`: replace the name and member list of an existing deck.
pub fn update_deck(store: &mut Store, id: u64, payload: UpdateDeck) -> (r: Result<Deck, ApiError>)
    requires
        old(store)@.wf(),
    ensures
        final(store)@.wf(),
        final(store)@ == spec_update_deck(old(store)@, id, payload@).0,
        deck_result_view(r) == spec_update_deck(old(store)@, id, payload@).1,
{
    if store.get_deck(id).is_none() {
        return Err(ApiError::NotFound);
    }
    let r = store.update_deck(id, payload.name, payload.cards);
    proof {
        assert(final(store)@ =~= spec_update_deck(old(store)@, id, payload@).0);
    }
    r
}

/// `DELETE /decks/{id}`: remove an existing deck and return it.
pub fn delete_deck(store: &mut Store, id: u64) -> (r: Result<Deck, ApiError>)
    requires
        old(store)@.wf(),
    ensures
        final(store)@.wf(),
        final(store)@ == spec_delete_deck(old(store)@, id).0,
        deck_result_view(r) == spec_delete_deck(old(store)@, id).1,
{
    if store.get_deck(id).is_none() {
        return Err(ApiError::NotFound);
    }
    let r = store.delete_deck(id);
    proof {
        assert(final(store)@ =~= spec_delete_deck(old(store)@, id).0);
    }
    r
}

} // verus!
