//! Card endpoints: list, fetch, create, update, delete.
//!
//! Creation validates the referenced creator (and deck, when one is given)
//! before any write; the `spec_*` transitions state that flow exactly and the
//! handlers are proved against them.

use vstd::prelude::*;

use crate::entities::{Card, CardView};
use crate::error::ApiError;
use crate::store::{Store, StoreView};

verus! {

/// Body of `POST /cards`.
pub struct CreateCard {
    pub name: String,
    pub front_desc: String,
    pub back_desc: String,
    pub creator_id: u64,
    pub deck_id: Option<u64>,
}

/// The mathematical value of a [`CreateCard`] request.
#[verifier::ext_equal]
pub ghost struct CreateCardView {
    pub name: Seq<char>,
    pub front_desc: Seq<char>,
    pub back_desc: Seq<char>,
    pub creator_id: u64,
    pub deck_id: Option<u64>,
}

impl View for CreateCard {
    type V = CreateCardView;

    open spec fn view(&self) -> CreateCardView {
        CreateCardView {
            name: self.name@,
            front_desc: self.front_desc@,
            back_desc: self.back_desc@,
            creator_id: self.creator_id,
            deck_id: self.deck_id,
        }
    }
}

/// Body of `PUT /cards/{id}`.
pub struct UpdateCard {
    pub name: String,
    pub front_desc: String,
    pub back_desc: String,
    pub deck_id: Option<u64>,
}

/// The mathematical value of an [`UpdateCard`] request.
#[verifier::ext_equal]
pub ghost struct UpdateCardView {
    pub name: Seq<char>,
    pub front_desc: Seq<char>,
    pub back_desc: Seq<char>,
    pub deck_id: Option<u64>,
}

impl View for UpdateCard {
    type V = UpdateCardView;

    open spec fn view(&self) -> UpdateCardView {
        UpdateCardView {
            name: self.name@,
            front_desc: self.front_desc@,
            back_desc: self.back_desc@,
            deck_id: self.deck_id,
        }
    }
}

/// The outcome of a card handler, seen mathematically.
pub open spec fn card_result_view(r: Result<Card, ApiError>) -> Result<CardView, ApiError> {
    match r {
        Ok(c) => Ok(c@),
        Err(e) => Err(e),
    }
}

/// What fetching a card by id returns.
pub open spec fn spec_get_card(s: StoreView, id: u64) -> Result<CardView, ApiError> {
    if s.has_card(id) {
        Ok(s.card_at(id))
    } else {
        Err(ApiError::NotFound)
    }
}

/// What creating a card does to the store and returns.
///
/// The creator must exist, and so must the deck when one is referenced;
/// either check failing is `NotFound` and nothing is written.
pub open spec fn spec_create_card(s: StoreView, req: CreateCardView) -> (StoreView, Result<
    CardView,
    ApiError,
>) {
    if !s.has_user(req.creator_id) {
        (s, Err(ApiError::NotFound))
    } else if req.deck_id matches Some(d) && !s.has_deck(d) {
        (s, Err(ApiError::NotFound))
    } else if s.next_id == u64::MAX {
        (s, Err(ApiError::Internal))
    } else {
        let c = CardView {
            id: s.next_id,
            name: req.name,
            front_desc: req.front_desc,
            back_desc: req.back_desc,
            creator_id: req.creator_id,
            deck_id: req.deck_id,
        };
        (
            StoreView { cards: s.cards.push(c), next_id: (s.next_id + 1) as u64, ..s },
            Ok(c),
        )
    }
}

/// What updating a card does to the store and returns. The id and the
/// creator are kept; name, both faces and the deck reference are replaced.
pub open spec fn spec_update_card(s: StoreView, id: u64, req: UpdateCardView) -> (StoreView, Result<
    CardView,
    ApiError,
>) {
    if s.has_card(id) {
        let c = CardView {
            name: req.name,
            front_desc: req.front_desc,
            back_desc: req.back_desc,
            deck_id: req.deck_id,
            ..s.card_at(id)
        };
        (StoreView { cards: s.cards.update(s.card_index(id), c), ..s }, Ok(c))
    } else {
        (s, Err(ApiError::NotFound))
    }
}

/// What deleting a card does to the store and returns.
pub open spec fn spec_delete_card(s: StoreView, id: u64) -> (StoreView, Result<
    CardView,
    ApiError,
>) {
    if s.has_card(id) {
        (StoreView { cards: s.cards.remove(s.card_index(id)), ..s }, Ok(s.card_at(id)))
    } else {
        (s, Err(ApiError::NotFound))
    }
}

/// `GET /cards`: every card row. Always succeeds, an empty table included.
pub fn cards(store: &Store) -> (r: Result<Vec<Card>, ApiError>)
    ensures
        r matches Ok(list) && list.deep_view() == store@.cards,
{
    Ok(store.list_cards())
}

/// `GET /cards/{id}`: the card with this id, or `NotFound`.
pub fn card(store: &Store, id: u64) -> (r: Result<Card, ApiError>)
    requires
        store@.wf(),
    ensures
        card_result_view(r) == spec_get_card(store@, id),
{
    match store.get_card(id) {
        Some(c) => Ok(c.duplicate()),
        None => Err(ApiError::NotFound),
    }
}

/// `POST /cards`: create a card after resolving its references.
pub fn create_card(store: &mut Store, payload: CreateCard) -> (r: Result<Card, ApiError>)
    requires
        old(store)@.wf(),
    ensures
        final(store)@.wf(),
        final(store)@ == spec_create_card(old(store)@, payload@).0,
        card_result_view(r) == spec_create_card(old(store)@, payload@).1,
{
    if store.get_user(payload.creator_id).is_none() {
        return Err(ApiError::NotFound);
    }
    if let Some(d) = payload.deck_id {
        if store.get_deck(d).is_none() {
            return Err(ApiError::NotFound);
        }
    }
    let r = store.create_card(
        payload.name,
        payload.front_desc,
        payload.back_desc,
        payload.creator_id,
        payload.deck_id,
    );
    proof {
        assert(final(store)@ =~= spec_create_card(old(store)@, payload@).0);
    }
    r
}

/// `PUT /cards/{id}`: replace the mutable fields of an existing card.
pub fn update_card(store: &mut Store, id: u64, payload: UpdateCard) -> (r: Result<Card, ApiError>)
    requires
        old(store)@.wf(),
    ensures
        final(store)@.wf(),
        final(store)@ == spec_update_card(old(store)@, id, payload@).0,
        card_result_view(r) == spec_update_card(old(store)@, id, payload@).1,
{
    if store.get_card(id).is_none() {
        return Err(ApiError::NotFound);
    }
    let r = store.update_card(id, payload.name, payload.front_desc, payload.back_desc, payload.deck_id);
    proof {
        assert(final(store)@ =~= spec_update_card(old(store)@, id, payload@).0);
    }
    r
}

/// `DELETE /cards/{id}`: remove an existing card and return it.
pub fn delete_card(store: &mut Store, id: u64) -> (r: Result<Card, ApiError>)
    requires
        old(store)@.wf(),
    ensures
        final(store)@.wf(),
        final(store)@ == spec_delete_card(old(store)@, id).0,
        card_result_view(r) == spec_delete_card(old(store)@, id).1,
{
    if store.get_card(id).is_none() {
        return Err(ApiError::NotFound);
    }
    let r = store.delete_card(id);
    proof {
        assert(final(store)@ =~= spec_delete_card(old(store)@, id).0);
    }
    r
}

/// Law: creating a card whose creator id matches no user always yields
/// `NotFound` and performs no write.
pub proof fn lemma_create_card_missing_creator(s: StoreView, req: CreateCardView)
    requires
        !s.has_user(req.creator_id),
    ensures
        spec_create_card(s, req) == (s, Err::<CardView, ApiError>(ApiError::NotFound)),
{
}

/// Law: creating a card with an existing creator and no deck reference
/// succeeds, and both the returned card and the row appended to the store
/// carry the requested creator id.
pub proof fn lemma_create_card_keeps_creator(s: StoreView, req: CreateCardView)
    requires
        s.has_user(req.creator_id),
        req.deck_id is None,
        s.next_id < u64::MAX,
    ensures
        spec_create_card(s, req).1 matches Ok(c) && c.creator_id == req.creator_id
            && spec_create_card(s, req).0.cards == s.cards.push(c),
{
}

} // verus!
