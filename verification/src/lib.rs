//! In-memory CRUD backend for a flash-card service.
//!
//! Three entities — users, cards, decks — live in a single [`store::Store`].
//! The handler functions in [`users`], [`cards`] and [`decks`] validate a
//! request against the store, perform the mutation, and report the outcome as
//! a [`error::ApiError`] taxonomy that an HTTP layer maps to status codes.

pub mod cards;
pub mod decks;
pub mod entities;
pub mod error;
pub mod store;
pub mod users;

use vstd::prelude::*;

use crate::entities::{CardView, DeckView, UserView};
use crate::error::ApiError;
use crate::store::StoreView;

verus! {

/// Law: fetching an id that no row carries yields `NotFound`, on every
/// entity alike.
pub proof fn lemma_get_missing_is_not_found(s: StoreView, id: u64)
    ensures
        !s.has_user(id) ==> users::spec_get_user(s, id) == Err::<UserView, ApiError>(
            ApiError::NotFound,
        ),
        !s.has_card(id) ==> cards::spec_get_card(s, id) == Err::<CardView, ApiError>(
            ApiError::NotFound,
        ),
        !s.has_deck(id) ==> decks::spec_get_deck(s, id) == Err::<DeckView, ApiError>(
            ApiError::NotFound,
        ),
{
}

} // verus!
