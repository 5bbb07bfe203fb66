//! The three persisted entities and their mathematical views.
//!
//! Each entity is a plain record keyed by a numeric id that the store assigns
//! at creation. The view types mirror the records field by field, with every
//! string abstracted to its character sequence, so that contracts can speak
//! of entity values without reference to allocation.

use vstd::prelude::*;

verus! {

/// A registered user. Usernames are unique at creation time.
#[derive(Debug)]
pub struct User {
    pub id: u64,
    pub username: String,
    pub email: String,
}

/// The mathematical value of a [`User`].
#[verifier::ext_equal]
pub ghost struct UserView {
    pub id: u64,
    pub username: Seq<char>,
    pub email: Seq<char>,
}

impl View for User {
    type V = UserView;

    open spec fn view(&self) -> UserView {
        UserView { id: self.id, username: self.username@, email: self.email@ }
    }
}

impl DeepView for User {
    type V = UserView;

    open spec fn deep_view(&self) -> UserView {
        self@
    }
}

impl User {
    /// A fresh copy of this record with the same value.
    pub fn duplicate(&self) -> (r: User)
        ensures
            r@ == self@,
    {
        User { id: self.id, username: self.username.clone(), email: self.email.clone() }
    }
}

/// A flash card. It always belongs to the user that created it and may
/// optionally belong to one deck.
#[derive(Debug)]
pub struct Card {
    pub id: u64,
    pub name: String,
    pub front_desc: String,
    pub back_desc: String,
    pub creator_id: u64,
    pub deck_id: Option<u64>,
}

/// The mathematical value of a [`Card`].
#[verifier::ext_equal]
pub ghost struct CardView {
    pub id: u64,
    pub name: Seq<char>,
    pub front_desc: Seq<char>,
    pub back_desc: Seq<char>,
    pub creator_id: u64,
    pub deck_id: Option<u64>,
}

impl View for Card {
    type V = CardView;

    open spec fn view(&self) -> CardView {
        CardView {
            id: self.id,
            name: self.name@,
            front_desc: self.front_desc@,
            back_desc: self.back_desc@,
            creator_id: self.creator_id,
            deck_id: self.deck_id,
        }
    }
}

impl DeepView for Card {
    type V = CardView;

    open spec fn deep_view(&self) -> CardView {
        self@
    }
}

impl Card {
    /// A fresh copy of this record with the same value.
    pub fn duplicate(&self) -> (r: Card)
        ensures
            r@ == self@,
    {
        Card {
            id: self.id,
            name: self.name.clone(),
            front_desc: self.front_desc.clone(),
            back_desc: self.back_desc.clone(),
            creator_id: self.creator_id,
            deck_id: self.deck_id,
        }
    }
}

/// A deck of cards, owned by one user. It lists the ids of its member cards;
/// every member id is checked against the card table when the deck is created.
#[derive(Debug)]
pub struct Deck {
    pub id: u64,
    pub name: String,
    pub creator_id: u64,
    pub cards: Vec<u64>,
}

/// The mathematical value of a [`Deck`].
#[verifier::ext_equal]
pub ghost struct DeckView {
    pub id: u64,
    pub name: Seq<char>,
    pub creator_id: u64,
    pub cards: Seq<u64>,
}

impl View for Deck {
    type V = DeckView;

    open spec fn view(&self) -> DeckView {
        DeckView { id: self.id, name: self.name@, creator_id: self.creator_id, cards: self.cards@ }
    }
}

impl DeepView for Deck {
    type V = DeckView;

    open spec fn deep_view(&self) -> DeckView {
        self@
    }
}

impl Deck {
    /// A fresh copy of this record with the same value.
    pub fn duplicate(&self) -> (r: Deck)
        ensures
            r@ == self@,
    {
        let cards = copy_ids(&self.cards);
        Deck { id: self.id, name: self.name.clone(), creator_id: self.creator_id, cards }
    }
}

/// An element-wise copy of a list of ids.
fn copy_ids(ids: &Vec<u64>) -> (r: Vec<u64>)
    ensures
        r@ == ids@,
{
    let mut r: Vec<u64> = Vec::new();
    let mut i: usize = 0;
    while i < ids.len()
        invariant
            i <= ids.len(),
            r@ == ids@.subrange(0, i as int),
        decreases ids.len() - i,
    {
        r.push(ids[i]);
        i = i + 1;
    }
    assert(r@ =~= ids@);
    r
}

} // verus!
