//! The store: an in-memory relational state holding the three entity tables.
//!
//! The store assigns each created row a fresh id from a single counter, so id
//! uniqueness is an invariant of the whole state ([`StoreView::wf`]). The
//! repository methods are per-entity find/create/update/delete operations;
//! they enforce no cross-entity rule — referential validation is the callers'
//! business (the handler modules).

use vstd::prelude::*;

use crate::entities::{Card, CardView, Deck, DeckView, User, UserView};
use crate::error::ApiError;

verus! {

/// The mathematical value of the whole store.
#[verifier::ext_equal]
pub ghost struct StoreView {
    pub users: Seq<UserView>,
    pub cards: Seq<CardView>,
    pub decks: Seq<DeckView>,
    pub next_id: u64,
}

impl StoreView {
    /// Well-formedness: within each table the ids are distinct, and every id
    /// was drawn from the counter, so it lies below `next_id`.
    pub open spec fn wf(self) -> bool {
        &&& forall|i: int, j: int|
            #![trigger self.users[i].id, self.users[j].id]
            0 <= i < j < self.users.len() ==> self.users[i].id != self.users[j].id
        &&& forall|i: int| 0 <= i < self.users.len() ==> #[trigger] self.users[i].id < self.next_id
        &&& forall|i: int, j: int|
            #![trigger self.cards[i].id, self.cards[j].id]
            0 <= i < j < self.cards.len() ==> self.cards[i].id != self.cards[j].id
        &&& forall|i: int| 0 <= i < self.cards.len() ==> #[trigger] self.cards[i].id < self.next_id
        &&& forall|i: int, j: int|
            #![trigger self.decks[i].id, self.decks[j].id]
            0 <= i < j < self.decks.len() ==> self.decks[i].id != self.decks[j].id
        &&& forall|i: int| 0 <= i < self.decks.len() ==> #[trigger] self.decks[i].id < self.next_id
    }

    /// Whether some user row carries this id.
    pub open spec fn has_user(self, id: u64) -> bool {
        exists|i: int| 0 <= i < self.users.len() && #[trigger] self.users[i].id == id
    }

    /// The index of the user row with this id (meaningful when `has_user`).
    pub open spec fn user_index(self, id: u64) -> int {
        choose|i: int| 0 <= i < self.users.len() && #[trigger] self.users[i].id == id
    }

    /// The user row with this id (meaningful when `has_user`).
    pub open spec fn user_at(self, id: u64) -> UserView {
        self.users[self.user_index(id)]
    }

    /// Whether some user row carries this username.
    pub open spec fn username_taken(self, name: Seq<char>) -> bool {
        exists|i: int| 0 <= i < self.users.len() && #[trigger] self.users[i].username == name
    }

    /// Whether some card row carries this id.
    pub open spec fn has_card(self, id: u64) -> bool {
        exists|i: int| 0 <= i < self.cards.len() && #[trigger] self.cards[i].id == id
    }

    /// The index of the card row with this id (meaningful when `has_card`).
    pub open spec fn card_index(self, id: u64) -> int {
        choose|i: int| 0 <= i < self.cards.len() && #[trigger] self.cards[i].id == id
    }

    /// The card row with this id (meaningful when `has_card`).
    pub open spec fn card_at(self, id: u64) -> CardView {
        self.cards[self.card_index(id)]
    }

    /// Whether some deck row carries this id.
    pub open spec fn has_deck(self, id: u64) -> bool {
        exists|i: int| 0 <= i < self.decks.len() && #[trigger] self.decks[i].id == id
    }

    /// The index of the deck row with this id (meaningful when `has_deck`).
    pub open spec fn deck_index(self, id: u64) -> int {
        choose|i: int| 0 <= i < self.decks.len() && #[trigger] self.decks[i].id == id
    }

    /// The deck row with this id (meaningful when `has_deck`).
    pub open spec fn deck_at(self, id: u64) -> DeckView {
        self.decks[self.deck_index(id)]
    }
}

/// The in-memory store.
pub struct Store {
    users: Vec<User>,
    cards: Vec<Card>,
    decks: Vec<Deck>,
    next_id: u64,
}

impl View for Store {
    type V = StoreView;

    closed spec fn view(&self) -> StoreView {
        StoreView {
            users: self.users.deep_view(),
            cards: self.cards.deep_view(),
            decks: self.decks.deep_view(),
            next_id: self.next_id,
        }
    }
}

impl Store {
    /// An empty store.
    pub fn new() -> (s: Store)
        ensures
            s@.wf(),
            s@.users == Seq::<UserView>::empty(),
            s@.cards == Seq::<CardView>::empty(),
            s@.decks == Seq::<DeckView>::empty(),
            s@.next_id == 0,
    {
        let s = Store { users: Vec::new(), cards: Vec::new(), decks: Vec::new(), next_id: 0 };
        proof {
            assert(s@.users =~= Seq::<UserView>::empty());
            assert(s@.cards =~= Seq::<CardView>::empty());
            assert(s@.decks =~= Seq::<DeckView>::empty());
        }
        s
    }

    /// The position of the user row with this id, if any.
    fn user_pos(&self, id: u64) -> (r: Option<usize>)
        ensures
            match r {
                Some(i) => i < self@.users.len() && self@.users[i as int].id == id,
                None => !self@.has_user(id),
            },
    {
        let mut i: usize = 0;
        while i < self.users.len()
            invariant
                i <= self@.users.len(),
                forall|k: int| 0 <= k < i ==> self@.users[k].id != id,
            decreases self@.users.len() - i,
        {
            if self.users[i].id == id {
                return Some(i);
            }
            i = i + 1;
        }
        None
    }

    /// Every user row, in table order.
    pub fn list_users(&self) -> (r: Vec<User>)
        ensures
            r.deep_view() == self@.users,
    {
        let mut r: Vec<User> = Vec::new();
        let mut i: usize = 0;
        while i < self.users.len()
            invariant
                i <= self.users@.len(),
                r@.len() == i,
                forall|k: int| 0 <= k < i ==> #[trigger] r@[k]@ == self.users@[k]@,
            decreases self.users@.len() - i,
        {
            let ghost r0 = r@;
            let u = self.users[i].duplicate();
            r.push(u);
            proof {
                assert forall|k: int| 0 <= k < i + 1 implies #[trigger] r@[k]@ == self.users@[k]@ by {
                    if k < i {
                        assert(r@[k] == r0[k]);
                        assert(r0[k]@ == self.users@[k]@);
                    } else {
                        assert(r@[k] == u);
                    }
                }
            }
            i = i + 1;
        }
        proof {
            assert forall|k: int| 0 <= k < r@.len() implies r.deep_view()[k] == self@.users[k] by {
                assert(r@[k]@ == self.users@[k]@);
            }
            assert(r.deep_view() =~= self@.users);
        }
        r
    }

    /// The user row with this id, or `None` when no row carries it.
    pub fn get_user(&self, id: u64) -> (r: Option<&User>)
        requires
            self@.wf(),
        ensures
            match r {
                Some(u) => self@.has_user(id) && u@ == self@.user_at(id),
                None => !self@.has_user(id),
            },
    {
        match self.user_pos(id) {
            Some(i) => {
                proof {
                    assert(self@.has_user(id));
                    let j = self@.user_index(id);
                    assert(0 <= j < self@.users.len() && self@.users[j].id == id);
                    assert(j == i as int);
                }
                Some(&self.users[i])
            },
            None => None,
        }
    }

    /// The first user row carrying this username, or `None` when the
    /// username is free.
    pub fn find_by_username(&self, name: &String) -> (r: Option<&User>)
        ensures
            match r {
                Some(u) => self@.username_taken(name@) && u@.username == name@,
                None => !self@.username_taken(name@),
            },
    {
        let mut i: usize = 0;
        while i < self.users.len()
            invariant
                i <= self@.users.len(),
                forall|k: int| 0 <= k < i ==> self@.users[k].username != name@,
            decreases self@.users.len() - i,
        {
            if self.users[i].username == *name {
                proof {
                    assert(self@.users[i as int] == self.users@[i as int]@);
                    assert(self@.users[i as int].username == name@);
                }
                return Some(&self.users[i]);
            }
            i = i + 1;
        }
        None
    }

    /// Inserts a user row under a fresh id and returns a copy of it.
    /// Fails only when the id counter is exhausted.
    pub fn create_user(&mut self, username: String, email: String) -> (r: Result<User, ApiError>)
        requires
            old(self)@.wf(),
        ensures
            final(self)@.wf(),
            ({
                let s0 = old(self)@;
                if s0.next_id == u64::MAX {
                    &&& final(self)@ == s0
                    &&& r == Err::<User, ApiError>(ApiError::Internal)
                } else {
                    &&& r matches Ok(u)
                    &&& u@ == (UserView { id: s0.next_id, username: username@, email: email@ })
                    &&& final(self)@.users == s0.users.push(u@)
                    &&& final(self)@.cards == s0.cards
                    &&& final(self)@.decks == s0.decks
                    &&& final(self)@.next_id == s0.next_id + 1
                }
            }),
    {
        if self.next_id == u64::MAX {
            return Err(ApiError::Internal);
        }
        let row = User { id: self.next_id, username, email };
        let copy = row.duplicate();
        self.next_id = self.next_id + 1;
        self.users.push(row);
        proof {
            let s0 = old(self)@;
            let s1 = self@;
            assert(s1.users =~= s0.users.push(copy@));
            lemma_fresh_push_user(s0, s1, copy@);
        }
        Ok(copy)
    }

    /// Replaces the username of the user row with this id and returns a copy
    /// of the updated row, or `NotFound` when no row carries the id.
    pub fn update_user(&mut self, id: u64, username: String) -> (r: Result<User, ApiError>)
        requires
            old(self)@.wf(),
        ensures
            final(self)@.wf(),
            ({
                let s0 = old(self)@;
                if s0.has_user(id) {
                    &&& r matches Ok(u)
                    &&& u@ == (UserView { username: username@, ..s0.user_at(id) })
                    &&& final(self)@.users == s0.users.update(s0.user_index(id), u@)
                    &&& final(self)@.cards == s0.cards
                    &&& final(self)@.decks == s0.decks
                    &&& final(self)@.next_id == s0.next_id
                } else {
                    &&& final(self)@ == s0
                    &&& r == Err::<User, ApiError>(ApiError::NotFound)
                }
            }),
    {
        match self.user_pos(id) {
            Some(i) => {
                proof {
                    assert(self@.has_user(id));
                    let j = self@.user_index(id);
                    assert(0 <= j < self@.users.len() && self@.users[j].id == id);
                    assert(j == i as int);
                }
                let row = User {
                    id: self.users[i].id,
                    username,
                    email: self.users[i].email.clone(),
                };
                let copy = row.duplicate();
                self.users[i] = row;
                proof {
                    let s0 = old(self)@;
                    let s1 = self@;
                    assert(s1.users =~= s0.users.update(i as int, copy@));
                    lemma_same_id_update_user(s0, s1, i as int, copy@);
                }
                Ok(copy)
            },
            None => Err(ApiError::NotFound),
        }
    }

    /// Removes the user row with this id and returns it, or `NotFound` when
    /// no row carries the id.
    pub fn delete_user(&mut self, id: u64) -> (r: Result<User, ApiError>)
        requires
            old(self)@.wf(),
        ensures
            final(self)@.wf(),
            ({
                let s0 = old(self)@;
                if s0.has_user(id) {
                    &&& r matches Ok(u)
                    &&& u@ == s0.user_at(id)
                    &&& final(self)@.users == s0.users.remove(s0.user_index(id))
                    &&& final(self)@.cards == s0.cards
                    &&& final(self)@.decks == s0.decks
                    &&& final(self)@.next_id == s0.next_id
                } else {
                    &&& final(self)@ == s0
                    &&& r == Err::<User, ApiError>(ApiError::NotFound)
                }
            }),
    {
        match self.user_pos(id) {
            Some(i) => {
                proof {
                    assert(self@.has_user(id));
                    let j = self@.user_index(id);
                    assert(0 <= j < self@.users.len() && self@.users[j].id == id);
                    assert(j == i as int);
                }
                let row = self.users.remove(i);
                proof {
                    let s0 = old(self)@;
                    let s1 = self@;
                    assert(s1.users =~= s0.users.remove(i as int));
                    lemma_remove_user(s0, s1, i as int);
                }
                Ok(row)
            },
            None => Err(ApiError::NotFound),
        }
    }
    /// The position of the card row with this id, if any.
    fn card_pos(&self, id: u64) -> (r: Option<usize>)
        ensures
            match r {
                Some(i) => i < self@.cards.len() && self@.cards[i as int].id == id,
                None => !self@.has_card(id),
            },
    {
        let mut i: usize = 0;
        while i < self.cards.len()
            invariant
                i <= self@.cards.len(),
                forall|k: int| 0 <= k < i ==> self@.cards[k].id != id,
            decreases self@.cards.len() - i,
        {
            if self.cards[i].id == id {
                return Some(i);
            }
            i = i + 1;
        }
        None
    }

    /// Every card row, in table order.
    pub fn list_cards(&self) -> (r: Vec<Card>)
        ensures
            r.deep_view() == self@.cards,
    {
        let mut r: Vec<Card> = Vec::new();
        let mut i: usize = 0;
        while i < self.cards.len()
            invariant
                i <= self.cards@.len(),
                r@.len() == i,
                forall|k: int| 0 <= k < i ==> #[trigger] r@[k]@ == self.cards@[k]@,
            decreases self.cards@.len() - i,
        {
            let ghost r0 = r@;
            let c = self.cards[i].duplicate();
            r.push(c);
            proof {
                assert forall|k: int| 0 <= k < i + 1 implies #[trigger] r@[k]@ == self.cards@[k]@ by {
                    if k < i {
                        assert(r@[k] == r0[k]);
                        assert(r0[k]@ == self.cards@[k]@);
                    } else {
                        assert(r@[k] == c);
                    }
                }
            }
            i = i + 1;
        }
        proof {
            assert forall|k: int| 0 <= k < r@.len() implies r.deep_view()[k] == self@.cards[k] by {
                assert(r@[k]@ == self.cards@[k]@);
            }
            assert(r.deep_view() =~= self@.cards);
        }
        r
    }

    /// The card row with this id, or `None` when no row carries it.
    pub fn get_card(&self, id: u64) -> (r: Option<&Card>)
        requires
            self@.wf(),
        ensures
            match r {
                Some(c) => self@.has_card(id) && c@ == self@.card_at(id),
                None => !self@.has_card(id),
            },
    {
        match self.card_pos(id) {
            Some(i) => {
                proof {
                    assert(self@.has_card(id));
                    let j = self@.card_index(id);
                    assert(0 <= j < self@.cards.len() && self@.cards[j].id == id);
                    assert(j == i as int);
                }
                Some(&self.cards[i])
            },
            None => None,
        }
    }

    /// Inserts a card row under a fresh id and returns a copy of it.
    /// Fails only when the id counter is exhausted.
    pub fn create_card(
        &mut self,
        name: String,
        front_desc: String,
        back_desc: String,
        creator_id: u64,
        deck_id: Option<u64>,
    ) -> (r: Result<Card, ApiError>)
        requires
            old(self)@.wf(),
        ensures
            final(self)@.wf(),
            ({
                let s0 = old(self)@;
                if s0.next_id == u64::MAX {
                    &&& final(self)@ == s0
                    &&& r == Err::<Card, ApiError>(ApiError::Internal)
                } else {
                    &&& r matches Ok(c)
                    &&& c@ == (CardView {
                        id: s0.next_id,
                        name: name@,
                        front_desc: front_desc@,
                        back_desc: back_desc@,
                        creator_id,
                        deck_id,
                    })
                    &&& final(self)@.users == s0.users
                    &&& final(self)@.cards == s0.cards.push(c@)
                    &&& final(self)@.decks == s0.decks
                    &&& final(self)@.next_id == s0.next_id + 1
                }
            }),
    {
        if self.next_id == u64::MAX {
            return Err(ApiError::Internal);
        }
        let row = Card { id: self.next_id, name, front_desc, back_desc, creator_id, deck_id };
        let copy = row.duplicate();
        self.next_id = self.next_id + 1;
        self.cards.push(row);
        proof {
            let s0 = old(self)@;
            let s1 = self@;
            assert(s1.cards =~= s0.cards.push(copy@));
            lemma_fresh_push_card(s0, s1, copy@);
        }
        Ok(copy)
    }

    /// Replaces the mutable fields of the card row with this id and returns a
    /// copy of the updated row, or `NotFound` when no row carries the id.
    pub fn update_card(
        &mut self,
        id: u64,
        name: String,
        front_desc: String,
        back_desc: String,
        deck_id: Option<u64>,
    ) -> (r: Result<Card, ApiError>)
        requires
            old(self)@.wf(),
        ensures
            final(self)@.wf(),
            ({
                let s0 = old(self)@;
                if s0.has_card(id) {
                    &&& r matches Ok(c)
                    &&& c@ == (CardView {
                        name: name@,
                        front_desc: front_desc@,
                        back_desc: back_desc@,
                        deck_id,
                        ..s0.card_at(id)
                    })
                    &&& final(self)@.users == s0.users
                    &&& final(self)@.cards == s0.cards.update(s0.card_index(id), c@)
                    &&& final(self)@.decks == s0.decks
                    &&& final(self)@.next_id == s0.next_id
                } else {
                    &&& final(self)@ == s0
                    &&& r == Err::<Card, ApiError>(ApiError::NotFound)
                }
            }),
    {
        match self.card_pos(id) {
            Some(i) => {
                proof {
                    assert(self@.has_card(id));
                    let j = self@.card_index(id);
                    assert(0 <= j < self@.cards.len() && self@.cards[j].id == id);
                    assert(j == i as int);
                }
                let row = Card {
                    id: self.cards[i].id,
                    name,
                    front_desc,
                    back_desc,
                    creator_id: self.cards[i].creator_id,
                    deck_id,
                };
                let copy = row.duplicate();
                self.cards[i] = row;
                proof {
                    let s0 = old(self)@;
                    let s1 = self@;
                    assert(s1.cards =~= s0.cards.update(i as int, copy@));
                    lemma_same_id_update_card(s0, s1, i as int, copy@);
                }
                Ok(copy)
            },
            None => Err(ApiError::NotFound),
        }
    }

    /// Removes the card row with this id and returns it, or `NotFound` when
    /// no row carries the id.
    pub fn delete_card(&mut self, id: u64) -> (r: Result<Card, ApiError>)
        requires
            old(self)@.wf(),
        ensures
            final(self)@.wf(),
            ({
                let s0 = old(self)@;
                if s0.has_card(id) {
                    &&& r matches Ok(c)
                    &&& c@ == s0.card_at(id)
                    &&& final(self)@.users == s0.users
                    &&& final(self)@.cards == s0.cards.remove(s0.card_index(id))
                    &&& final(self)@.decks == s0.decks
                    &&& final(self)@.next_id == s0.next_id
                } else {
                    &&& final(self)@ == s0
                    &&& r == Err::<Card, ApiError>(ApiError::NotFound)
                }
            }),
    {
        match self.card_pos(id) {
            Some(i) => {
                proof {
                    assert(self@.has_card(id));
                    let j = self@.card_index(id);
                    assert(0 <= j < self@.cards.len() && self@.cards[j].id == id);
                    assert(j == i as int);
                }
                let row = self.cards.remove(i);
                proof {
                    let s0 = old(self)@;
                    let s1 = self@;
                    assert(s1.cards =~= s0.cards.remove(i as int));
                    lemma_remove_card(s0, s1, i as int);
                }
                Ok(row)
            },
            None => Err(ApiError::NotFound),
        }
    }

    /// The position of the deck row with this id, if any.
    fn deck_pos(&self, id: u64) -> (r: Option<usize>)
        ensures
            match r {
                Some(i) => i < self@.decks.len() && self@.decks[i as int].id == id,
                None => !self@.has_deck(id),
            },
    {
        let mut i: usize = 0;
        while i < self.decks.len()
            invariant
                i <= self@.decks.len(),
                forall|k: int| 0 <= k < i ==> self@.decks[k].id != id,
            decreases self@.decks.len() - i,
        {
            if self.decks[i].id == id {
                return Some(i);
            }
            i = i + 1;
        }
        None
    }

    /// Every deck row, in table order.
    pub fn list_decks(&self) -> (r: Vec<Deck>)
        ensures
            r.deep_view() == self@.decks,
    {
        let mut r: Vec<Deck> = Vec::new();
        let mut i: usize = 0;
        while i < self.decks.len()
            invariant
                i <= self.decks@.len(),
                r@.len() == i,
                forall|k: int| 0 <= k < i ==> #[trigger] r@[k]@ == self.decks@[k]@,
            decreases self.decks@.len() - i,
        {
            let ghost r0 = r@;
            let d = self.decks[i].duplicate();
            r.push(d);
            proof {
                assert forall|k: int| 0 <= k < i + 1 implies #[trigger] r@[k]@ == self.decks@[k]@ by {
                    if k < i {
                        assert(r@[k] == r0[k]);
                        assert(r0[k]@ == self.decks@[k]@);
                    } else {
                        assert(r@[k] == d);
                    }
                }
            }
            i = i + 1;
        }
        proof {
            assert forall|k: int| 0 <= k < r@.len() implies r.deep_view()[k] == self@.decks[k] by {
                assert(r@[k]@ == self.decks@[k]@);
            }
            assert(r.deep_view() =~= self@.decks);
        }
        r
    }

    /// The deck row with this id, or `None` when no row carries it.
    pub fn get_deck(&self, id: u64) -> (r: Option<&Deck>)
        requires
            self@.wf(),
        ensures
            match r {
                Some(d) => self@.has_deck(id) && d@ == self@.deck_at(id),
                None => !self@.has_deck(id),
            },
    {
        match self.deck_pos(id) {
            Some(i) => {
                proof {
                    assert(self@.has_deck(id));
                    let j = self@.deck_index(id);
                    assert(0 <= j < self@.decks.len() && self@.decks[j].id == id);
                    assert(j == i as int);
                }
                Some(&self.decks[i])
            },
            None => None,
        }
    }

    /// Inserts a deck row under a fresh id and returns a copy of it.
    /// Fails only when the id counter is exhausted.
    pub fn create_deck(
        &mut self,
        name: String,
        creator_id: u64,
        cards: Vec<u64>,
    ) -> (r: Result<Deck, ApiError>)
        requires
            old(self)@.wf(),
        ensures
            final(self)@.wf(),
            ({
                let s0 = old(self)@;
                if s0.next_id == u64::MAX {
                    &&& final(self)@ == s0
                    &&& r == Err::<Deck, ApiError>(ApiError::Internal)
                } else {
                    &&& r matches Ok(d)
                    &&& d@ == (DeckView {
                        id: s0.next_id,
                        name: name@,
                        creator_id,
                        cards: cards@,
                    })
                    &&& final(self)@.users == s0.users
                    &&& final(self)@.cards == s0.cards
                    &&& final(self)@.decks == s0.decks.push(d@)
                    &&& final(self)@.next_id == s0.next_id + 1
                }
            }),
    {
        if self.next_id == u64::MAX {
            return Err(ApiError::Internal);
        }
        let row = Deck { id: self.next_id, name, creator_id, cards };
        let copy = row.duplicate();
        self.next_id = self.next_id + 1;
        self.decks.push(row);
        proof {
            let s0 = old(self)@;
            let s1 = self@;
            assert(s1.decks =~= s0.decks.push(copy@));
            lemma_fresh_push_deck(s0, s1, copy@);
        }
        Ok(copy)
    }

    /// Replaces the mutable fields of the deck row with this id and returns a
    /// copy of the updated row, or `NotFound` when no row carries the id.
    pub fn update_deck(&mut self, id: u64, name: String, cards: Vec<u64>) -> (r: Result<
        Deck,
        ApiError,
    >)
        requires
            old(self)@.wf(),
        ensures
            final(self)@.wf(),
            ({
                let s0 = old(self)@;
                if s0.has_deck(id) {
                    &&& r matches Ok(d)
                    &&& d@ == (DeckView { name: name@, cards: cards@, ..s0.deck_at(id) })
                    &&& final(self)@.users == s0.users
                    &&& final(self)@.cards == s0.cards
                    &&& final(self)@.decks == s0.decks.update(s0.deck_index(id), d@)
                    &&& final(self)@.next_id == s0.next_id
                } else {
                    &&& final(self)@ == s0
                    &&& r == Err::<Deck, ApiError>(ApiError::NotFound)
                }
            }),
    {
        match self.deck_pos(id) {
            Some(i) => {
                proof {
                    assert(self@.has_deck(id));
                    let j = self@.deck_index(id);
                    assert(0 <= j < self@.decks.len() && self@.decks[j].id == id);
                    assert(j == i as int);
                }
                let row = Deck {
                    id: self.decks[i].id,
                    name,
                    creator_id: self.decks[i].creator_id,
                    cards,
                };
                let copy = row.duplicate();
                self.decks[i] = row;
                proof {
                    let s0 = old(self)@;
                    let s1 = self@;
                    assert(s1.decks =~= s0.decks.update(i as int, copy@));
                    lemma_same_id_update_deck(s0, s1, i as int, copy@);
                }
                Ok(copy)
            },
            None => Err(ApiError::NotFound),
        }
    }

    /// Removes the deck row with this id and returns it, or `NotFound` when
    /// no row carries the id.
    pub fn delete_deck(&mut self, id: u64) -> (r: Result<Deck, ApiError>)
        requires
            old(self)@.wf(),
        ensures
            final(self)@.wf(),
            ({
                let s0 = old(self)@;
                if s0.has_deck(id) {
                    &&& r matches Ok(d)
                    &&& d@ == s0.deck_at(id)
                    &&& final(self)@.users == s0.users
                    &&& final(self)@.cards == s0.cards
                    &&& final(self)@.decks == s0.decks.remove(s0.deck_index(id))
                    &&& final(self)@.next_id == s0.next_id
                } else {
                    &&& final(self)@ == s0
                    &&& r == Err::<Deck, ApiError>(ApiError::NotFound)
                }
            }),
    {
        match self.deck_pos(id) {
            Some(i) => {
                proof {
                    assert(self@.has_deck(id));
                    let j = self@.deck_index(id);
                    assert(0 <= j < self@.decks.len() && self@.decks[j].id == id);
                    assert(j == i as int);
                }
                let row = self.decks.remove(i);
                proof {
                    let s0 = old(self)@;
                    let s1 = self@;
                    assert(s1.decks =~= s0.decks.remove(i as int));
                    lemma_remove_deck(s0, s1, i as int);
                }
                Ok(row)
            },
            None => Err(ApiError::NotFound),
        }
    }
}

/// Pushing a row under the fresh counter id keeps the store well-formed once
/// the counter moves past it.
proof fn lemma_fresh_push_user(s0: StoreView, s1: StoreView, u: UserView)
    requires
        s0.wf(),
        s0.next_id < u64::MAX,
        u.id == s0.next_id,
        s1.users == s0.users.push(u),
        s1.cards == s0.cards,
        s1.decks == s0.decks,
        s1.next_id == s0.next_id + 1,
    ensures
        s1.wf(),
{
    assert forall|i: int, j: int|
        0 <= i < j < s1.users.len() implies #[trigger] s1.users[i].id != #[trigger] s1.users[j].id by {
        if j == s1.users.len() - 1 {
            assert(s1.users[i] == s0.users[i]);
            assert(s0.users[i].id < s0.next_id);
        } else {
            assert(s1.users[i] == s0.users[i]);
            assert(s1.users[j] == s0.users[j]);
        }
    }
    assert forall|i: int| 0 <= i < s1.users.len() implies #[trigger] s1.users[i].id < s1.next_id by {
        if i < s1.users.len() - 1 {
            assert(s1.users[i] == s0.users[i]);
        }
    }
    assert forall|i: int| 0 <= i < s1.cards.len() implies #[trigger] s1.cards[i].id < s1.next_id by {
        assert(s1.cards[i] == s0.cards[i]);
    }
    assert forall|i: int| 0 <= i < s1.decks.len() implies #[trigger] s1.decks[i].id < s1.next_id by {
        assert(s1.decks[i] == s0.decks[i]);
    }
}

/// Replacing a row by one that keeps its id keeps the store well-formed.
proof fn lemma_same_id_update_user(s0: StoreView, s1: StoreView, k: int, u: UserView)
    requires
        s0.wf(),
        0 <= k < s0.users.len(),
        u.id == s0.users[k].id,
        s1.users == s0.users.update(k, u),
        s1.cards == s0.cards,
        s1.decks == s0.decks,
        s1.next_id == s0.next_id,
    ensures
        s1.wf(),
{
    assert forall|i: int, j: int|
        0 <= i < j < s1.users.len() implies #[trigger] s1.users[i].id != #[trigger] s1.users[j].id by {
        assert(s1.users[i].id == s0.users[i].id);
        assert(s1.users[j].id == s0.users[j].id);
    }
    assert forall|i: int| 0 <= i < s1.users.len() implies #[trigger] s1.users[i].id < s1.next_id by {
        assert(s1.users[i].id == s0.users[i].id);
    }
}

/// Removing a row keeps the store well-formed.
proof fn lemma_remove_user(s0: StoreView, s1: StoreView, k: int)
    requires
        s0.wf(),
        0 <= k < s0.users.len(),
        s1.users == s0.users.remove(k),
        s1.cards == s0.cards,
        s1.decks == s0.decks,
        s1.next_id == s0.next_id,
    ensures
        s1.wf(),
{
    assert forall|i: int, j: int|
        0 <= i < j < s1.users.len() implies #[trigger] s1.users[i].id != #[trigger] s1.users[j].id by {
        let i0: int = if i < k { i } else { i + 1 };
        let j0: int = if j < k { j } else { j + 1 };
        assert(s1.users[i] == s0.users[i0]);
        assert(s1.users[j] == s0.users[j0]);
        assert(s0.users[i0].id != s0.users[j0].id);
    }
    assert forall|i: int| 0 <= i < s1.users.len() implies #[trigger] s1.users[i].id < s1.next_id by {
        let i0: int = if i < k { i } else { i + 1 };
        assert(s1.users[i] == s0.users[i0]);
    }
}

/// Pushing a row under the fresh counter id keeps the store well-formed once
/// the counter moves past it.
proof fn lemma_fresh_push_card(s0: StoreView, s1: StoreView, c: CardView)
    requires
        s0.wf(),
        s0.next_id < u64::MAX,
        c.id == s0.next_id,
        s1.users == s0.users,
        s1.cards == s0.cards.push(c),
        s1.decks == s0.decks,
        s1.next_id == s0.next_id + 1,
    ensures
        s1.wf(),
{
    assert forall|i: int, j: int|
        0 <= i < j < s1.cards.len() implies #[trigger] s1.cards[i].id != #[trigger] s1.cards[j].id by {
        if j == s1.cards.len() - 1 {
            assert(s1.cards[i] == s0.cards[i]);
            assert(s0.cards[i].id < s0.next_id);
        } else {
            assert(s1.cards[i] == s0.cards[i]);
            assert(s1.cards[j] == s0.cards[j]);
        }
    }
    assert forall|i: int| 0 <= i < s1.cards.len() implies #[trigger] s1.cards[i].id < s1.next_id by {
        if i < s1.cards.len() - 1 {
            assert(s1.cards[i] == s0.cards[i]);
        }
    }
    assert forall|i: int| 0 <= i < s1.users.len() implies #[trigger] s1.users[i].id < s1.next_id by {
        assert(s1.users[i] == s0.users[i]);
    }
    assert forall|i: int| 0 <= i < s1.decks.len() implies #[trigger] s1.decks[i].id < s1.next_id by {
        assert(s1.decks[i] == s0.decks[i]);
    }
}

/// Replacing a row by one that keeps its id keeps the store well-formed.
proof fn lemma_same_id_update_card(s0: StoreView, s1: StoreView, k: int, c: CardView)
    requires
        s0.wf(),
        0 <= k < s0.cards.len(),
        c.id == s0.cards[k].id,
        s1.users == s0.users,
        s1.cards == s0.cards.update(k, c),
        s1.decks == s0.decks,
        s1.next_id == s0.next_id,
    ensures
        s1.wf(),
{
    assert forall|i: int, j: int|
        0 <= i < j < s1.cards.len() implies #[trigger] s1.cards[i].id != #[trigger] s1.cards[j].id by {
        assert(s1.cards[i].id == s0.cards[i].id);
        assert(s1.cards[j].id == s0.cards[j].id);
    }
    assert forall|i: int| 0 <= i < s1.cards.len() implies #[trigger] s1.cards[i].id < s1.next_id by {
        assert(s1.cards[i].id == s0.cards[i].id);
    }
}

/// Removing a row keeps the store well-formed.
proof fn lemma_remove_card(s0: StoreView, s1: StoreView, k: int)
    requires
        s0.wf(),
        0 <= k < s0.cards.len(),
        s1.users == s0.users,
        s1.cards == s0.cards.remove(k),
        s1.decks == s0.decks,
        s1.next_id == s0.next_id,
    ensures
        s1.wf(),
{
    assert forall|i: int, j: int|
        0 <= i < j < s1.cards.len() implies #[trigger] s1.cards[i].id != #[trigger] s1.cards[j].id by {
        let i0: int = if i < k { i } else { i + 1 };
        let j0: int = if j < k { j } else { j + 1 };
        assert(s1.cards[i] == s0.cards[i0]);
        assert(s1.cards[j] == s0.cards[j0]);
        assert(s0.cards[i0].id != s0.cards[j0].id);
    }
    assert forall|i: int| 0 <= i < s1.cards.len() implies #[trigger] s1.cards[i].id < s1.next_id by {
        let i0: int = if i < k { i } else { i + 1 };
        assert(s1.cards[i] == s0.cards[i0]);
    }
}

/// Pushing a row under the fresh counter id keeps the store well-formed once
/// the counter moves past it.
proof fn lemma_fresh_push_deck(s0: StoreView, s1: StoreView, d: DeckView)
    requires
        s0.wf(),
        s0.next_id < u64::MAX,
        d.id == s0.next_id,
        s1.users == s0.users,
        s1.cards == s0.cards,
        s1.decks == s0.decks.push(d),
        s1.next_id == s0.next_id + 1,
    ensures
        s1.wf(),
{
    assert forall|i: int, j: int|
        0 <= i < j < s1.decks.len() implies #[trigger] s1.decks[i].id != #[trigger] s1.decks[j].id by {
        if j == s1.decks.len() - 1 {
            assert(s1.decks[i] == s0.decks[i]);
            assert(s0.decks[i].id < s0.next_id);
        } else {
            assert(s1.decks[i] == s0.decks[i]);
            assert(s1.decks[j] == s0.decks[j]);
        }
    }
    assert forall|i: int| 0 <= i < s1.decks.len() implies #[trigger] s1.decks[i].id < s1.next_id by {
        if i < s1.decks.len() - 1 {
            assert(s1.decks[i] == s0.decks[i]);
        }
    }
    assert forall|i: int| 0 <= i < s1.users.len() implies #[trigger] s1.users[i].id < s1.next_id by {
        assert(s1.users[i] == s0.users[i]);
    }
    assert forall|i: int| 0 <= i < s1.cards.len() implies #[trigger] s1.cards[i].id < s1.next_id by {
        assert(s1.cards[i] == s0.cards[i]);
    }
}

/// Replacing a row by one that keeps its id keeps the store well-formed.
proof fn lemma_same_id_update_deck(s0: StoreView, s1: StoreView, k: int, d: DeckView)
    requires
        s0.wf(),
        0 <= k < s0.decks.len(),
        d.id == s0.decks[k].id,
        s1.users == s0.users,
        s1.cards == s0.cards,
        s1.decks == s0.decks.update(k, d),
        s1.next_id == s0.next_id,
    ensures
        s1.wf(),
{
    assert forall|i: int, j: int|
        0 <= i < j < s1.decks.len() implies #[trigger] s1.decks[i].id != #[trigger] s1.decks[j].id by {
        assert(s1.decks[i].id == s0.decks[i].id);
        assert(s1.decks[j].id == s0.decks[j].id);
    }
    assert forall|i: int| 0 <= i < s1.decks.len() implies #[trigger] s1.decks[i].id < s1.next_id by {
        assert(s1.decks[i].id == s0.decks[i].id);
    }
}

/// Removing a row keeps the store well-formed.
proof fn lemma_remove_deck(s0: StoreView, s1: StoreView, k: int)
    requires
        s0.wf(),
        0 <= k < s0.decks.len(),
        s1.users == s0.users,
        s1.cards == s0.cards,
        s1.decks == s0.decks.remove(k),
        s1.next_id == s0.next_id,
    ensures
        s1.wf(),
{
    assert forall|i: int, j: int|
        0 <= i < j < s1.decks.len() implies #[trigger] s1.decks[i].id != #[trigger] s1.decks[j].id by {
        let i0: int = if i < k { i } else { i + 1 };
        let j0: int = if j < k { j } else { j + 1 };
        assert(s1.decks[i] == s0.decks[i0]);
        assert(s1.decks[j] == s0.decks[j0]);
        assert(s0.decks[i0].id != s0.decks[j0].id);
    }
    assert forall|i: int| 0 <= i < s1.decks.len() implies #[trigger] s1.decks[i].id < s1.next_id by {
        let i0: int = if i < k { i } else { i + 1 };
        assert(s1.decks[i] == s0.decks[i0]);
    }
}

} // verus!
