//! User endpoints: list, fetch, create, update, delete.
//!
//! Each handler is a total function from the store and the parsed request to
//! the new store and the outcome; the `spec_*` functions state that behaviour
//! as a transition on [`StoreView`], and every handler is proved to implement
//! its transition exactly.

use vstd::prelude::*;

use crate::entities::{User, UserView};
use crate::error::ApiError;
use crate::store::{Store, StoreView};

verus! {

/// Body of `POST /users`.
pub struct CreateUser {
    pub username: String,
    pub email: String,
}

/// The mathematical value of a [`CreateUser`] request.
#[verifier::ext_equal]
pub ghost struct CreateUserView {
    pub username: Seq<char>,
    pub email: Seq<char>,
}

impl View for CreateUser {
    type V = CreateUserView;

    open spec fn view(&self) -> CreateUserView {
        CreateUserView { username: self.username@, email: self.email@ }
    }
}

/// Body of `PUT /users/{id}`.
pub struct UpdateUser {
    pub username: String,
}

/// The mathematical value of an [`UpdateUser`] request.
#[verifier::ext_equal]
pub ghost struct UpdateUserView {
    pub username: Seq<char>,
}

impl View for UpdateUser {
    type V = UpdateUserView;

    open spec fn view(&self) -> UpdateUserView {
        UpdateUserView { username: self.username@ }
    }
}

/// The outcome of a user handler, seen mathematically.
pub open spec fn user_result_view(r: Result<User, ApiError>) -> Result<UserView, ApiError> {
    match r {
        Ok(u) => Ok(u@),
        Err(e) => Err(e),
    }
}

/// What fetching a user by id returns.
pub open spec fn spec_get_user(s: StoreView, id: u64) -> Result<UserView, ApiError> {
    if s.has_user(id) {
        Ok(s.user_at(id))
    } else {
        Err(ApiError::NotFound)
    }
}

/// What creating a user does to the store and returns.
///
/// A taken username is a conflict; otherwise the row is inserted under the
/// fresh counter id (an exhausted counter is the one store failure).
pub open spec fn spec_create_user(s: StoreView, req: CreateUserView) -> (StoreView, Result<
    UserView,
    ApiError,
>) {
    if s.username_taken(req.username) {
        (s, Err(ApiError::Conflict))
    } else if s.next_id == u64::MAX {
        (s, Err(ApiError::Internal))
    } else {
        let u = UserView { id: s.next_id, username: req.username, email: req.email };
        (
            StoreView { users: s.users.push(u), next_id: (s.next_id + 1) as u64, ..s },
            Ok(u),
        )
    }
}

/// What updating a user's username does to the store and returns.
pub open spec fn spec_update_user(s: StoreView, id: u64, req: UpdateUserView) -> (StoreView, Result<
    UserView,
    ApiError,
>) {
    if s.has_user(id) {
        let u = UserView { username: req.username, ..s.user_at(id) };
        (StoreView { users: s.users.update(s.user_index(id), u), ..s }, Ok(u))
    } else {
        (s, Err(ApiError::NotFound))
    }
}

/// What deleting a user does to the store and returns.
pub open spec fn spec_delete_user(s: StoreView, id: u64) -> (StoreView, Result<
    UserView,
    ApiError,
>) {
    if s.has_user(id) {
        (StoreView { users: s.users.remove(s.user_index(id)), ..s }, Ok(s.user_at(id)))
    } else {
        (s, Err(ApiError::NotFound))
    }
}

/// `GET /users`: every user row. Always succeeds, an empty table included.
pub fn users(store: &Store) -> (r: Result<Vec<User>, ApiError>)
    ensures
        r matches Ok(list) && list.deep_view() == store@.users,
{
    Ok(store.list_users())
}

/// `GET /users/{id}`: the user with this id, or `NotFound`.
pub fn user(store: &Store, id: u64) -> (r: Result<User, ApiError>)
    requires
        store@.wf(),
    ensures
        user_result_view(r) == spec_get_user(store@, id),
{
    match store.get_user(id) {
        Some(u) => Ok(u.duplicate()),
        None => Err(ApiError::NotFound),
    }
}

/// `POST /users`: create a user unless the username is taken.
pub fn create_user(store: &mut Store, payload: CreateUser) -> (r: Result<User, ApiError>)
    requires
        old(store)@.wf(),
    ensures
        final(store)@.wf(),
        final(store)@ == spec_create_user(old(store)@, payload@).0,
        user_result_view(r) == spec_create_user(old(store)@, payload@).1,
{
    if store.find_by_username(&payload.username).is_some() {
        return Err(ApiError::Conflict);
    }
    let r = store.create_user(payload.username, payload.email);
    proof {
        assert(final(store)@ =~= spec_create_user(old(store)@, payload@).0);
    }
    r
}

/// `PUT /users/{id}`: replace the username of an existing user.
pub fn update_user(store: &mut Store, id: u64, payload: UpdateUser) -> (r: Result<User, ApiError>)
    requires
        old(store)@.wf(),
    ensures
        final(store)@.wf(),
        final(store)@ == spec_update_user(old(store)@, id, payload@).0,
        user_result_view(r) == spec_update_user(old(store)@, id, payload@).1,
{
    if store.get_user(id).is_none() {
        return Err(ApiError::NotFound);
    }
    let r = store.update_user(id, payload.username);
    proof {
        assert(final(store)@ =~= spec_update_user(old(store)@, id, payload@).0);
    }
    r
}

/// `DELETE /users/{id}`: remove an existing user and return it.
///
/// No cascade: cards created by the user keep their creator id.
pub fn delete_user(store: &mut Store, id: u64) -> (r: Result<User, ApiError>)
    requires
        old(store)@.wf(),
    ensures
        final(store)@.wf(),
        final(store)@ == spec_delete_user(old(store)@, id).0,
        user_result_view(r) == spec_delete_user(old(store)@, id).1,
{
    let r = store.delete_user(id);
    proof {
        assert(final(store)@ =~= spec_delete_user(old(store)@, id).0);
    }
    r
}

/// No two user rows share a username.
pub open spec fn usernames_distinct(s: StoreView) -> bool {
    forall|i: int, j: int|
        #![trigger s.users[i].username, s.users[j].username]
        0 <= i < j < s.users.len() ==> s.users[i].username != s.users[j].username
}

/// Law: creating a user under a username that is already present always
/// yields `Conflict` and leaves the store untouched — and however creation
/// ends, it never produces two rows with the same username.
pub proof fn lemma_create_user_no_duplicate(s: StoreView, req: CreateUserView)
    requires
        usernames_distinct(s),
    ensures
        s.username_taken(req.username) ==> spec_create_user(s, req) == (
            s,
            Err::<UserView, ApiError>(ApiError::Conflict),
        ),
        usernames_distinct(spec_create_user(s, req).0),
{
    if !s.username_taken(req.username) && s.next_id != u64::MAX {
        let s1 = spec_create_user(s, req).0;
        assert forall|i: int, j: int|
            0 <= i < j < s1.users.len() implies #[trigger] s1.users[i].username != #[trigger] s1.users[j].username by {
            if j == s1.users.len() - 1 {
                assert(s1.users[i] == s.users[i]);
                assert(s.users[i].username != req.username);
            } else {
                assert(s1.users[i] == s.users[i]);
                assert(s1.users[j] == s.users[j]);
            }
        }
    }
}

} // verus!
