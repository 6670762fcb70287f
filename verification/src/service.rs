//! The operations the dispatch layer calls: registration, the authentication
//! gate, fetching a user snapshot, and the todo upsert. Each is one atomic
//! request against the user store; the caller provides mutual exclusion
//! around each call.

use vstd::prelude::*;

use crate::hashing::{bcrypt_verifies, PasswordHash};
use crate::models::{TodoItem, User};
use crate::store::{register_effect, upsert_effect, StoreError, StoredUserView, UserStore};

verus! {

/// Failure of a service operation.
#[derive(Debug, Clone, Copy, PartialEq, Eq, Structural)]
pub enum ServiceError {
    /// Registration of a username that is already taken.
    Conflict,
    /// A credential that does not verify, or an unverifiable claim.
    Unauthorized,
    /// An operation on a user that does not exist.
    NotFound,
    /// A failure of the hashing subsystem; not retryable.
    Internal,
}

/// The authentication gate's decision: the claim is good iff the username is
/// registered and the presented password verifies against the stored digest.
pub open spec fn auth_ok(
    m: Map<Seq<char>, StoredUserView>,
    username: Seq<char>,
    password: Seq<char>,
) -> bool {
    m.contains_key(username) && bcrypt_verifies(m[username].hash, password)
}

/// Hashes the password and inserts a fresh user record iff the username is
/// free. A taken username is refused with `Conflict`; a hashing failure with
/// `Internal`; either refusal leaves the store unchanged. On success the
/// store gains the user under some digest that the password verifies against.
pub fn register_user(store: &mut UserStore, username: String, password: String) -> (r: Result<
    (),
    ServiceError,
>)
    ensures
        r is Ok ==> !old(store)@.contains_key(username@) && exists|h: Seq<char>|
            bcrypt_verifies(h, password@) && final(store)@ == register_effect(
                old(store)@,
                username@,
                h,
            ),
        r is Err ==> final(store)@ == old(store)@,
        r matches Err(e) ==> e == ServiceError::Conflict || e == ServiceError::Internal,
        r == Err::<(), ServiceError>(ServiceError::Conflict) ==> old(store)@.contains_key(
            username@,
        ),
        old(store)@.contains_key(username@) ==> !(r is Ok),
        !old(store)@.contains_key(username@) ==> r is Ok || r == Err::<(), ServiceError>(
            ServiceError::Internal,
        ),
{
    match PasswordHash::from_password(password) {
        Ok(hash) => {
            let ghost h = hash@;
            match store.register(username, hash) {
                Ok(()) => {
                    proof {
                        assert(bcrypt_verifies(h, password@) && store@ == register_effect(
                            old(store)@,
                            username@,
                            h,
                        ));
                    }
                    Ok(())
                },
                Err(_) => Err(ServiceError::Conflict),
            }
        },
        Err(_) => Err(ServiceError::Internal),
    }
}

/// The authentication gate: looks the claimed username up and verifies the
/// presented password against the stored digest; succeeds iff both hold, and
/// then returns the username as verified. An unknown username and a wrong
/// password collapse into the same `Unauthorized` answer.
pub fn authenticate(store: &UserStore, username: &String, password: &String) -> (r: Result<
    String,
    ServiceError,
>)
    ensures
        r is Ok <==> auth_ok(store@, username@, password@),
        r matches Ok(v) ==> v@ == username@,
        r matches Err(e) ==> e == ServiceError::Unauthorized,
{
    match store.hash_of(username) {
        Some(hash) => {
            if hash.verify(password.as_str()) {
                Ok(username.clone())
            } else {
                Err(ServiceError::Unauthorized)
            }
        },
        None => Err(ServiceError::Unauthorized),
    }
}

/// Returns a snapshot of the record under `username`, or `NotFound`. The
/// caller passes a username verified by [`authenticate`] when the record is
/// another principal's private data.
pub fn get_user(store: &UserStore, username: &String) -> (r: Result<User, ServiceError>)
    ensures
        r is Ok <==> store@.contains_key(username@),
        r matches Ok(u) ==> u@ == store@[username@].user,
        r matches Err(e) ==> e == ServiceError::NotFound,
{
    match store.get(username) {
        Ok(user) => Ok(user),
        Err(_) => Err(ServiceError::NotFound),
    }
}

/// Inserts `todo` into the collection of the user under `username`,
/// replacing any entry with the same id; an unregistered username is refused
/// with `NotFound` and the store is unchanged. The caller passes a username
/// verified by [`authenticate`].
pub fn add_todo(store: &mut UserStore, username: &String, todo: TodoItem) -> (r: Result<
    (),
    ServiceError,
>)
    ensures
        r is Ok <==> old(store)@.contains_key(username@),
        final(store)@ == upsert_effect(old(store)@, username@, todo@),
        r matches Err(e) ==> e == ServiceError::NotFound,
{
    match store.upsert_todo(username, todo) {
        Ok(()) => Ok(()),
        Err(_) => Err(ServiceError::NotFound),
    }
}

} // verus!
