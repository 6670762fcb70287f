//! The properties the service promises, stated over the store's abstract
//! map and the effect functions that the operations' contracts use, and
//! proved once for all inputs.

use vstd::prelude::*;

use crate::hashing::bcrypt_verifies;
use crate::models::{TodoView, UserView};
use crate::service::auth_ok;
use crate::store::{register_effect, upsert_effect, StoredUserView};

verus! {

/// Idempotent upsert: upserting the same item twice under the same username
/// leaves the same store as upserting it once.
pub proof fn lemma_upsert_idempotent(
    m: Map<Seq<char>, StoredUserView>,
    u: Seq<char>,
    t: TodoView,
)
    ensures
        upsert_effect(upsert_effect(m, u, t), u, t) == upsert_effect(m, u, t),
{
    if m.contains_key(u) {
        let m1 = upsert_effect(m, u, t);
        assert(m1[u].user.todos.insert(t.id, t) =~= m1[u].user.todos);
        assert(upsert_effect(m1, u, t) =~= m1);
    }
}

/// Registration uniqueness: once a registration of `u` has taken effect, the
/// store holds `u`, so every later registration of `u` is refused — the
/// store's `register` succeeds iff the name is absent. Serialized one by one
/// by the store's lock, N registrations of one name thus yield exactly one
/// success.
pub proof fn lemma_register_unique(
    m: Map<Seq<char>, StoredUserView>,
    u: Seq<char>,
    h: Seq<char>,
)
    ensures
        register_effect(m, u, h).contains_key(u),
{
}

/// Authentication correctness, the positive half: after a registration of
/// `u` with a digest that `p` verifies against — which `from_password` gives
/// for the password it hashed — authentication accepts `(u, p)`.
pub proof fn lemma_authenticate_registered(
    m: Map<Seq<char>, StoredUserView>,
    u: Seq<char>,
    h: Seq<char>,
    p: Seq<char>,
)
    requires
        bcrypt_verifies(h, p),
    ensures
        auth_ok(register_effect(m, u, h), u, p),
{
}

/// Authentication correctness for an unknown name: every claim for a
/// username the store does not hold is rejected.
pub proof fn lemma_authenticate_unregistered(
    m: Map<Seq<char>, StoredUserView>,
    u: Seq<char>,
    p: Seq<char>,
)
    requires
        !m.contains_key(u),
    ensures
        !auth_ok(m, u, p),
{
}

/// Authentication correctness for a wrong password: every candidate that
/// does not verify against the stored digest is rejected. That a password
/// other than the hashed one does not verify is bcrypt's own guarantee and
/// is not restated here.
pub proof fn lemma_authenticate_wrong_password(
    m: Map<Seq<char>, StoredUserView>,
    u: Seq<char>,
    p: Seq<char>,
)
    requires
        !bcrypt_verifies(m[u].hash, p),
    ensures
        !auth_ok(m, u, p),
{
}

/// Isolation: an upsert under username `a` neither adds, removes nor changes
/// the record of any other username `b`.
pub proof fn lemma_upsert_isolated(
    m: Map<Seq<char>, StoredUserView>,
    a: Seq<char>,
    b: Seq<char>,
    t: TodoView,
)
    requires
        a != b,
    ensures
        upsert_effect(m, a, t).contains_key(b) == m.contains_key(b),
        m.contains_key(b) ==> upsert_effect(m, a, t)[b] == m[b],
{
}

/// Isolation for registration: registering username `a` leaves the record of
/// every other username `b` untouched.
pub proof fn lemma_register_isolated(
    m: Map<Seq<char>, StoredUserView>,
    a: Seq<char>,
    b: Seq<char>,
    h: Seq<char>,
)
    requires
        a != b,
    ensures
        register_effect(m, a, h).contains_key(b) == m.contains_key(b),
        m.contains_key(b) ==> register_effect(m, a, h)[b] == m[b],
{
}

/// Linearizability on one key: once a registration of `u` has taken effect,
/// the store holds exactly the fresh record — so a `get(u)` that begins
/// after a `register(u)` completed observes it and cannot answer `NotFound`,
/// `get` being exact on the store's map.
pub proof fn lemma_register_then_get(
    m: Map<Seq<char>, StoredUserView>,
    u: Seq<char>,
    h: Seq<char>,
)
    ensures
        register_effect(m, u, h).contains_key(u),
        register_effect(m, u, h)[u] == (StoredUserView {
            hash: h,
            user: UserView { username: u, todos: Map::empty() },
        }),
{
}

} // verus!
