//! The user store: a keyed mapping from username to user record (password
//! digest plus todo collection). Every operation is a single read-modify-write
//! step whose effect on the abstract map is stated exactly; a caller that
//! needs several requests to run concurrently puts the whole store behind one
//! mutual-exclusion lock and so makes each operation atomic.

use vstd::prelude::*;

use crate::hashing::PasswordHash;
use crate::models::{
    lemma_todos_as_map_push, lemma_todos_as_map_update, todo_ids_unique, todos_as_map,
    TodoItem, User, UserView,
};

verus! {

/// Failure of a store operation.
#[derive(Debug, Clone, Copy, PartialEq, Eq, Structural)]
pub enum StoreError {
    /// A record with the given username already exists.
    AlreadyExists,
    /// No record with the given username exists.
    NotFound,
}

/// What the store keeps for one username: the password digest and the
/// user record.
pub ghost struct StoredUserView {
    pub hash: Seq<char>,
    pub user: UserView,
}

/// One stored record: the key, the password digest, and the user record.
pub struct DbUser {
    pub username: String,
    pub password: PasswordHash,
    pub user: User,
}

impl View for DbUser {
    type V = StoredUserView;

    open spec fn view(&self) -> StoredUserView {
        StoredUserView { hash: self.password@, user: self.user@ }
    }
}

/// The username-keyed map described by a sequence of records; on duplicate
/// usernames the later record wins (the store keeps them distinct).
pub open spec fn users_as_map(s: Seq<DbUser>) -> Map<Seq<char>, StoredUserView>
    decreases s.len(),
{
    if s.len() == 0 {
        Map::empty()
    } else {
        users_as_map(s.drop_last()).insert(s.last().username@, s.last()@)
    }
}

/// The usernames in `s` are pairwise distinct.
pub open spec fn usernames_unique(s: Seq<DbUser>) -> bool {
    forall|i: int, j: int| 0 <= i < j < s.len() ==> s[i].username@ != s[j].username@
}

/// A record is internally consistent: its key names the user it holds, and
/// the user's todo ids are pairwise distinct.
pub open spec fn wf_entry(d: DbUser) -> bool {
    &&& d.username@ == d.user.username@
    &&& todo_ids_unique(d.user.todos_map@)
}

/// The abstract effect of registering `username` with digest `hash` on a
/// store that does not hold that name: a fresh record with no todos.
pub open spec fn register_effect(
    m: Map<Seq<char>, StoredUserView>,
    username: Seq<char>,
    hash: Seq<char>,
) -> Map<Seq<char>, StoredUserView> {
    m.insert(
        username,
        StoredUserView { hash, user: UserView { username, todos: Map::empty() } },
    )
}

/// The abstract effect of upserting todo `t` under `username`: the item is
/// inserted into that user's todos, replacing any entry with the same id;
/// a store that does not hold the name is left unchanged.
pub open spec fn upsert_effect(
    m: Map<Seq<char>, StoredUserView>,
    username: Seq<char>,
    t: crate::models::TodoView,
) -> Map<Seq<char>, StoredUserView> {
    if m.contains_key(username) {
        m.insert(
            username,
            StoredUserView {
                hash: m[username].hash,
                user: UserView {
                    username: m[username].user.username,
                    todos: m[username].user.todos.insert(t.id, t),
                },
            },
        )
    } else {
        m
    }
}

/// A key is in the map iff some record of the sequence carries it.
pub proof fn lemma_users_as_map_contains(s: Seq<DbUser>, k: Seq<char>)
    ensures
        users_as_map(s).contains_key(k) <==> exists|i: int|
            0 <= i < s.len() && s[i].username@ == k,
    decreases s.len(),
{
    if s.len() > 0 {
        lemma_users_as_map_contains(s.drop_last(), k);
        if s.last().username@ == k {
            assert(s[s.len() - 1].username@ == k);
        } else if users_as_map(s).contains_key(k) {
            let i = choose|i: int|
                0 <= i < s.drop_last().len() && s.drop_last()[i].username@ == k;
            assert(s[i].username@ == k);
        } else if exists|i: int| 0 <= i < s.len() && s[i].username@ == k {
            let i = choose|i: int| 0 <= i < s.len() && s[i].username@ == k;
            assert(i < s.len() - 1);
            assert(s.drop_last()[i].username@ == k);
        }
    }
}

/// With pairwise distinct usernames, the map sends each record's key to
/// that record.
pub proof fn lemma_users_as_map_index(s: Seq<DbUser>, i: int)
    requires
        usernames_unique(s),
        0 <= i < s.len(),
    ensures
        users_as_map(s).contains_key(s[i].username@),
        users_as_map(s)[s[i].username@] == s[i]@,
    decreases s.len(),
{
    if i == s.len() - 1 {
        assert(s.last() == s[i]);
    } else {
        assert(usernames_unique(s.drop_last()));
        assert(s.drop_last()[i] == s[i]);
        lemma_users_as_map_index(s.drop_last(), i);
        assert(s[i].username@ != s[s.len() - 1].username@);
        assert(s.last() == s[s.len() - 1]);
    }
}

/// Appending a record inserts it into the map.
pub proof fn lemma_users_as_map_push(s: Seq<DbUser>, d: DbUser)
    ensures
        users_as_map(s.push(d)) == users_as_map(s).insert(d.username@, d@),
{
    assert(s.push(d).drop_last() =~= s);
    assert(s.push(d).last() == d);
}

/// Replacing the record that carries a key inserts the new record into
/// the map.
pub proof fn lemma_users_as_map_update(s: Seq<DbUser>, i: int, d: DbUser)
    requires
        usernames_unique(s),
        0 <= i < s.len(),
        s[i].username@ == d.username@,
    ensures
        users_as_map(s.update(i, d)) == users_as_map(s).insert(d.username@, d@),
    decreases s.len(),
{
    let s2 = s.update(i, d);
    if i == s.len() - 1 {
        assert(s2.drop_last() =~= s.drop_last());
        assert(s2.last() == d);
        assert(s.last() == s[i]);
        assert(users_as_map(s2) =~= users_as_map(s).insert(d.username@, d@));
    } else {
        assert(usernames_unique(s.drop_last()));
        assert(s.drop_last()[i] == s[i]);
        lemma_users_as_map_update(s.drop_last(), i, d);
        assert(s2.drop_last() =~= s.drop_last().update(i, d));
        assert(s2.last() == s.last());
        assert(s[i].username@ != s[s.len() - 1].username@);
        assert(s.last() == s[s.len() - 1]);
        assert(users_as_map(s2) =~= users_as_map(s).insert(d.username@, d@));
    }
}

/// The concurrency-safe mapping from username to user record. The vector
/// order carries no meaning; the abstract value is the view map.
pub struct UserStore {
    users: Vec<DbUser>,
}

impl View for UserStore {
    type V = Map<Seq<char>, StoredUserView>;

    closed spec fn view(&self) -> Map<Seq<char>, StoredUserView> {
        users_as_map(self.users@)
    }
}

impl UserStore {
    #[verifier::type_invariant]
    spec fn inv(self) -> bool {
        &&& usernames_unique(self.users@)
        &&& forall|i: int| 0 <= i < self.users@.len() ==> wf_entry(#[trigger] self.users@[i])
    }

    /// A fresh, empty store.
    pub fn new() -> (s: Self)
        ensures
            s@ == Map::<Seq<char>, StoredUserView>::empty(),
    {
        UserStore { users: Vec::new() }
    }

    /// Inserts a fresh record with an empty todo collection iff no record
    /// with `username` exists; a duplicate registration is refused and
    /// leaves the store unchanged.
    pub fn register(&mut self, username: String, hash: PasswordHash) -> (r: Result<
        (),
        StoreError,
    >)
        ensures
            r is Ok <==> !old(self)@.contains_key(username@),
            r is Ok ==> final(self)@ == register_effect(old(self)@, username@, hash@),
            r is Err ==> final(self)@ == old(self)@ && r == Err::<(), StoreError>(
                StoreError::AlreadyExists,
            ),
    {
        proof {
            use_type_invariant(&*self);
        }
        let ghost s0 = self.users@;
        let n = self.users.len();
        let mut i: usize = 0;
        while i < n
            invariant
                n == self.users@.len(),
                i <= n,
                self.users@ == s0,
                s0 == old(self).users@,
                forall|j: int| 0 <= j < i ==> self.users@[j].username@ != username@,
            decreases n - i,
        {
            if self.users[i].username == username {
                proof {
                    use_type_invariant(&*self);
                    lemma_users_as_map_index(self.users@, i as int);
                }
                return Err(StoreError::AlreadyExists);
            }
            i += 1;
        }
        proof {
            use_type_invariant(&*self);
            lemma_users_as_map_contains(self.users@, username@);
        }
        let user = User { username: username.clone(), todos_map: Vec::new() };
        let entry = DbUser { username, password: hash, user };
        let mut users: Vec<DbUser> = Vec::new();
        core::mem::swap(&mut users, &mut self.users);
        users.push(entry);
        proof {
            lemma_users_as_map_push(s0, entry);
            assert(usernames_unique(users@)) by {
                assert(forall|j: int| 0 <= j < s0.len() ==> users@[j] == s0[j]);
            }
            assert(forall|j: int|
                0 <= j < users@.len() ==> wf_entry(#[trigger] users@[j])) by {
                assert(forall|j: int| 0 <= j < s0.len() ==> users@[j] == s0[j]);
                assert(todos_as_map(Seq::<TodoItem>::empty()) == Map::<
                    int,
                    crate::models::TodoView,
                >::empty());
            }
        }
        self.users = users;
        proof {
            assert(self@ =~= register_effect(users_as_map(s0), entry.username@, hash@));
        }
        Ok(())
    }

    /// Returns a consistent snapshot of the record under `username`, or
    /// `NotFound` if no such record exists.
    pub fn get(&self, username: &String) -> (r: Result<User, StoreError>)
        ensures
            r is Ok <==> self@.contains_key(username@),
            r matches Ok(u) ==> u@ == self@[username@].user,
            r matches Err(e) ==> e == StoreError::NotFound,
    {
        proof {
            use_type_invariant(self);
        }
        let n = self.users.len();
        let mut i: usize = 0;
        while i < n
            invariant
                n == self.users@.len(),
                i <= n,
                forall|j: int| 0 <= j < i ==> self.users@[j].username@ != username@,
            decreases n - i,
        {
            if self.users[i].username == *username {
                proof {
                    use_type_invariant(self);
                    lemma_users_as_map_index(self.users@, i as int);
                }
                return Ok(clone_user(&self.users[i].user));
            }
            i += 1;
        }
        proof {
            lemma_users_as_map_contains(self.users@, username@);
        }
        Err(StoreError::NotFound)
    }

    /// Borrows the password digest stored under `username`, if any.
    pub fn hash_of(&self, username: &String) -> (r: Option<&PasswordHash>)
        ensures
            r is Some <==> self@.contains_key(username@),
            r matches Some(h) ==> h@ == self@[username@].hash,
    {
        proof {
            use_type_invariant(self);
        }
        let n = self.users.len();
        let mut i: usize = 0;
        while i < n
            invariant
                n == self.users@.len(),
                i <= n,
                forall|j: int| 0 <= j < i ==> self.users@[j].username@ != username@,
            decreases n - i,
        {
            if self.users[i].username == *username {
                proof {
                    use_type_invariant(self);
                    lemma_users_as_map_index(self.users@, i as int);
                }
                return Some(&self.users[i].password);
            }
            i += 1;
        }
        proof {
            lemma_users_as_map_contains(self.users@, username@);
        }
        None
    }

    /// Inserts `item` into the todo collection of the record under
    /// `username`, replacing any entry with the same id; fails with
    /// `NotFound`, leaving the store unchanged, if no such record exists.
    pub fn upsert_todo(&mut self, username: &String, item: TodoItem) -> (r: Result<
        (),
        StoreError,
    >)
        ensures
            r is Ok <==> old(self)@.contains_key(username@),
            final(self)@ == upsert_effect(old(self)@, username@, item@),
            r matches Err(e) ==> e == StoreError::NotFound,
    {
        proof {
            use_type_invariant(&*self);
        }
        let ghost s0 = self.users@;
        let n = self.users.len();
        let mut i: usize = 0;
        while i < n
            invariant
                n == self.users@.len(),
                i <= n,
                self.users@ == s0,
                s0 == old(self).users@,
                forall|j: int| 0 <= j < i ==> self.users@[j].username@ != username@,
            decreases n - i,
        {
            if self.users[i].username == *username {
                proof {
                    use_type_invariant(&*self);
                    lemma_users_as_map_index(s0, i as int);
                    assert(wf_entry(s0[i as int]));
                }
                let mut users: Vec<DbUser> = Vec::new();
                core::mem::swap(&mut users, &mut self.users);
                let mut entry = users.remove(i);
                let ghost todos0 = entry.user.todos_map@;
                upsert_into_todos(&mut entry.user.todos_map, item);
                users.insert(i, entry);
                proof {
                    assert(users@ =~= s0.update(i as int, entry));
                    lemma_users_as_map_update(s0, i as int, entry);
                    assert(usernames_unique(users@)) by {
                        assert(forall|j: int|
                            0 <= j < s0.len() && j != i ==> users@[j] == s0[j]);
                    }
                    assert(forall|j: int|
                        0 <= j < users@.len() ==> wf_entry(#[trigger] users@[j])) by {
                        assert(forall|j: int|
                            0 <= j < s0.len() && j != i ==> users@[j] == s0[j]);
                    }
                }
                self.users = users;
                proof {
                    let m0 = users_as_map(s0);
                    assert(m0[username@] == s0[i as int]@);
                    assert(entry@.user.todos == m0[username@].user.todos.insert(
                        item@.id,
                        item@,
                    ));
                    assert(self@ =~= upsert_effect(m0, username@, item@));
                }
                return Ok(());
            }
            i += 1;
        }
        proof {
            use_type_invariant(&*self);
            lemma_users_as_map_contains(self.users@, username@);
        }
        Err(StoreError::NotFound)
    }
}

/// Element-wise copy of a todo collection; the copy has the same
/// abstract value.
fn clone_todos(v: &Vec<TodoItem>) -> (r: Vec<TodoItem>)
    ensures
        r@ == v@,
{
    let mut out: Vec<TodoItem> = Vec::new();
    let n = v.len();
    let mut i: usize = 0;
    while i < n
        invariant
            n == v@.len(),
            i <= n,
            out@.len() == i,
            forall|j: int| 0 <= j < i ==> out@[j] == v@[j],
        decreases n - i,
    {
        let t = &v[i];
        out.push(TodoItem { id: t.id, title: t.title.clone(), completed: t.completed });
        i += 1;
    }
    proof {
        assert(out@ =~= v@);
    }
    out
}

/// Field-wise copy of a user record; the copy has the same abstract value.
fn clone_user(u: &User) -> (r: User)
    ensures
        r@ == u@,
{
    User { username: u.username.clone(), todos_map: clone_todos(&u.todos_map) }
}

/// Inserts `item` into a todo collection kept with pairwise distinct ids:
/// the entry with the same id is replaced, or the item is appended.
fn upsert_into_todos(todos: &mut Vec<TodoItem>, item: TodoItem)
    requires
        todo_ids_unique(old(todos)@),
    ensures
        todo_ids_unique(final(todos)@),
        todos_as_map(final(todos)@) == todos_as_map(old(todos)@).insert(item@.id, item@),
{
    let ghost t0 = todos@;
    let n = todos.len();
    let mut i: usize = 0;
    while i < n
        invariant
            n == todos@.len(),
            i <= n,
            todos@ == t0,
            t0 == old(todos)@,
            todo_ids_unique(t0),
            forall|j: int| 0 <= j < i ==> todos@[j]@.id != item@.id,
        decreases n - i,
    {
        if todos[i].id == item.id {
            let _replaced = todos.remove(i);
            todos.insert(i, item);
            proof {
                assert(todos@ =~= t0.update(i as int, item));
                lemma_todos_as_map_update(t0, i as int, item);
                assert(todo_ids_unique(todos@)) by {
                    assert(forall|j: int|
                        0 <= j < t0.len() && j != i ==> todos@[j] == t0[j]);
                }
            }
            return;
        }
        i += 1;
    }
    todos.push(item);
    proof {
        lemma_todos_as_map_push(t0, item);
        assert(todo_ids_unique(todos@)) by {
            assert(forall|j: int| 0 <= j < t0.len() ==> todos@[j] == t0[j]);
        }
    }
}

} // verus!
