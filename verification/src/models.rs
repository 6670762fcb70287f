//! Data model: todo items, user records, and request payloads, together with
//! their mathematical views. A user's todo collection is kept as a vector of
//! items with pairwise distinct ids; its abstract value is the id-keyed map
//! `todos_as_map`.

use vstd::prelude::*;

verus! {

/// Identifier of a todo item; unique within one user's collection,
/// supplied by the caller.
pub type TodoId = i64;

/// A username: the primary key of a user record.
pub type Username = String;

/// A single todo entry, owned by exactly one user.
#[derive(Debug, Clone)]
pub struct TodoItem {
    pub id: TodoId,
    pub title: String,
    pub completed: bool,
}

/// Mathematical value of a [`TodoItem`].
pub ghost struct TodoView {
    pub id: int,
    pub title: Seq<char>,
    pub completed: bool,
}

impl View for TodoItem {
    type V = TodoView;

    open spec fn view(&self) -> TodoView {
        TodoView { id: self.id as int, title: self.title@, completed: self.completed }
    }
}

/// A user record: the username and the user's todo collection. The order of
/// the vector is irrelevant; the abstract value is `view().todos`.
#[derive(Debug)]
pub struct User {
    pub username: String,
    pub todos_map: Vec<TodoItem>,
}

/// Mathematical value of a [`User`]: its name and its todos keyed by id.
pub ghost struct UserView {
    pub username: Seq<char>,
    pub todos: Map<int, TodoView>,
}

/// The id-keyed map described by a sequence of todo items. Should the
/// sequence hold two items with one id, the later entry wins; the store's
/// invariant keeps ids pairwise distinct, so that case does not arise there.
pub open spec fn todos_as_map(s: Seq<TodoItem>) -> Map<int, TodoView>
    decreases s.len(),
{
    if s.len() == 0 {
        Map::empty()
    } else {
        todos_as_map(s.drop_last()).insert(s.last()@.id, s.last()@)
    }
}

/// The ids in `s` are pairwise distinct.
pub open spec fn todo_ids_unique(s: Seq<TodoItem>) -> bool {
    forall|i: int, j: int| 0 <= i < j < s.len() ==> s[i]@.id != s[j]@.id
}

impl View for User {
    type V = UserView;

    open spec fn view(&self) -> UserView {
        UserView { username: self.username@, todos: todos_as_map(self.todos_map@) }
    }
}

/// A transient authentication claim: the username and plaintext password a
/// caller presents with one request; checked once and discarded.
#[derive(Debug, Clone)]
pub struct AuthHeader {
    pub username: String,
    pub password: String,
}

/// A registration request: the desired username and plaintext password.
#[derive(Debug, Clone)]
pub struct RegisterUser {
    pub username: String,
    pub password: String,
}

/// Appending an item inserts it into the map.
pub proof fn lemma_todos_as_map_push(s: Seq<TodoItem>, t: TodoItem)
    ensures
        todos_as_map(s.push(t)) == todos_as_map(s).insert(t@.id, t@),
{
    assert(s.push(t).drop_last() =~= s);
    assert(s.push(t).last() == t);
}

/// Replacing the item that carries an id inserts the new item into the map.
pub proof fn lemma_todos_as_map_update(s: Seq<TodoItem>, i: int, t: TodoItem)
    requires
        todo_ids_unique(s),
        0 <= i < s.len(),
        s[i]@.id == t@.id,
    ensures
        todos_as_map(s.update(i, t)) == todos_as_map(s).insert(t@.id, t@),
    decreases s.len(),
{
    let s2 = s.update(i, t);
    if i == s.len() - 1 {
        assert(s2.drop_last() =~= s.drop_last());
        assert(s2.last() == t);
        assert(s.last() == s[i]);
        assert(todos_as_map(s2) =~= todos_as_map(s).insert(t@.id, t@));
    } else {
        assert(todo_ids_unique(s.drop_last()));
        assert(s.drop_last()[i] == s[i]);
        lemma_todos_as_map_update(s.drop_last(), i, t);
        assert(s2.drop_last() =~= s.drop_last().update(i, t));
        assert(s2.last() == s.last());
        assert(s[i]@.id != s[s.len() - 1]@.id);
        assert(s.last() == s[s.len() - 1]);
        assert(todos_as_map(s2) =~= todos_as_map(s).insert(t@.id, t@));
    }
}

} // verus!
