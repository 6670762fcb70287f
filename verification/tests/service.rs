use todo_service::models::TodoItem;
use todo_service::service::{add_todo, authenticate, get_user, register_user, ServiceError};
use todo_service::store::UserStore;

#[test]
fn it_works() {
    assert_eq!(2 + 2, 4);
}

#[test]
fn register_authenticate_and_fetch_scenario() {
    let mut st = UserStore::new();
    assert!(register_user(&mut st, "alice".to_string(), "secret".to_string()).is_ok());

    let dup = register_user(&mut st, "alice".to_string(), "other".to_string());
    assert_eq!(dup, Err(ServiceError::Conflict));

    let good = authenticate(&st, &"alice".to_string(), &"secret".to_string());
    assert_eq!(good, Ok("alice".to_string()));

    let bad = authenticate(&st, &"alice".to_string(), &"wrong".to_string());
    assert_eq!(bad, Err(ServiceError::Unauthorized));

    let item = TodoItem { id: 1, title: "buy milk".to_string(), completed: false };
    assert_eq!(add_todo(&mut st, &"alice".to_string(), item), Ok(()));

    let user = get_user(&st, &"alice".to_string()).unwrap();
    assert_eq!(user.username, "alice");
    assert_eq!(user.todos_map.len(), 1);
    assert_eq!(user.todos_map[0].id, 1);
    assert_eq!(user.todos_map[0].title, "buy milk");
    assert!(!user.todos_map[0].completed);
}

#[test]
fn add_todo_for_unregistered_user_is_not_found() {
    let mut st = UserStore::new();
    let item = TodoItem { id: 7, title: "water plants".to_string(), completed: false };
    let r = add_todo(&mut st, &"nobody".to_string(), item);
    assert_eq!(r, Err(ServiceError::NotFound));
}

#[test]
fn authenticate_unknown_user_is_unauthorized() {
    let st = UserStore::new();
    let r = authenticate(&st, &"ghost".to_string(), &"anything".to_string());
    assert_eq!(r, Err(ServiceError::Unauthorized));
}

#[test]
fn upsert_twice_with_the_same_item_is_idempotent() {
    let mut st = UserStore::new();
    assert!(register_user(&mut st, "bob".to_string(), "pw".to_string()).is_ok());

    let item = TodoItem { id: 3, title: "walk dog".to_string(), completed: true };
    assert_eq!(add_todo(&mut st, &"bob".to_string(), item.clone()), Ok(()));
    let once = get_user(&st, &"bob".to_string()).unwrap();

    assert_eq!(add_todo(&mut st, &"bob".to_string(), item), Ok(()));
    let twice = get_user(&st, &"bob".to_string()).unwrap();

    assert_eq!(once.todos_map.len(), 1);
    assert_eq!(twice.todos_map.len(), 1);
    assert_eq!(once.todos_map[0].id, twice.todos_map[0].id);
    assert_eq!(once.todos_map[0].title, twice.todos_map[0].title);
    assert_eq!(once.todos_map[0].completed, twice.todos_map[0].completed);
}

#[test]
fn upsert_replaces_the_entry_with_the_same_id() {
    let mut st = UserStore::new();
    assert!(register_user(&mut st, "carol".to_string(), "pw".to_string()).is_ok());

    let first = TodoItem { id: 5, title: "draft report".to_string(), completed: false };
    let second = TodoItem { id: 5, title: "send report".to_string(), completed: true };
    assert_eq!(add_todo(&mut st, &"carol".to_string(), first), Ok(()));
    assert_eq!(add_todo(&mut st, &"carol".to_string(), second), Ok(()));

    let user = get_user(&st, &"carol".to_string()).unwrap();
    assert_eq!(user.todos_map.len(), 1);
    assert_eq!(user.todos_map[0].id, 5);
    assert_eq!(user.todos_map[0].title, "send report");
    assert!(user.todos_map[0].completed);
}

#[test]
fn todos_are_isolated_between_users() {
    let mut st = UserStore::new();
    assert!(register_user(&mut st, "alice".to_string(), "a".to_string()).is_ok());
    assert!(register_user(&mut st, "bob".to_string(), "b".to_string()).is_ok());

    let item = TodoItem { id: 1, title: "only alice sees this".to_string(), completed: false };
    assert_eq!(add_todo(&mut st, &"alice".to_string(), item), Ok(()));

    let bob = get_user(&st, &"bob".to_string()).unwrap();
    assert_eq!(bob.todos_map.len(), 0);
    let alice = get_user(&st, &"alice".to_string()).unwrap();
    assert_eq!(alice.todos_map.len(), 1);
}

#[test]
fn get_after_register_sees_the_user() {
    let mut st = UserStore::new();
    assert!(register_user(&mut st, "dave".to_string(), "pw".to_string()).is_ok());
    let user = get_user(&st, &"dave".to_string()).unwrap();
    assert_eq!(user.username, "dave");
    assert_eq!(user.todos_map.len(), 0);
}
