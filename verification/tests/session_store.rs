use std::sync::{Arc, Mutex};

use delivery_backend::jwt::{tokens_are_equal, RefreshToken};
use delivery_backend::store::{setup_store, Store};

fn store_token(id: &str, secret: &str, exp: u64) -> RefreshToken {
    RefreshToken { id: id.to_string(), token: secret.to_string(), exp }
}

#[test]
fn store_put_then_get_returns_equal() {
    let mut store = setup_store();
    let token = store_token("abc12345", "s3cr3t", 42);
    let previous = store.insert(token.id.clone(), token.clone());
    assert!(previous.is_none());
    let fetched = store.get("abc12345").expect("entry must be present");
    assert!(tokens_are_equal(&token, &fetched));
    assert_eq!(fetched.id, "abc12345");
    assert_eq!(fetched.token, "s3cr3t");
    assert_eq!(fetched.exp, 42);
}

#[test]
fn store_remove_then_get_returns_none() {
    let mut store = setup_store();
    let token = store_token("abc12345", "s3cr3t", 42);
    store.insert(token.id.clone(), token.clone());
    let removed = store.remove("abc12345").expect("entry must be removed");
    assert!(tokens_are_equal(&token, &removed));
    assert!(store.get("abc12345").is_none());
    assert!(store.remove("abc12345").is_none());
}

#[test]
fn store_get_absent_returns_none() {
    let store = Store::new();
    assert!(store.get("missing").is_none());
}

#[test]
fn store_insert_replaces_and_returns_previous() {
    let mut store = setup_store();
    let first = store_token("abc12345", "first", 1);
    let second = store_token("abc12345", "second", 2);
    assert!(store.insert(first.id.clone(), first.clone()).is_none());
    let previous = store.insert(second.id.clone(), second.clone()).expect("prior entry");
    assert!(tokens_are_equal(&first, &previous));
    let current = store.get("abc12345").expect("entry must be present");
    assert!(tokens_are_equal(&second, &current));
}

#[test]
fn store_keys_do_not_interfere() {
    let mut store = setup_store();
    let a = store_token("aaaaaaaa", "sa", 1);
    let b = store_token("bbbbbbbb", "sb", 2);
    store.insert(a.id.clone(), a.clone());
    store.insert(b.id.clone(), b.clone());
    store.remove("aaaaaaaa");
    assert!(store.get("aaaaaaaa").is_none());
    let still = store.get("bbbbbbbb").expect("other key must be untouched");
    assert!(tokens_are_equal(&b, &still));
}

#[test]
fn concurrent_puts_leave_single_entry() {
    let writers: usize = 100;
    let store = Arc::new(Mutex::new(setup_store()));
    let runtime = tokio::runtime::Runtime::new().expect("runtime must start");
    runtime.block_on(async {
        let mut handles = Vec::new();
        for i in 0..writers {
            let shared = Arc::clone(&store);
            handles.push(tokio::spawn(async move {
                let token = store_token("shared00", &format!("writer-{}", i), i as u64);
                shared.lock().unwrap().insert(token.id.clone(), token);
            }));
        }
        for handle in handles {
            handle.await.expect("writer must finish");
        }
    });
    let guard = store.lock().unwrap();
    let winner = guard.get("shared00").expect("exactly one entry must remain");
    assert_eq!(winner.id, "shared00");
    assert!(winner.token.starts_with("writer-"));
    let index: usize = winner.token["writer-".len()..].parse().expect("intact value");
    assert!(index < writers);
    assert_eq!(winner.exp, index as u64);
    assert!(guard.get("other000").is_none());
}
