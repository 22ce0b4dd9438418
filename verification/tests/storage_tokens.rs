use tasklane::storage::{
    delete_token, get_token, has_token, init, set_token, SecretStore, SecretValue, Storage,
};

fn ready() -> Storage {
    let mut s = Storage::new();
    init(&mut s, SecretStore::new()).unwrap();
    s
}

#[test]
fn token_read_after_set() {
    let mut s = ready();
    set_token(&mut s, "linear_api_key", "lin_123").unwrap();
    assert_eq!(get_token(&s, "linear_api_key"), Ok(Some("lin_123".to_string())));
    set_token(&mut s, "linear_api_key", "lin_456").unwrap();
    assert_eq!(get_token(&s, "linear_api_key"), Ok(Some("lin_456".to_string())));
}

#[test]
fn token_read_after_delete() {
    let mut s = ready();
    set_token(&mut s, "github_pat", "ghp_1").unwrap();
    delete_token(&mut s, "github_pat").unwrap();
    assert_eq!(get_token(&s, "github_pat"), Ok(None));
    delete_token(&mut s, "github_pat").unwrap();
    assert_eq!(get_token(&s, "github_pat"), Ok(None));
}

#[test]
fn other_tokens_unchanged() {
    let mut s = ready();
    set_token(&mut s, "a", "1").unwrap();
    set_token(&mut s, "b", "2").unwrap();
    delete_token(&mut s, "a").unwrap();
    set_token(&mut s, "c", "3").unwrap();
    assert_eq!(get_token(&s, "a"), Ok(None));
    assert_eq!(get_token(&s, "b"), Ok(Some("2".to_string())));
    assert_eq!(get_token(&s, "c"), Ok(Some("3".to_string())));
    assert_eq!(has_token(&s, "b"), Ok(true));
    assert_eq!(has_token(&s, "a"), Ok(false));
}

#[test]
fn storage_not_initialized() {
    let mut s = Storage::new();
    assert_eq!(get_token(&s, "k"), Err("Storage not initialized".to_string()));
    assert_eq!(set_token(&mut s, "k", "v"), Err("Storage not initialized".to_string()));
    assert_eq!(delete_token(&mut s, "k"), Err("Storage not initialized".to_string()));
    assert_eq!(has_token(&s, "k"), Err("Storage not initialized".to_string()));
    assert!(s.secrets().is_none());
}

#[test]
fn storage_initialized_once() {
    let mut s = ready();
    set_token(&mut s, "k", "v").unwrap();
    assert_eq!(init(&mut s, SecretStore::new()), Err("Storage already initialized".to_string()));
    assert_eq!(get_token(&s, "k"), Ok(Some("v".to_string())));
}

#[test]
fn non_string_values_are_not_tokens() {
    let mut store = SecretStore::new();
    store.insert("k".to_string(), SecretValue::Json("42".to_string()));
    store.insert("t".to_string(), SecretValue::Text("tok".to_string()));
    let mut s = Storage::new();
    init(&mut s, store).unwrap();
    assert_eq!(get_token(&s, "k"), Ok(None));
    assert_eq!(get_token(&s, "t"), Ok(Some("tok".to_string())));
    assert_eq!(has_token(&s, "k"), Ok(false));
}

#[test]
fn secret_store_operations() {
    let mut store = SecretStore::new();
    store.insert("x".to_string(), SecretValue::Text("1".to_string()));
    store.insert("y".to_string(), SecretValue::Text("2".to_string()));
    store.insert("x".to_string(), SecretValue::Text("3".to_string()));
    assert_eq!(store.entries().len(), 2);
    assert!(matches!(store.get("x"), Some(SecretValue::Text(t)) if t == "3"));
    assert!(store.remove("x"));
    assert!(!store.remove("x"));
    assert!(store.get("x").is_none());
    assert_eq!(store.entries().len(), 1);
    assert_eq!(store.entries()[0].key, "y");
}
