use mangabot::codec::{decode_command, encode_command, CommandArg};
use mangabot::command::Command;
use mangabot::auxcache::TextCache;
use mangabot::keystore::KeyStore;

#[test]
fn fresh_store_scenario() {
    let mut store = KeyStore::new(100, 10);
    assert_eq!(store.key_to_id("alpha"), 1);
    assert_eq!(store.key_to_id("beta"), 2);
    assert_eq!(store.key_to_id("alpha"), 1);
    assert_eq!(store.id_to_key(1), Some("alpha".to_string()));
    assert_eq!(store.id_to_key(2), Some("beta".to_string()));
    assert_eq!(store.id_to_key(3), None);
}

#[test]
fn allocation_wraps_to_one() {
    let mut store = KeyStore::new(3, 10);
    assert_eq!(store.increment_cyclic(), 1);
    assert_eq!(store.increment_cyclic(), 2);
    assert_eq!(store.increment_cyclic(), 3);
    assert_eq!(store.increment_cyclic(), 1);
    assert_eq!(store.increment_cyclic(), 2);
}

#[test]
fn keys_wrap_and_reuse_ids() {
    let mut store = KeyStore::new(2, 10);
    assert_eq!(store.key_to_id("a"), 1);
    assert_eq!(store.key_to_id("b"), 2);
    assert_eq!(store.key_to_id("c"), 1);
    assert_eq!(store.id_to_key(1), Some("c".to_string()));
}

#[test]
fn search_key_comes_back_through_a_token() {
    let mut store = KeyStore::new(100, 10);
    let key = "a rather long search phrase that would not fit into a token";
    let id = store.key_to_id(key);
    let t = encode_command("csearch", &[CommandArg::I64(id as i64), CommandArg::String("a".to_string())])
        .unwrap();
    let cmd = store.resolve_search_key(decode_command(&t).unwrap());
    assert_eq!(cmd, Command::Search(Some(key.to_string()), Some("a".to_string()), Some(1)));
}

#[test]
fn unresolvable_search_key_is_empty() {
    let store = KeyStore::new(100, 10);
    let cmd = Command::Search(Some("99".to_string()), None, Some(1));
    assert_eq!(store.resolve_search_key(cmd), Command::Search(None, None, Some(1)));
    let cmd = Command::Search(Some("abc".to_string()), None, Some(1));
    assert_eq!(store.resolve_search_key(cmd), Command::Search(None, None, Some(1)));
    assert_eq!(store.resolve_search_key(Command::Zip(1)), Command::Zip(1));
}

#[test]
fn text_cache_keeps_latest_value() {
    let mut c = TextCache::new(16, 10);
    assert_eq!(c.get("tok"), None);
    c.put("tok", "/tmp/mangabot/downloads/a.zip".to_string());
    assert_eq!(c.get("tok"), Some("/tmp/mangabot/downloads/a.zip".to_string()));
    c.put("tok", "/tmp/mangabot/downloads/b.zip".to_string());
    assert_eq!(c.get("tok"), Some("/tmp/mangabot/downloads/b.zip".to_string()));
    assert_eq!(c.get("other"), None);
}
