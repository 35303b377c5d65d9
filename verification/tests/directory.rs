use navni::directory::{Directory, DirectoryError};

fn strings(items: &[&str]) -> Vec<String> {
    items.iter().map(|s| s.to_string()).collect()
}

#[test]
fn keys_carry_the_prefix() {
    let config = Directory::config("game");
    let data = Directory::data("game");
    assert_eq!(config.key("options"), "game/config/options");
    assert_eq!(data.key("save1"), "game/data/save1");
    assert_eq!(data.key(""), "game/data/");
    assert_eq!(Directory::data("").key("x"), "/data/x");
}

#[test]
fn entries_are_the_keys_with_the_prefix() {
    let data = Directory::data("game");
    assert_eq!(data.entry("game/data/save1"), Some("save1".to_string()));
    assert_eq!(data.entry("game/data/"), Some("".to_string()));
    assert_eq!(data.entry("game/data"), None);
    assert_eq!(data.entry("game/config/save1"), None);
    assert_eq!(data.entry("other/data/save1"), None);
    assert_eq!(data.entry(""), None);
    assert_eq!(data.entry("game/data/a/b\u{e9}"), Some("a/b\u{e9}".to_string()));
}

#[test]
fn list_keeps_the_order_of_the_keys() {
    let data = Directory::data("game");
    let keys = strings(&["game/data/b", "game/config/x", "other", "game/data/a", "game/data/b"]);
    assert_eq!(data.list(&keys), strings(&["b", "a", "b"]));
    assert_eq!(Directory::config("game").list(&keys), strings(&["x"]));
    assert_eq!(Directory::config("none").list(&keys), strings(&[]));
    assert_eq!(data.list(&Vec::new()), strings(&[]));
}

#[test]
fn has_entry_looks_for_the_whole_key() {
    let data = Directory::data("game");
    let keys = strings(&["game/data/save1", "game/config/options"]);
    assert!(data.has_entry(&keys, "save1"));
    assert!(!data.has_entry(&keys, "save"));
    assert!(!data.has_entry(&keys, "options"));
    assert!(Directory::config("game").has_entry(&keys, "options"));
    assert!(!data.has_entry(&Vec::new(), "save1"));
}

#[test]
fn bytes_are_kept_as_base64() {
    assert_eq!(Directory::encode(b""), "");
    assert_eq!(Directory::encode(b"f"), "Zg");
    assert_eq!(Directory::encode(b"fo"), "Zm8");
    assert_eq!(Directory::encode(b"foo"), "Zm9v");
    assert_eq!(Directory::encode(&[0xff, 0xfe, 0xfd]), "//79");
    assert_eq!(Directory::decode("Zm9vYmE"), Ok(b"fooba".to_vec()));
    assert_eq!(Directory::decode(""), Ok(Vec::new()));
    let data: Vec<u8> = (0..=255).collect();
    assert_eq!(Directory::decode(&Directory::encode(&data)), Ok(data));
}

#[test]
fn bad_base64_is_an_error() {
    assert_eq!(Directory::decode("Zg=="), Err(DirectoryError::BadData));
    assert_eq!(Directory::decode("Z"), Err(DirectoryError::BadData));
    assert_eq!(Directory::decode("Zm9v!"), Err(DirectoryError::BadData));
    assert_eq!(Directory::decode("Zh"), Err(DirectoryError::BadData));
}
