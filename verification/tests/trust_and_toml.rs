use nnn::toml_doc::{add_to_list, list_key, load_or_new, lookup_str};
use nnn::trust::{approve, check_project_trust, hash_hex, short_hash, untrusted_message, verdict, Distrust};

#[test]
fn blake3_of_empty_input() {
    assert_eq!(hash_hex(b""), "af1349b9f5f9a1a6a0404dea36dcc9499bcb25c9adc112b7cc9a93cae41f3262");
    assert_eq!(short_hash(&hash_hex(b"")), "af1349b9f5f9");
}

#[test]
fn approve_then_trusted() {
    let mut store = load_or_new(None).unwrap();
    let data = b"allow-read = [\"./src\"]\n";
    assert!(matches!(verdict(&store, "/p/.nnn.toml", data), Err(Distrust::NotApproved)));
    let h = approve(&mut store, "/p/.nnn.toml", data);
    assert_eq!(h, hash_hex(data));
    assert!(verdict(&store, "/p/.nnn.toml", data).is_ok());
    assert!(matches!(verdict(&store, "/p/.nnn.toml", b"allow-read = [\"/\"]\n"), Err(Distrust::Changed)));
    assert!(matches!(verdict(&store, "/q/.nnn.toml", data), Err(Distrust::NotApproved)));
}

#[test]
fn trust_messages() {
    let mut store = load_or_new(Some("\"/p/.nnn.toml\" = \"0000\"\n")).unwrap();
    let err = check_project_trust("/p/.nnn.toml", "/p/.nnn.toml", b"x", &store).unwrap_err();
    assert_eq!(err, untrusted_message("/p/.nnn.toml", "has changed since it was approved"));
    assert!(err.starts_with("UNTRUSTED PROJECT CONFIG: /p/.nnn.toml\n  This file has changed since it was approved.\n"));
    let err = check_project_trust("shown", "/other", b"x", &store).unwrap_err();
    assert!(err.contains("has not been approved yet"));
    approve(&mut store, "/p/.nnn.toml", b"x");
    assert_eq!(check_project_trust("/p/.nnn.toml", "/p/.nnn.toml", b"x", &store), Ok(()));
    assert!(store.to_string().contains(&hash_hex(b"x")));
}

#[test]
fn store_text_round_trip() {
    let mut store = load_or_new(None).unwrap();
    approve(&mut store, "/a/.nnn.toml", b"data");
    let reread = load_or_new(Some(&store.to_string())).unwrap();
    assert_eq!(lookup_str(&reread, "/a/.nnn.toml"), Some(hash_hex(b"data")));
}

#[test]
fn not_toml_is_refused() {
    assert!(load_or_new(Some("allow-read = [")).is_none());
}

#[test]
fn add_path_dedups_and_keeps_others() {
    let mut doc = load_or_new(Some("allow-read = [\"./src\"]\nseccomp = false\n")).unwrap();
    let key = list_key(true);
    assert_eq!(key, "allow-write");
    add_to_list(&mut doc, &key, "./output");
    add_to_list(&mut doc, &key, "./output");
    add_to_list(&mut doc, &list_key(false), "./src");
    let text = doc.to_string();
    assert_eq!(text.matches("./output").count(), 1, "{text}");
    assert_eq!(text.matches("./src").count(), 1, "{text}");
    assert!(text.contains("seccomp = false"));
    assert!(text.contains("allow-write"));
}

#[test]
fn add_path_replaces_non_array() {
    let mut doc = load_or_new(Some("allow-read = \"oops\"\n")).unwrap();
    add_to_list(&mut doc, "allow-read", "/x");
    let text = doc.to_string();
    assert!(!text.contains("oops"), "{text}");
    assert!(text.contains("\"/x\""), "{text}");
    assert_eq!(lookup_str(&doc, "allow-read"), None);
}
