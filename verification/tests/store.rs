use checkerlib::local::LocalControlInterface;
use checkerlib::Error;

#[test]
fn store_then_load_round_trips_any_serializable_value() {
    let mut store = LocalControlInterface::new();
    let value = vec![1i32, 2, 3];
    let encoded = serde_json::to_string(&value).unwrap();
    store.store_data("numbers", &encoded).unwrap();
    let loaded = store.load_data("numbers").unwrap();
    assert_eq!(loaded, encoded);
    let decoded: Vec<i32> = serde_json::from_str(&loaded).unwrap();
    assert_eq!(decoded, value);
}

#[test]
fn load_of_missing_key_fails_and_leaves_store_unchanged() {
    let mut store = LocalControlInterface::new();
    store.store_data("present", "\"here\"").unwrap();
    let before = store.to_document();
    let r = store.load_data("never-written");
    assert!(matches!(r, Err(Error::NoSuchItem)));
    assert_eq!(store.to_document(), before);
    // also on a completely empty store
    let empty = LocalControlInterface::new();
    assert!(matches!(empty.load_data("anything"), Err(Error::NoSuchItem)));
}

#[test]
fn n_distinct_keys_from_absent_file_yield_n_entries() {
    // an absent file reads as an empty document
    let mut doc = String::new();
    let keys = ["alpha", "beta", "gamma", "delta", "epsilon"];
    for (i, key) in keys.iter().enumerate() {
        let encoded = serde_json::to_string(&(i as u32)).unwrap();
        doc = LocalControlInterface::store_document(&doc, key, &encoded).unwrap();
    }
    let store = LocalControlInterface::from_document(&doc).unwrap();
    assert_eq!(store.len(), keys.len());
    for (i, key) in keys.iter().enumerate() {
        let loaded = LocalControlInterface::load_document(&doc, key).unwrap();
        let decoded: u32 = serde_json::from_str(&loaded).unwrap();
        assert_eq!(decoded, i as u32);
    }
}

#[test]
fn storing_the_same_key_twice_replaces_the_value() {
    let mut store = LocalControlInterface::new();
    store.store_data("k", "\"first\"").unwrap();
    store.store_data("k", "\"second\"").unwrap();
    assert_eq!(store.len(), 1);
    assert_eq!(store.load_data("k").unwrap(), "\"second\"");
}

#[test]
fn document_round_trips_awkward_characters() {
    let mut store = LocalControlInterface::new();
    let key = "a\"b\\c\nd";
    let value = "x\ty\r\u{1}z";
    store.store_data(key, value).unwrap();
    store.store_data("plain", "\"v\"").unwrap();
    let doc = store.to_document();
    let back = LocalControlInterface::from_document(&doc).unwrap();
    assert_eq!(back.load_data(key).unwrap(), value);
    assert_eq!(back.load_data("plain").unwrap(), "\"v\"");
    assert_eq!(back.len(), 2);
}

#[test]
fn empty_store_document_is_the_empty_object() {
    let store = LocalControlInterface::new();
    assert_eq!(store.to_document(), "{\"data\":{}}");
    let back = LocalControlInterface::from_document("{\"data\":{}}").unwrap();
    assert_eq!(back.len(), 0);
}

#[test]
fn unreadable_document_is_a_serialization_error() {
    assert!(matches!(
        LocalControlInterface::from_document("garbage"),
        Err(Error::SerdeError)
    ));
    assert!(matches!(
        LocalControlInterface::from_document("{\"data\":{"),
        Err(Error::SerdeError)
    ));
    // loading from an empty document is a serialization failure, not a
    // missing key: there is no document at all
    assert!(matches!(
        LocalControlInterface::load_document("", "k"),
        Err(Error::SerdeError)
    ));
    // a document serde_json would also reject: trailing content
    assert!(matches!(
        LocalControlInterface::from_document("{\"data\":{}} "),
        Err(Error::SerdeError)
    ));
}

#[test]
fn serde_json_reads_what_to_document_writes() {
    let mut store = LocalControlInterface::new();
    store.store_data("secret", "\"abc123\"").unwrap();
    store.store_data("odd\nkey", "[1,2]").unwrap();
    let doc = store.to_document();
    let parsed: serde_json::Value = serde_json::from_str(&doc).unwrap();
    assert_eq!(parsed["data"]["secret"], serde_json::Value::String(String::from("\"abc123\"")));
    assert_eq!(parsed["data"]["odd\nkey"], serde_json::Value::String(String::from("[1,2]")));
}

#[test]
fn local_get_flag_is_deterministic_and_keyed() {
    let mut store = LocalControlInterface::new();
    let payload = vec![0xabu8, 0x01, 0x00];
    let f1 = store.get_flag(3, &payload).unwrap();
    let f2 = store.get_flag(3, &payload).unwrap();
    assert_eq!(f1, f2);
    // each payload byte is folded with the fixed key 5a c3 96 3c
    assert_eq!(f1, "FLAG_3_f1c296");
    assert_eq!(checkerlib::flag::gen_flag(0, &Vec::new()), "FLAG_0_");
    assert_eq!(
        checkerlib::flag::gen_flag(4294967295, &vec![255u8]),
        "FLAG_4294967295_a5"
    );
}
