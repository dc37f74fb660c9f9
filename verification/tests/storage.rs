//! Web Storage: areas, quota, persistence.
use obscura::items::QUOTA_BYTES;
use obscura::origin::{host_of, origin_of, origin_of_parts, UrlParts};
use obscura::storage::{PersistedItem, PersistedOrigin, StorageArea, StorageJar};

fn pairs(items: &[(&str, &str)]) -> Vec<(String, String)> {
    items
        .iter()
        .map(|(k, v)| (k.to_string(), v.to_string()))
        .collect()
}

fn saved(origin: &str, items: &[(&str, &str)]) -> PersistedOrigin {
    PersistedOrigin {
        origin: origin.to_string(),
        local_storage: items
            .iter()
            .map(|(k, v)| PersistedItem {
                name: k.to_string(),
                value: v.to_string(),
            })
            .collect(),
    }
}

#[test]
fn origin_normalizes_and_rejects_opaque() {
    assert_eq!(
        origin_of("https://example.com/a/b?c=1").as_deref(),
        Some("https://example.com")
    );
    assert_eq!(
        origin_of("http://localhost:8080/x").as_deref(),
        Some("http://localhost:8080")
    );
    // Default ports stay implicit so https://x and https://x:443 agree.
    assert_eq!(
        origin_of("https://example.com:443/").as_deref(),
        Some("https://example.com")
    );
    assert_eq!(origin_of("about:blank"), None);
    assert_eq!(origin_of("data:text/html,hi"), None);
    assert_eq!(origin_of("file:///tmp/x.html"), None);
    assert_eq!(origin_of("not a url"), None);
}

#[test]
fn origins_are_isolated() {
    let mut jar = StorageJar::new();
    jar.set_item("https://a.com", StorageArea::Local, "tok", "A")
        .unwrap();
    jar.set_item("https://b.com", StorageArea::Local, "tok", "B")
        .unwrap();
    assert_eq!(
        jar.get_item("https://a.com", StorageArea::Local, "tok")
            .as_deref(),
        Some("A")
    );
    assert_eq!(
        jar.get_item("https://b.com", StorageArea::Local, "tok")
            .as_deref(),
        Some("B")
    );
    // Same-origin areas are separate too.
    assert_eq!(
        jar.get_item("https://a.com", StorageArea::Session, "tok"),
        None
    );
}

#[test]
fn insertion_order_is_stable_and_update_keeps_position() {
    let mut jar = StorageJar::new();
    for k in ["z", "a", "m"] {
        jar.set_item("https://x.com", StorageArea::Local, k, "1")
            .unwrap();
    }
    jar.set_item("https://x.com", StorageArea::Local, "z", "2")
        .unwrap();
    let items = jar.items("https://x.com", StorageArea::Local);
    assert_eq!(
        items,
        vec![
            ("z".into(), "2".into()),
            ("a".into(), "1".into()),
            ("m".into(), "1".into())
        ]
    );
}

#[test]
fn quota_is_enforced_and_shrinking_writes_still_pass() {
    let mut jar = StorageJar::new();
    let big = "x".repeat(QUOTA_BYTES - 10);
    jar.set_item("https://x.com", StorageArea::Local, "k", &big)
        .unwrap();
    assert!(jar
        .set_item("https://x.com", StorageArea::Local, "k2", &"y".repeat(64))
        .is_err());
    // Overwriting with something smaller must not be refused.
    jar.set_item("https://x.com", StorageArea::Local, "k", "small")
        .unwrap();
    jar.set_item("https://x.com", StorageArea::Local, "k2", "ok")
        .unwrap();
}

#[test]
fn roundtrip_persists_local_but_not_session() {
    let mut jar = StorageJar::new();
    jar.set_item("https://x.com", StorageArea::Local, "tok", "abc")
        .unwrap();
    jar.set_item("https://x.com", StorageArea::Session, "tmp", "nope")
        .unwrap();
    let file = jar.persisted_origins();

    let mut restored = StorageJar::new();
    assert_eq!(restored.load_persisted(&file), 1);
    assert_eq!(
        restored
            .get_item("https://x.com", StorageArea::Local, "tok")
            .as_deref(),
        Some("abc")
    );
    assert_eq!(
        restored.get_item("https://x.com", StorageArea::Session, "tmp"),
        None
    );
}

#[test]
fn clear_origin_drops_both_areas() {
    let mut jar = StorageJar::new();
    jar.set_item("https://x.com", StorageArea::Local, "a", "1")
        .unwrap();
    jar.set_item("https://x.com", StorageArea::Session, "b", "2")
        .unwrap();
    jar.clear_origin("https://x.com");
    assert!(jar.items("https://x.com", StorageArea::Local).is_empty());
    assert!(jar.items("https://x.com", StorageArea::Session).is_empty());
    assert!(jar.origins().is_empty());
}

#[test]
fn quota_is_five_mebibytes() {
    assert_eq!(QUOTA_BYTES, 5 * 1024 * 1024);
}

#[test]
fn quota_admits_the_last_byte_and_not_one_more() {
    let mut jar = StorageJar::new();
    let full = "x".repeat(QUOTA_BYTES - 1);
    assert!(jar
        .set_item("https://x.com", StorageArea::Local, "k", &full)
        .is_ok());
    assert!(jar
        .set_item("https://x.com", StorageArea::Local, "", "")
        .is_ok());
    assert!(jar
        .set_item("https://x.com", StorageArea::Local, "", "a")
        .is_err());
    // The other area and other origins have budgets of their own.
    assert!(jar
        .set_item("https://x.com", StorageArea::Session, "k", "a")
        .is_ok());
    assert!(jar
        .set_item("https://y.com", StorageArea::Local, "k", "a")
        .is_ok());
}

#[test]
fn quota_counts_bytes_not_characters() {
    let mut jar = StorageJar::new();
    // Two bytes per character.
    let half = "\u{e9}".repeat(QUOTA_BYTES / 2);
    assert!(jar
        .set_item("https://x.com", StorageArea::Local, "k", &half)
        .is_err());
    let fitting = "\u{e9}".repeat(QUOTA_BYTES / 2 - 1);
    assert!(jar
        .set_item("https://x.com", StorageArea::Local, "k", &fitting)
        .is_ok());
}

#[test]
fn refused_write_keeps_the_old_value() {
    let mut jar = StorageJar::new();
    jar.set_item("https://x.com", StorageArea::Local, "k", "old")
        .unwrap();
    let huge = "x".repeat(QUOTA_BYTES + 1);
    assert!(jar
        .set_item("https://x.com", StorageArea::Local, "k", &huge)
        .is_err());
    assert_eq!(
        jar.items("https://x.com", StorageArea::Local),
        pairs(&[("k", "old")])
    );
}

#[test]
fn replaced_area_over_budget_takes_only_writes_that_do_not_grow_it() {
    let mut jar = StorageJar::new();
    let huge = "x".repeat(QUOTA_BYTES + 100);
    jar.replace(
        "https://x.com",
        StorageArea::Local,
        vec![("k".to_string(), huge)],
    );
    assert!(jar
        .set_item("https://x.com", StorageArea::Local, "j", "1")
        .is_err());
    let less = "x".repeat(QUOTA_BYTES + 50);
    assert!(jar
        .set_item("https://x.com", StorageArea::Local, "k", &less)
        .is_ok());
}

#[test]
fn removed_item_is_gone_and_only_that() {
    let mut jar = StorageJar::new();
    jar.replace(
        "https://x.com",
        StorageArea::Local,
        pairs(&[("a", "1"), ("b", "2"), ("a", "3")]),
    );
    jar.remove_item("https://x.com", StorageArea::Local, "a");
    assert_eq!(
        jar.items("https://x.com", StorageArea::Local),
        pairs(&[("b", "2")])
    );
    jar.remove_item("https://x.com", StorageArea::Local, "none");
    assert_eq!(
        jar.items("https://x.com", StorageArea::Local),
        pairs(&[("b", "2")])
    );
}

#[test]
fn cleared_area_is_empty_and_the_other_stays() {
    let mut jar = StorageJar::new();
    jar.set_item("https://x.com", StorageArea::Local, "a", "1")
        .unwrap();
    jar.set_item("https://x.com", StorageArea::Session, "b", "2")
        .unwrap();
    jar.clear("https://x.com", StorageArea::Local);
    assert!(jar.items("https://x.com", StorageArea::Local).is_empty());
    assert_eq!(
        jar.items("https://x.com", StorageArea::Session),
        pairs(&[("b", "2")])
    );
    assert_eq!(jar.origins(), vec!["https://x.com".to_string()]);
    jar.clear_all();
    assert!(jar.origins().is_empty());
}

#[test]
fn origins_come_in_byte_order_without_empty_ones() {
    let mut jar = StorageJar::new();
    for o in ["https://b.com", "https://a.com", "http://c.com", "https://a.com:81"] {
        jar.set_item(o, StorageArea::Session, "k", "v").unwrap();
    }
    jar.clear("https://empty.com", StorageArea::Local);
    assert_eq!(
        jar.origins(),
        vec![
            "http://c.com".to_string(),
            "https://a.com".to_string(),
            "https://a.com:81".to_string(),
            "https://b.com".to_string()
        ]
    );
}

#[test]
fn snapshot_lists_local_areas_of_every_known_origin() {
    let mut jar = StorageJar::new();
    jar.set_item("https://b.com", StorageArea::Local, "k", "v")
        .unwrap();
    jar.set_item("https://a.com", StorageArea::Session, "s", "t")
        .unwrap();
    assert_eq!(
        jar.snapshot_local(),
        vec![
            ("https://a.com".to_string(), Vec::new()),
            ("https://b.com".to_string(), pairs(&[("k", "v")])),
        ]
    );
}

#[test]
fn copied_jar_takes_both_areas_and_keeps_its_own_origins() {
    let mut source = StorageJar::new();
    source
        .set_item("https://a.com", StorageArea::Local, "k", "new")
        .unwrap();
    source
        .set_item("https://a.com", StorageArea::Session, "s", "t")
        .unwrap();
    let mut jar = StorageJar::new();
    jar.set_item("https://a.com", StorageArea::Local, "k", "old")
        .unwrap();
    jar.set_item("https://z.com", StorageArea::Local, "z", "1")
        .unwrap();
    jar.copy_from(&source);
    assert_eq!(
        jar.items("https://a.com", StorageArea::Local),
        pairs(&[("k", "new")])
    );
    assert_eq!(
        jar.items("https://a.com", StorageArea::Session),
        pairs(&[("s", "t")])
    );
    assert_eq!(
        jar.items("https://z.com", StorageArea::Local),
        pairs(&[("z", "1")])
    );
    // The source goes on on its own.
    source
        .set_item("https://a.com", StorageArea::Local, "k", "later")
        .unwrap();
    assert_eq!(
        jar.get_item("https://a.com", StorageArea::Local, "k")
            .as_deref(),
        Some("new")
    );
}

#[test]
fn loading_merges_and_counts_what_the_quota_lets_through() {
    let mut jar = StorageJar::new();
    jar.set_item("https://a.com", StorageArea::Local, "kept", "1")
        .unwrap();
    let huge = "x".repeat(QUOTA_BYTES);
    let count = jar.load_persisted(&vec![
        saved("https://a.com", &[("k", "v"), ("big", &huge), ("k", "w")]),
        saved("https://b.com", &[("x", "y")]),
    ]);
    assert_eq!(count, 3);
    assert_eq!(
        jar.items("https://a.com", StorageArea::Local),
        pairs(&[("kept", "1"), ("k", "w")])
    );
    assert_eq!(
        jar.items("https://b.com", StorageArea::Local),
        pairs(&[("x", "y")])
    );
    assert_eq!(jar.load_persisted(&Vec::new()), 0);
}

#[test]
fn persisted_origins_are_sorted_and_hold_local_items_only() {
    let mut jar = StorageJar::new();
    jar.set_item("https://b.com", StorageArea::Local, "k", "v")
        .unwrap();
    jar.set_item("https://a.com", StorageArea::Local, "z", "1")
        .unwrap();
    jar.set_item("https://a.com", StorageArea::Local, "y", "2")
        .unwrap();
    jar.set_item("https://c.com", StorageArea::Session, "s", "t")
        .unwrap();
    let file = jar.persisted_origins();
    let names: Vec<&str> = file.iter().map(|o| o.origin.as_str()).collect();
    assert_eq!(names, vec!["https://a.com", "https://b.com"]);
    assert_eq!(file[0].local_storage[0].name, "z");
    assert_eq!(file[0].local_storage[1].name, "y");
    assert_eq!(file[0].local_storage[1].value, "2");
}

#[test]
fn area_names_come_in_two_forms() {
    assert_eq!(StorageArea::from_str_area("local"), Some(StorageArea::Local));
    assert_eq!(
        StorageArea::from_str_area("localStorage"),
        Some(StorageArea::Local)
    );
    assert_eq!(
        StorageArea::from_str_area("session"),
        Some(StorageArea::Session)
    );
    assert_eq!(
        StorageArea::from_str_area("sessionStorage"),
        Some(StorageArea::Session)
    );
    assert_eq!(StorageArea::from_str_area("Local"), None);
    assert_eq!(StorageArea::from_str_area(""), None);
}

#[test]
fn entry_written_with_a_slash_has_the_origin_of_a_page() {
    assert_eq!(origin_of("https://x.com/"), origin_of("https://x.com/path"));
    assert_eq!(origin_of("HTTPS://X.com"), Some("https://x.com".to_string()));
    assert_eq!(
        origin_of("ws://x.com:80/socket"),
        Some("ws://x.com".to_string())
    );
    assert_eq!(
        origin_of("ftp://x.com:2121/f"),
        Some("ftp://x.com:2121".to_string())
    );
    assert_eq!(origin_of("gopher://x.com/"), None);
}

#[test]
fn origin_is_its_own_origin() {
    for url in [
        "https://example.com/a/b?c=1#d",
        "http://user:pw@LOCALHOST:8080/x",
        "ws://192.168.0.1.:80",
        "http://0x7f.1/",
        "wss://[2001:DB8::1]:9000/s",
        "ftp://a_b.c-d.example./",
        "https://b\u{fc}cher.example/",
    ] {
        let origin = origin_of(url).expect("an origin");
        assert_eq!(origin_of(&origin), Some(origin.clone()), "{url}");
        let rest = origin.split_once("://").expect("a scheme").1;
        assert!(!rest.contains(['/', '?', '#', '@']), "{origin}");
    }
}

#[test]
fn overlong_internationalized_label_is_not_read_back() {
    let label: String = (0..1000u32)
        .map(|i| char::from_u32(0x4e00 + i * 20).unwrap())
        .collect();
    let origin = origin_of(&format!("https://{label}/")).expect("an origin");
    assert!(origin.len() > 2012);
    assert_eq!(origin_of(&origin), None);
    // A short one is.
    let short: String = label.chars().take(20).collect();
    let origin = origin_of(&format!("https://{short}:99/")).expect("an origin");
    assert!(origin.starts_with("https://xn--"));
    assert_eq!(origin_of(&origin), Some(origin.clone()));
}

#[test]
fn hosts_are_read_off_any_url_that_has_one() {
    assert_eq!(host_of("https://user@App.Example:8443/p"), Some("app.example".to_string()));
    assert_eq!(host_of("about:blank"), None);
    assert_eq!(host_of(""), None);
}

#[test]
fn origin_is_written_from_its_parts() {
    let parts = |scheme: &str, host: Option<&str>, port: Option<u16>| UrlParts {
        scheme: scheme.to_string(),
        host: host.map(str::to_string),
        port,
    };
    assert_eq!(
        origin_of_parts(&parts("http", Some("h"), Some(65535))).as_deref(),
        Some("http://h:65535")
    );
    assert_eq!(
        origin_of_parts(&parts("wss", Some("h"), None)).as_deref(),
        Some("wss://h")
    );
    assert_eq!(origin_of_parts(&parts("https", None, None)), None);
    assert_eq!(origin_of_parts(&parts("blob", Some("h"), None)), None);
}
