//! Contexts, cookies and portable sessions.
use obscura::context::{BrowserContext, Profile, SavedState};
use obscura::cookies::{CookieInfo, CookieJar};
use obscura::json::{Json, JsonNumber};
use obscura::state::{normalize_same_site, parse_storage_items};
use obscura::storage::StorageArea;
use std::path::PathBuf;

fn profile() -> Profile {
    Profile {
        user_agent: "Mozilla/5.0 Chrome/131.0.0.0 Safari/537.36".to_string(),
        platform: "Linux x86_64".to_string(),
        ua_platform: "Linux".to_string(),
        ua_platform_version: "6.5.0".to_string(),
    }
}

fn cookie(name: &str, value: &str, domain: &str) -> CookieInfo {
    CookieInfo {
        name: name.to_string(),
        value: value.to_string(),
        domain: domain.to_string(),
        path: "/".to_string(),
        secure: false,
        http_only: false,
        same_site: String::new(),
        expires: None,
    }
}

fn object(members: Vec<(&str, Json)>) -> Json {
    Json::object(
        members
            .into_iter()
            .map(|(k, v)| (k.to_string(), v))
            .collect(),
    )
}

fn at<'a>(list: &'a Json, i: usize) -> &'a Json {
    &list.as_array().unwrap()[i]
}

#[test]
fn with_full_options_propagates_user_agent_to_http_client() {
    let ctx = BrowserContext::with_full_options(
        "test".to_string(),
        None,
        false,
        Some("Custom-UA/1.0".to_string()),
        &profile(),
    );
    assert_eq!(ctx.user_agent, "Custom-UA/1.0");
    let client_ua = ctx.http_client.user_agent.clone();
    assert_eq!(client_ua, "Custom-UA/1.0");
}

#[test]
fn with_full_options_falls_back_to_chrome_default() {
    let ctx = BrowserContext::with_full_options("test".to_string(), None, false, None, &profile());
    assert!(ctx.user_agent.contains("Chrome"));
    let client_ua = ctx.http_client.user_agent.clone();
    assert!(client_ua.contains("Chrome"));
    assert_eq!(ctx.user_agent, client_ua);
}

#[test]
fn with_options_keeps_default_user_agent() {
    let ctx = BrowserContext::with_options("test".to_string(), None, false, &profile());
    assert!(ctx.user_agent.contains("Chrome"));
}

#[test]
fn storage_state_round_trips_through_playwright_shape() {
    let mut source = BrowserContext::new("source".to_string(), &profile());
    source
        .cookie_jar
        .set_cookies_from_cdp(vec![cookie("sid", "abc", "app.example")]);
    source
        .storage
        .set_item("https://app.example", StorageArea::Local, "token", "jwt")
        .unwrap();
    source
        .storage
        .set_item("https://app.example", StorageArea::Session, "csrf", "n1")
        .unwrap();

    let state = source.storage_state();
    let origin = at(state.get("origins").unwrap(), 0);
    assert_eq!(origin.get_str("origin"), Some("https://app.example"));
    let local = at(origin.get("localStorage").unwrap(), 0);
    assert_eq!(local.get_str("name"), Some("token"));
    assert_eq!(local.get_str("value"), Some("jwt"));
    assert_eq!(
        at(origin.get("sessionStorage").unwrap(), 0).get_str("name"),
        Some("csrf")
    );
    // Playwright's cookie keys are camelCase; a snake_case export would
    // silently import as all-defaults in any other tool.
    let exported = at(state.get("cookies").unwrap(), 0);
    assert_eq!(exported.get_str("name"), Some("sid"));
    assert!(exported.get("httpOnly").is_some());
    assert!(exported.get("sameSite").is_some());

    let mut target = BrowserContext::new("target".to_string(), &profile());
    let (cookies, items) = target.set_storage_state(&state);
    assert_eq!((cookies, items), (1, 2));
    assert_eq!(
        target
            .storage
            .get_item("https://app.example", StorageArea::Local, "token")
            .as_deref(),
        Some("jwt")
    );
    assert_eq!(target.cookie_jar.get_all_cookies().len(), 1);
    assert_eq!(target.storage_state(), state);
}

#[test]
fn set_storage_state_accepts_the_legacy_pair_shape() {
    let mut ctx = BrowserContext::new("legacy".to_string(), &profile());
    let legacy = object(vec![
        ("cookies", Json::array(Vec::new())),
        (
            "origins",
            Json::array(vec![object(vec![
                ("origin", Json::text("https://app.example/")),
                (
                    "localStorage",
                    Json::array(vec![Json::array(vec![
                        Json::text("token"),
                        Json::text("jwt"),
                    ])]),
                ),
            ])]),
        ),
    ]);
    let (_, items) = ctx.set_storage_state(&legacy);
    assert_eq!(items, 1);
    // The trailing slash must normalize to the same key a page reads.
    assert_eq!(
        ctx.storage
            .get_item("https://app.example", StorageArea::Local, "token")
            .as_deref(),
        Some("jwt")
    );
}

#[test]
fn storage_survives_a_context_restart_through_the_storage_dir() {
    let path = PathBuf::from("/tmp/profile");
    let file = {
        let mut first = BrowserContext::with_storage(
            "a".to_string(),
            Some(path.clone()),
            &profile(),
            SavedState::none(),
        );
        first
            .storage
            .set_item("https://app.example", StorageArea::Local, "token", "jwt")
            .unwrap();
        SavedState {
            cookies: first.cookie_jar.get_all_cookies(),
            storage: first.storage.persisted_origins(),
        }
    };
    let second = BrowserContext::with_storage("b".to_string(), Some(path), &profile(), file);
    assert_eq!(
        second
            .storage
            .get_item("https://app.example", StorageArea::Local, "token")
            .as_deref(),
        Some("jwt")
    );
}

#[test]
fn isolated_copy_does_not_share_mutable_network_state() {
    let mut source = BrowserContext::with_full_options(
        "source".to_string(),
        None,
        false,
        Some("Template-UA/1.0".to_string()),
        &profile(),
    );
    source
        .cookie_jar
        .set_cookies_from_cdp(vec![cookie("sid", "source", "example.com")]);

    let mut persistent = source.isolated_copy("persistent".to_string(), true);
    let incognito = source.isolated_copy("incognito".to_string(), false);

    assert_eq!(persistent.cookie_jar.get_all_cookies().len(), 1);
    assert!(incognito.cookie_jar.get_all_cookies().is_empty());
    persistent.cookie_jar.clear();
    persistent.http_client.set_user_agent("Changed-UA/2.0");

    assert_eq!(source.cookie_jar.get_all_cookies().len(), 1);
    assert_eq!(source.http_client.user_agent.as_str(), "Template-UA/1.0");
}

#[test]
fn copies_keep_the_configuration_and_incognito_writes_nowhere() {
    let mut source = BrowserContext::with_storage_and_network(
        "source".to_string(),
        Some("socks5://p:1".to_string()),
        true,
        None,
        Some(PathBuf::from("/tmp/profile")),
        true,
        &profile(),
        SavedState::none(),
    );
    source.obey_robots = true;
    source.allow_file_access = true;
    source
        .storage
        .set_item("https://a.com", StorageArea::Session, "s", "t")
        .unwrap();

    let persistent = source.isolated_copy("p".to_string(), true);
    assert_eq!(persistent.id, "p");
    assert_eq!(persistent.storage_dir, Some(PathBuf::from("/tmp/profile")));
    assert_eq!(
        persistent
            .storage
            .get_item("https://a.com", StorageArea::Session, "s")
            .as_deref(),
        Some("t")
    );
    let incognito = source.isolated_copy("i".to_string(), false);
    assert_eq!(incognito.storage_dir, None);
    assert!(incognito.storage.origins().is_empty());
    for copy in [&persistent, &incognito] {
        assert_eq!(copy.proxy_url.as_deref(), Some("socks5://p:1"));
        assert_eq!(copy.http_client.proxy_url.as_deref(), Some("socks5://p:1"));
        assert!(copy.http_client.block_trackers && copy.stealth);
        assert!(copy.http_client.allow_private_network && copy.allow_private_network);
        assert!(copy.obey_robots && copy.allow_file_access);
        assert_eq!(copy.platform, "Linux x86_64");
        assert_eq!(copy.ua_platform, "Linux");
        assert_eq!(copy.ua_platform_version, "6.5.0");
    }
}

#[test]
fn constructors_default_what_they_are_not_given() {
    let plain = BrowserContext::new("a".to_string(), &profile());
    assert_eq!(plain.id, "a");
    assert_eq!(plain.proxy_url, None);
    assert!(!plain.stealth && !plain.http_client.block_trackers);
    assert!(!plain.allow_private_network && !plain.allow_file_access && !plain.obey_robots);
    assert_eq!(plain.storage_dir, None);

    let proxied = BrowserContext::with_proxy("b".to_string(), Some("http://p".to_string()), &profile());
    assert_eq!(proxied.http_client.proxy_url.as_deref(), Some("http://p"));
    assert!(!proxied.stealth);

    let full = BrowserContext::with_storage_full(
        "c".to_string(),
        None,
        true,
        Some("UA".to_string()),
        None,
        &profile(),
        SavedState {
            cookies: vec![cookie("a", "1", "x.com")],
            storage: Vec::new(),
        },
    );
    assert_eq!(full.user_agent, "UA");
    assert!(full.http_client.block_trackers);
    // Without a directory nothing saved is taken up.
    assert!(full.cookie_jar.get_all_cookies().is_empty());
    assert!(!full.allow_private_network);
}

#[test]
fn saved_cookies_are_restored_with_the_directory() {
    let ctx = BrowserContext::with_storage(
        "a".to_string(),
        Some(PathBuf::from("/tmp/profile")),
        &profile(),
        SavedState {
            cookies: vec![cookie("a", "1", "x.com"), cookie("a", "2", "x.com")],
            storage: Vec::new(),
        },
    );
    let all = ctx.cookie_jar.get_all_cookies();
    assert_eq!(all.len(), 1);
    assert_eq!(all[0].value, "2");
}

#[test]
fn cookies_are_known_by_name_domain_and_path() {
    let mut jar = CookieJar::new();
    let mut deep = cookie("a", "deep", "x.com");
    deep.path = "/deep".to_string();
    jar.set_cookies_from_cdp(vec![
        cookie("a", "1", "x.com"),
        cookie("b", "2", "x.com"),
        deep,
        cookie("a", "3", "y.com"),
        cookie("a", "4", "x.com"),
    ]);
    let values: Vec<String> = jar
        .get_all_cookies()
        .into_iter()
        .map(|c| c.value)
        .collect();
    assert_eq!(values, vec!["4", "2", "deep", "3"]);
    jar.delete_cookies_filtered("a", "x.com", Some("/deep"));
    assert_eq!(jar.get_all_cookies().len(), 3);
    jar.delete_cookies_filtered("a", "x.com", None);
    assert_eq!(jar.get_all_cookies().len(), 2);
    jar.clear_domain("x.com");
    assert_eq!(jar.get_all_cookies(), vec![cookie("a", "3", "y.com")]);
    jar.clear();
    assert!(jar.get_all_cookies().is_empty());
}

#[test]
fn same_site_is_one_of_three() {
    assert_eq!(normalize_same_site("STRICT"), "Strict");
    assert_eq!(normalize_same_site("strict"), "Strict");
    assert_eq!(normalize_same_site("nOnE"), "None");
    assert_eq!(normalize_same_site("lax"), "Lax");
    assert_eq!(normalize_same_site(""), "Lax");
    assert_eq!(normalize_same_site("\u{17f}trict"), "Lax");
    for settled in ["Strict", "Lax", "None"] {
        assert_eq!(normalize_same_site(settled), settled);
    }
}

#[test]
fn exported_cookie_has_every_key() {
    let mut ctx = BrowserContext::new("a".to_string(), &profile());
    let mut c = cookie("n", "v", "d.com");
    c.path = "/p".to_string();
    c.secure = true;
    c.http_only = true;
    c.same_site = "strict".to_string();
    c.expires = Some(1_700_000_000);
    ctx.cookie_jar
        .set_cookies_from_cdp(vec![c, cookie("s", "w", "d.com")]);
    let expected = object(vec![
        ("name", Json::text("n")),
        ("value", Json::text("v")),
        ("domain", Json::text("d.com")),
        ("path", Json::text("/p")),
        ("expires", Json::Number(JsonNumber::PosInt(1_700_000_000))),
        ("httpOnly", Json::Bool(true)),
        ("secure", Json::Bool(true)),
        ("sameSite", Json::text("Strict")),
    ]);
    let state = ctx.storage_state();
    assert_eq!(at(state.get("cookies").unwrap(), 0), &expected);
    let session = at(state.get("cookies").unwrap(), 1);
    assert_eq!(
        session.get("expires"),
        Some(&Json::Number(JsonNumber::NegInt(-1)))
    );
    assert_eq!(session.get_str("sameSite"), Some("Lax"));
}

#[test]
fn session_area_is_exported_only_where_there_is_one() {
    let mut ctx = BrowserContext::new("a".to_string(), &profile());
    ctx.storage
        .set_item("https://b.com", StorageArea::Local, "k", "v")
        .unwrap();
    ctx.storage
        .set_item("https://a.com", StorageArea::Session, "s", "t")
        .unwrap();
    let state = ctx.storage_state();
    let origins = state.get("origins").unwrap();
    assert_eq!(at(origins, 0).get_str("origin"), Some("https://a.com"));
    assert!(at(origins, 0).get_array("localStorage").unwrap().is_empty());
    assert!(at(origins, 0).get("sessionStorage").is_some());
    assert_eq!(at(origins, 1).get_str("origin"), Some("https://b.com"));
    assert!(at(origins, 1).get("sessionStorage").is_none());
}

#[test]
fn import_reads_what_it_can_and_passes_over_the_rest() {
    let mut ctx = BrowserContext::new("a".to_string(), &profile());
    let state = object(vec![
        (
            "cookies",
            Json::array(vec![
                object(vec![
                    ("name", Json::text("a")),
                    ("value", Json::text("1")),
                    ("domain", Json::text("x.com")),
                    ("http_only", Json::Bool(true)),
                    ("same_site", Json::text("strict")),
                    ("expires", Json::integer(-1)),
                ]),
                object(vec![("name", Json::text("no-value"))]),
                Json::Null,
                object(vec![
                    ("name", Json::text("b")),
                    ("value", Json::text("2")),
                    ("domain", Json::text("x.com")),
                    ("path", Json::text("/p")),
                    ("secure", Json::Bool(true)),
                    ("expires", Json::integer(5)),
                ]),
            ]),
        ),
        (
            "origins",
            Json::array(vec![
                object(vec![("origin", Json::text("about:blank"))]),
                object(vec![("localStorage", Json::array(Vec::new()))]),
                object(vec![
                    ("origin", Json::text("https://x.com")),
                    (
                        "localStorage",
                        Json::array(vec![
                            Json::text("odd"),
                            Json::array(vec![Json::text("only-key")]),
                            object(vec![("name", Json::text("k")), ("value", Json::text("v"))]),
                        ]),
                    ),
                    (
                        "sessionStorage",
                        Json::array(vec![Json::array(vec![
                            Json::text("s"),
                            Json::text("t"),
                            Json::text("ignored"),
                        ])]),
                    ),
                ]),
            ]),
        ),
    ]);
    assert_eq!(ctx.set_storage_state(&state), (2, 2));
    let all = ctx.cookie_jar.get_all_cookies();
    assert_eq!(all[0].path, "/");
    assert!(all[0].http_only && !all[0].secure);
    assert_eq!(all[0].same_site, "strict");
    assert_eq!(all[0].expires, None);
    assert!(all[1].secure && !all[1].http_only);
    assert_eq!(all[1].expires, Some(5));
    assert_eq!(all[1].path, "/p");
    assert_eq!(
        ctx.storage
            .get_item("https://x.com", StorageArea::Session, "s")
            .as_deref(),
        Some("t")
    );
    assert_eq!(ctx.storage.items("https://x.com", StorageArea::Local).len(), 1);
}

#[test]
fn playwright_expiry_is_a_double_and_is_kept() {
    let import = |expires: f64| {
        let mut ctx = BrowserContext::new("t".to_string(), &profile());
        let state = object(vec![
            (
                "cookies",
                Json::array(vec![object(vec![
                    ("name", Json::text("sid")),
                    ("value", Json::text("v")),
                    ("domain", Json::text("app.example")),
                    ("path", Json::text("/")),
                    ("expires", Json::Number(JsonNumber::Double(expires.to_bits()))),
                    ("httpOnly", Json::Bool(true)),
                    ("secure", Json::Bool(true)),
                    ("sameSite", Json::text("Lax")),
                ])]),
            ),
            ("origins", Json::array(Vec::new())),
        ]);
        assert_eq!(ctx.set_storage_state(&state), (1, 0));
        ctx.cookie_jar.get_all_cookies()[0].expires
    };
    assert_eq!(import(1_900_000_000.0), Some(1_900_000_000));
    assert_eq!(import(1_767_225_600.987), Some(1_767_225_600));
    assert_eq!(import(1.0), Some(1));
    assert_eq!(import(0.999), None);
    assert_eq!(import(0.0), None);
    assert_eq!(import(-1.0), None);
    assert_eq!(import(-1_900_000_000.0), None);
    assert_eq!(import(f64::NAN), None);
    assert_eq!(import(f64::INFINITY), None);
}

#[test]
fn whole_seconds_of_a_double_are_those_of_a_cast() {
    let seconds = |f: f64| Json::Number(JsonNumber::Double(f.to_bits())).seconds();
    for f in [
        1.0,
        1.5,
        2.999_999,
        4_503_599_627_370_495.5,
        9_007_199_254_740_992.0,
        9_223_372_036_854_774_784.0,
        1_900_000_000.25,
    ] {
        assert_eq!(seconds(f), Some(f as i64));
    }
    // 2^63 and more is no `i64`.
    assert_eq!(seconds(9_223_372_036_854_775_808.0), None);
    assert_eq!(seconds(1e300), None);
    assert_eq!(Json::integer(-5).seconds(), Some(-5));
    assert_eq!(Json::integer(7).seconds(), Some(7));
    assert_eq!(Json::text("7").seconds(), None);
}

#[test]
fn import_replaces_listed_areas_and_leaves_the_rest() {
    let mut ctx = BrowserContext::new("a".to_string(), &profile());
    ctx.storage
        .set_item("https://x.com", StorageArea::Local, "old", "1")
        .unwrap();
    ctx.storage
        .set_item("https://x.com", StorageArea::Session, "kept", "1")
        .unwrap();
    ctx.storage
        .set_item("https://y.com", StorageArea::Local, "kept", "1")
        .unwrap();
    let state = object(vec![(
        "origins",
        Json::array(vec![object(vec![
            ("origin", Json::text("https://x.com")),
            ("localStorage", Json::array(Vec::new())),
        ])]),
    )]);
    assert_eq!(ctx.set_storage_state(&state), (0, 0));
    assert!(ctx.storage.items("https://x.com", StorageArea::Local).is_empty());
    assert_eq!(ctx.storage.items("https://x.com", StorageArea::Session).len(), 1);
    assert_eq!(ctx.storage.items("https://y.com", StorageArea::Local).len(), 1);
    assert_eq!(ctx.set_storage_state(&Json::Null), (0, 0));
}

#[test]
fn both_item_shapes_are_read_alike() {
    let as_pair = parse_storage_items(&vec![Json::array(vec![
        Json::text("k"),
        Json::text("v"),
    ])]);
    let as_object = parse_storage_items(&vec![object(vec![
        ("name", Json::text("k")),
        ("value", Json::text("v")),
    ])]);
    assert_eq!(as_pair, vec![("k".to_string(), "v".to_string())]);
    assert_eq!(as_pair, as_object);
    assert!(parse_storage_items(&vec![Json::Bool(true), Json::array(Vec::new())]).is_empty());
}

#[test]
fn numbers_are_integers_or_nothing() {
    assert_eq!(Json::integer(-7).as_i64(), Some(-7));
    assert_eq!(Json::integer(-7).as_u64(), None);
    assert_eq!(Json::integer(7).as_u64(), Some(7));
    assert_eq!(Json::Number(JsonNumber::PosInt(u64::MAX)).as_i64(), None);
    let half = Json::Number(JsonNumber::Double(0.5f64.to_bits()));
    assert_eq!(half.as_i64(), None);
    assert_eq!(half.as_u64(), None);
}
