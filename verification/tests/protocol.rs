//! The protocol domains.
use obscura::cdp::{CdpContext, ContextRef, Page, Viewport};
use obscura::context::{BrowserContext, Profile};
use obscura::cookies::CookieInfo;
use obscura::domains::emulation::{ScaleFactor, MAX_SCALE};
use obscura::domains::storage::{DeleteFilter, StorageReply};
use obscura::domains::{domstorage, emulation, memory, storage};
use obscura::items::QUOTA_BYTES;
use obscura::json::{Json, JsonNumber};
use obscura::scale::{INFINITE, SCALE_ONE};
use obscura::storage::StorageArea;

fn profile() -> Profile {
    Profile {
        user_agent: "Mozilla/5.0 Chrome/131.0.0.0".to_string(),
        platform: "Linux x86_64".to_string(),
        ua_platform: "Linux".to_string(),
        ua_platform_version: "6.5.0".to_string(),
    }
}

fn ctx() -> CdpContext {
    CdpContext::new(&profile())
}

fn object(members: Vec<(&str, Json)>) -> Json {
    Json::object(
        members
            .into_iter()
            .map(|(k, v)| (k.to_string(), v))
            .collect(),
    )
}

fn scale(f: f32) -> Option<ScaleFactor> {
    Some(ScaleFactor {
        bits: f.to_bits(),
        text: format!("{f}"),
    })
}

fn viewport(width: u32, height: u32, scale: f32) -> Viewport {
    Viewport {
        width,
        height,
        scale_bits: scale.to_bits(),
    }
}

fn metrics(width: i64, height: i64) -> Json {
    object(vec![
        ("width", Json::integer(width)),
        ("height", Json::integer(height)),
    ])
}

fn cookie(name: &str, value: &str, domain: &str) -> CookieInfo {
    CookieInfo {
        name: name.to_string(),
        value: value.to_string(),
        domain: domain.to_string(),
        path: "/".to_string(),
        secure: false,
        http_only: false,
        same_site: String::new(),
        expires: None,
    }
}

fn two_contexts() -> (CdpContext, Option<String>) {
    let mut c = ctx();
    c.browser_contexts
        .push(BrowserContext::new("ctx-1".to_string(), &profile()));
    c.pages.push(Page {
        id: "p".to_string(),
        context: ContextRef::Created(0),
        dom_nodes: Some(3),
    });
    c.attach_session("s", "p");
    (c, Some("s".to_string()))
}

fn storage_id(origin: &str) -> Json {
    object(vec![("securityOrigin", Json::text(origin))])
}

#[test]
fn sets_viewport_that_screenshots_will_use() {
    let mut c = ctx();
    let params = object(vec![
        ("width", Json::integer(390)),
        ("height", Json::integer(844)),
        ("mobile", Json::Bool(true)),
    ]);
    emulation::handle("setDeviceMetricsOverride", &params, &scale(3.0), &mut c)
        .expect("override accepted");
    assert_eq!(c.viewport, viewport(390, 844, 3.0));
}

#[test]
fn override_is_not_silently_discarded() {
    let mut c = ctx();
    let before = c.viewport;
    emulation::handle("setDeviceMetricsOverride", &metrics(800, 600), &None, &mut c).unwrap();
    assert_ne!(c.viewport, before, "viewport must actually change");
    assert_eq!(c.viewport.width, 800);
}

#[test]
fn zero_dimension_means_keep_current_per_cdp() {
    let mut c = ctx();
    c.viewport = viewport(1000, 500, 1.0);
    emulation::handle("setDeviceMetricsOverride", &metrics(0, 0), &None, &mut c).unwrap();
    assert_eq!((c.viewport.width, c.viewport.height), (1000, 500));
}

#[test]
fn clear_restores_the_default() {
    let mut c = ctx();
    c.viewport = viewport(390, 844, 3.0);
    emulation::handle(
        "clearDeviceMetricsOverride",
        &object(Vec::new()),
        &None,
        &mut c,
    )
    .unwrap();
    assert_eq!(c.viewport, Viewport::default());
}

#[test]
fn rejects_absurd_dimensions_rather_than_attempting_the_allocation() {
    let mut c = ctx();
    let err = emulation::handle(
        "setDeviceMetricsOverride",
        &metrics(100_000, 100_000),
        &None,
        &mut c,
    )
    .expect_err("must reject");
    assert!(err.contains("outside the supported"), "{err}");
    assert_eq!(c.viewport, Viewport::default(), "must not partially apply");
    assert_eq!(
        err,
        "setDeviceMetricsOverride: 100000x100000 outside the supported 1..=16384 range"
    );
}

#[test]
fn other_emulation_methods_still_no_op_successfully() {
    let mut c = ctx();
    for m in [
        "setUserAgentOverride",
        "setTouchEmulationEnabled",
        "setEmulatedMedia",
        "setGeolocationOverride",
    ] {
        assert!(
            emulation::handle(m, &object(Vec::new()), &None, &mut c).is_ok(),
            "{m} must not error"
        );
    }
    assert_eq!(c.viewport, Viewport::default());
}

#[test]
fn scale_constants_are_the_bits_of_their_numbers() {
    assert_eq!(SCALE_ONE, 1.0f32.to_bits());
    assert_eq!(MAX_SCALE, 8.0f32.to_bits());
    assert_eq!(INFINITE, f32::INFINITY.to_bits());
    assert_eq!(Viewport::default(), viewport(1280, 720, 1.0));
}

#[test]
fn scale_beyond_the_limit_is_refused_and_a_senseless_one_is_the_default() {
    let mut c = ctx();
    let set = |s: Option<ScaleFactor>, c: &mut CdpContext| {
        emulation::handle("setDeviceMetricsOverride", &metrics(800, 600), &s, c)
    };
    let err = set(scale(8.5), &mut c).expect_err("too large");
    assert_eq!(
        err,
        "setDeviceMetricsOverride: deviceScaleFactor 8.5 exceeds 8"
    );
    assert_eq!(c.viewport, Viewport::default());
    assert!(set(scale(8.0), &mut c).is_ok());
    assert_eq!(c.viewport.scale_bits, 8.0f32.to_bits());
    for senseless in [0.0, -0.0, -1.0, f32::NAN, f32::INFINITY, f32::NEG_INFINITY] {
        assert!(set(scale(senseless), &mut c).is_ok());
        assert_eq!(c.viewport.scale_bits, SCALE_ONE);
    }
    assert!(set(scale(f32::MIN_POSITIVE), &mut c).is_ok());
    assert_eq!(c.viewport.scale_bits, f32::MIN_POSITIVE.to_bits());
}

#[test]
fn override_without_dimensions_is_refused() {
    let mut c = ctx();
    let set = |params: &Json, c: &mut CdpContext| {
        emulation::handle("setDeviceMetricsOverride", params, &None, c).unwrap_err()
    };
    assert_eq!(
        set(&object(Vec::new()), &mut c),
        "setDeviceMetricsOverride: width required"
    );
    assert_eq!(
        set(&object(vec![("width", Json::integer(1))]), &mut c),
        "setDeviceMetricsOverride: height required"
    );
    assert_eq!(
        set(&metrics(-1, 5), &mut c),
        "setDeviceMetricsOverride: width required"
    );
    assert_eq!(
        set(
            &object(vec![
                ("width", Json::integer(1)),
                ("height", Json::Number(JsonNumber::Double(5.5f64.to_bits()))),
            ]),
            &mut c
        ),
        "setDeviceMetricsOverride: height required"
    );
}

#[test]
fn dimensions_are_bounded_on_both_sides() {
    let mut c = ctx();
    assert!(
        emulation::handle("setDeviceMetricsOverride", &metrics(1, 16384), &None, &mut c).is_ok()
    );
    assert_eq!((c.viewport.width, c.viewport.height), (1, 16384));
    assert!(
        emulation::handle("setDeviceMetricsOverride", &metrics(1, 16385), &None, &mut c).is_err()
    );
}

#[test]
fn dimension_beyond_32_bits_is_refused_whatever_its_low_bits() {
    let mut c = ctx();
    let err = emulation::handle(
        "setDeviceMetricsOverride",
        &metrics(4_294_968_096, 600),
        &None,
        &mut c,
    )
    .expect_err("must reject");
    assert_eq!(
        err,
        "setDeviceMetricsOverride: 4294968096x600 outside the supported 1..=16384 range"
    );
    assert_eq!(c.viewport, Viewport::default());
    let err = emulation::handle(
        "setDeviceMetricsOverride",
        &object(vec![
            ("width", Json::integer(0)),
            ("height", Json::Number(JsonNumber::PosInt(u64::MAX))),
        ]),
        &None,
        &mut c,
    )
    .expect_err("must reject");
    assert_eq!(
        err,
        "setDeviceMetricsOverride: 1280x18446744073709551615 outside the supported 1..=16384 range"
    );
    // 2^32 does not stand for zero.
    assert!(emulation::handle(
        "setDeviceMetricsOverride",
        &metrics(0x1_0000_0000, 600),
        &None,
        &mut c
    )
    .is_err());
}

#[test]
fn get_dom_counters_is_routed_and_shaped_correctly() {
    let mut c = ctx();
    let r = memory::handle("getDOMCounters", &object(Vec::new()), &mut c)
        .expect("Memory.getDOMCounters must be handled");
    // CDP declares all three fields required; a client reading them must not
    // find them missing.
    for k in ["documents", "nodes", "jsEventListeners"] {
        assert!(
            r.get(k).and_then(|v| v.as_i64()).is_some(),
            "missing {k}: {r:?}"
        );
    }
}

#[test]
fn memory_domain_no_longer_reports_unknown_domain() {
    let mut c = ctx();
    let r = memory::handle("getDOMCounters", &object(Vec::new()), &mut c);
    assert!(r.is_ok(), "must not error: {r:?}");
}

#[test]
fn node_count_tracks_real_pages_not_a_constant() {
    let mut c = ctx();
    let empty = memory::handle("getDOMCounters", &object(Vec::new()), &mut c).unwrap();
    assert_eq!(empty.get("documents").unwrap().as_i64(), Some(0));

    c.create_page();
    let one = memory::handle("getDOMCounters", &object(Vec::new()), &mut c).unwrap();
    assert_eq!(
        one.get("documents").unwrap().as_i64(),
        Some(1),
        "documents must reflect real pages, not a hardcoded value"
    );
}

#[test]
fn unknown_memory_method_still_errors() {
    let mut c = ctx();
    let err = memory::handle("notAThing", &object(Vec::new()), &mut c)
        .expect_err("unknown methods must not be silently acked");
    assert!(err.contains("Unknown Memory method"), "{err}");
    assert_eq!(err, "Unknown Memory method: notAThing");
}

#[test]
fn nodes_of_all_pages_are_counted() {
    let mut c = ctx();
    for nodes in [Some(5), None, Some(37)] {
        c.create_page();
        c.pages.last_mut().unwrap().dom_nodes = nodes;
    }
    let r = memory::handle("getDOMCountersForLeakDetection", &Json::Null, &mut c).unwrap();
    assert_eq!(r.get("documents").unwrap().as_i64(), Some(3));
    assert_eq!(r.get("nodes").unwrap().as_i64(), Some(42));
    assert_eq!(r.get("jsEventListeners").unwrap().as_i64(), Some(0));
}

#[test]
fn memory_setters_are_acknowledged_and_profiles_are_empty() {
    let mut c = ctx();
    for m in [
        "setPressureNotificationsSuppressed",
        "simulatePressureNotification",
        "prepareForLeakDetection",
        "forciblyPurgeJavaScriptMemory",
        "startSampling",
        "stopSampling",
        "setPressureNotificationsSuppressedForTesting",
    ] {
        assert_eq!(memory::handle(m, &Json::Null, &mut c), Ok(Json::empty()));
    }
    for m in [
        "getAllTimeSamplingProfile",
        "getBrowserSamplingProfile",
        "getSamplingProfile",
    ] {
        let r = memory::handle(m, &Json::Null, &mut c).unwrap();
        let p = r.get("profile").unwrap();
        assert!(p.get_array("samples").unwrap().is_empty());
        assert!(p.get_array("modules").unwrap().is_empty());
    }
}

#[test]
fn pages_and_sessions_are_found_by_their_ids() {
    let mut c = ctx();
    let first = c.create_page();
    let second = c.create_page();
    assert_ne!(first, second);
    c.attach_session("s", &first);
    c.attach_session("s", &second);
    assert_eq!(
        c.get_session_page(&Some("s".to_string())).unwrap().id,
        second
    );
    assert!(c.get_session_page(&Some("other".to_string())).is_none());
    assert!(c.get_session_page(&None).is_none());
    c.attach_session("gone", "no-such-page");
    assert!(c.get_session_page(&Some("gone".to_string())).is_none());
    assert_eq!(c.browser_context("default"), Some(ContextRef::Default));
    assert_eq!(c.browser_context("nope"), None);
    let (c, session) = two_contexts();
    assert_eq!(c.browser_context("ctx-1"), Some(ContextRef::Created(0)));
    assert_eq!(c.session_context(&session), ContextRef::Created(0));
    assert_eq!(c.session_context(&None), ContextRef::Default);
}

#[test]
fn storage_set_over_the_wire_is_read_over_the_wire() {
    let mut c = ctx();
    let set = object(vec![
        ("storageId", storage_id("https://app.example/")),
        ("key", Json::text("token")),
        ("value", Json::text("jwt")),
    ]);
    assert_eq!(
        domstorage::handle("setDOMStorageItem", &set, &mut c, &None),
        Ok(Json::empty())
    );
    let get = object(vec![(
        "storageId",
        object(vec![
            ("storageKey", Json::text("https://app.example/page")),
            ("isLocalStorage", Json::Bool(true)),
        ]),
    )]);
    let expected = object(vec![(
        "entries",
        Json::array(vec![Json::array(vec![
            Json::text("token"),
            Json::text("jwt"),
        ])]),
    )]);
    assert_eq!(
        domstorage::handle("getDOMStorageItems", &get, &mut c, &None),
        Ok(expected)
    );
    let session_area = object(vec![(
        "storageId",
        object(vec![
            ("securityOrigin", Json::text("https://app.example")),
            ("isLocalStorage", Json::Bool(false)),
        ]),
    )]);
    let r = domstorage::handle("getDOMStorageItems", &session_area, &mut c, &None).unwrap();
    assert!(r.get_array("entries").unwrap().is_empty());
}

#[test]
fn storage_is_removed_and_cleared_over_the_wire() {
    let mut c = ctx();
    for k in ["a", "b", "c"] {
        c.default_context
            .storage
            .set_item("https://x.com", StorageArea::Local, k, "1")
            .unwrap();
    }
    let remove = object(vec![
        ("storageId", storage_id("https://x.com")),
        ("key", Json::text("b")),
    ]);
    assert!(domstorage::handle("removeDOMStorageItem", &remove, &mut c, &None).is_ok());
    assert_eq!(
        c.default_context
            .storage
            .items("https://x.com", StorageArea::Local)
            .len(),
        2
    );
    assert!(domstorage::handle("clear", &remove, &mut c, &None).is_ok());
    assert!(c
        .default_context
        .storage
        .items("https://x.com", StorageArea::Local)
        .is_empty());
}

#[test]
fn storage_requests_go_to_the_context_of_the_session() {
    let (mut c, session) = two_contexts();
    let set = object(vec![
        ("storageId", storage_id("https://x.com")),
        ("key", Json::text("k")),
        ("value", Json::text("v")),
    ]);
    domstorage::handle("setDOMStorageItem", &set, &mut c, &session).unwrap();
    assert!(c.default_context.storage.origins().is_empty());
    assert_eq!(
        c.browser_contexts[0]
            .storage
            .get_item("https://x.com", StorageArea::Local, "k")
            .as_deref(),
        Some("v")
    );
    let read = domstorage::handle("getDOMStorageItems", &set, &mut c, &session).unwrap();
    assert_eq!(read.get_array("entries").unwrap().len(), 1);
}

#[test]
fn storage_requests_say_what_is_wrong_with_them() {
    let mut c = ctx();
    let mut ask = |method: &str, params: Json| {
        domstorage::handle(method, &params, &mut c, &None).unwrap_err()
    };
    assert_eq!(ask("clear", object(Vec::new())), "Missing storageId");
    assert_eq!(
        ask("clear", object(vec![("storageId", object(Vec::new()))])),
        "storageId needs securityOrigin or storageKey"
    );
    assert_eq!(
        ask(
            "clear",
            object(vec![(
                "storageId",
                object(vec![("securityOrigin", Json::integer(1))])
            )])
        ),
        "storageId needs securityOrigin or storageKey"
    );
    assert_eq!(
        ask(
            "clear",
            object(vec![("storageId", storage_id("about:blank"))])
        ),
        "Opaque or unsupported origin: about:blank"
    );
    let id = || ("storageId", storage_id("https://x.com"));
    assert_eq!(ask("setDOMStorageItem", object(vec![id()])), "Missing key");
    assert_eq!(
        ask(
            "setDOMStorageItem",
            object(vec![id(), ("key", Json::text("k"))])
        ),
        "Missing value"
    );
    assert_eq!(
        ask("removeDOMStorageItem", object(vec![id()])),
        "Missing key"
    );
    assert_eq!(
        ask(
            "setDOMStorageItem",
            object(vec![
                id(),
                ("key", Json::text("k")),
                ("value", Json::Text("x".repeat(QUOTA_BYTES))),
            ])
        ),
        "QuotaExceededError"
    );
    assert_eq!(
        ask("nope", object(Vec::new())),
        "Unknown DOMStorage method: nope"
    );
    assert!(c.default_context.storage.origins().is_empty());
    for m in ["enable", "disable"] {
        assert_eq!(
            domstorage::handle(m, &Json::Null, &mut c, &None),
            Ok(Json::empty())
        );
    }
}

#[test]
fn cookies_go_to_the_named_context_or_that_of_the_session() {
    let (mut c, session) = two_contexts();
    let listed = || ("cookies", Json::array(Vec::new()));
    let named = object(vec![("browserContextId", Json::text("default")), listed()]);
    let unnamed = object(vec![listed()]);
    storage::handle(
        "setCookies",
        &named,
        vec![cookie("a", "1", "x.com")],
        &None,
        &mut c,
        &session,
    )
    .unwrap();
    storage::handle(
        "setCookies",
        &unnamed,
        vec![cookie("b", "2", "x.com")],
        &None,
        &mut c,
        &session,
    )
    .unwrap();
    assert_eq!(
        storage::handle("getCookies", &named, Vec::new(), &None, &mut c, &session),
        Ok(StorageReply::Cookies(vec![cookie("a", "1", "x.com")]))
    );
    assert_eq!(
        storage::handle("getCookies", &unnamed, Vec::new(), &None, &mut c, &session),
        Ok(StorageReply::Cookies(vec![cookie("b", "2", "x.com")]))
    );
    // Without a list of cookies nothing is set.
    storage::handle(
        "setCookies",
        &Json::Null,
        vec![cookie("z", "9", "x.com")],
        &None,
        &mut c,
        &None,
    )
    .unwrap();
    assert_eq!(c.default_context.cookie_jar.get_all_cookies().len(), 1);
    let unknown = object(vec![("browserContextId", Json::text("nope")), listed()]);
    let filter = Some(DeleteFilter {
        name: "a".to_string(),
        domain: "x.com".to_string(),
        path: None,
    });
    for m in ["getCookies", "setCookies", "deleteCookies"] {
        assert_eq!(
            storage::handle(m, &unknown, Vec::new(), &filter, &mut c, &None),
            Err("Browser context not found: nope".to_string())
        );
    }
}

#[test]
fn cookies_are_deleted_by_filter() {
    let mut c = ctx();
    c.default_context.cookie_jar.set_cookies_from_cdp(vec![
        cookie("a", "1", "x.com"),
        cookie("a", "2", "y.com"),
    ]);
    let filter = Some(DeleteFilter {
        name: "a".to_string(),
        domain: "x.com".to_string(),
        path: Some("/".to_string()),
    });
    assert_eq!(
        storage::handle(
            "deleteCookies",
            &Json::Null,
            Vec::new(),
            &filter,
            &mut c,
            &None
        ),
        Ok(StorageReply::Empty)
    );
    assert_eq!(
        c.default_context.cookie_jar.get_all_cookies(),
        vec![cookie("a", "2", "y.com")]
    );
    storage::handle("deleteCookies", &Json::Null, Vec::new(), &None, &mut c, &None).unwrap();
    storage::handle("somethingElse", &Json::Null, Vec::new(), &filter, &mut c, &None).unwrap();
    assert_eq!(c.default_context.cookie_jar.get_all_cookies().len(), 1);
}

fn filled() -> CdpContext {
    let mut c = ctx();
    let jar = &mut c.default_context.storage;
    for area in [StorageArea::Local, StorageArea::Session] {
        jar.set_item("https://x.com", area, "k", "v").unwrap();
        jar.set_item("https://y.com", area, "k", "v").unwrap();
    }
    c.default_context.cookie_jar.set_cookies_from_cdp(vec![
        cookie("a", "1", "x.com"),
        cookie("a", "2", "y.com"),
    ]);
    c
}

fn left(c: &CdpContext) -> (usize, usize, usize) {
    let jar = &c.default_context.storage;
    (
        jar.items("https://x.com", StorageArea::Local).len(),
        jar.items("https://x.com", StorageArea::Session).len(),
        c.default_context.cookie_jar.get_all_cookies().len(),
    )
}

#[test]
fn clearing_an_origin_honours_the_listed_types() {
    let clear = |method: &str, key: &str, types: Option<&str>| {
        let mut c = filled();
        let mut members = vec![(key, Json::text("https://x.com/"))];
        if let Some(t) = types {
            members.push(("storageTypes", Json::text(t)));
        }
        storage::handle(method, &object(members), Vec::new(), &None, &mut c, &None).unwrap();
        assert_eq!(
            c.default_context
                .storage
                .items("https://y.com", StorageArea::Local)
                .len(),
            1
        );
        left(&c)
    };
    assert_eq!(clear("clearDataForOrigin", "origin", None), (0, 0, 1));
    assert_eq!(clear("clearDataForOrigin", "origin", Some("all")), (0, 0, 1));
    assert_eq!(
        clear("clearDataForStorageKey", "storageKey", Some("cookies")),
        (1, 1, 1)
    );
    assert_eq!(
        clear("clearDataForOrigin", "origin", Some("local_storage")),
        (0, 1, 2)
    );
    assert_eq!(
        clear("clearDataForOrigin", "origin", Some("indexeddb, local_storage ,cookies")),
        (0, 1, 1)
    );
    assert_eq!(
        clear("clearDataForOrigin", "origin", Some("indexeddb")),
        (1, 1, 2)
    );
}

#[test]
fn clearing_cookies_of_an_unknown_context_fails_after_storage_went() {
    let mut c = filled();
    let params = object(vec![
        ("origin", Json::text("https://x.com")),
        ("browserContextId", Json::text("nope")),
    ]);
    assert_eq!(
        storage::handle("clearDataForOrigin", &params, Vec::new(), &None, &mut c, &None),
        Err("Browser context not found: nope".to_string())
    );
    assert_eq!(left(&c), (0, 0, 2));
}

#[test]
fn clearing_without_an_origin_clears_nothing() {
    let mut c = filled();
    assert_eq!(
        storage::handle("clearDataForOrigin", &Json::Null, Vec::new(), &None, &mut c, &None),
        Ok(StorageReply::Empty)
    );
    assert_eq!(left(&c), (1, 1, 2));
    // A file URL has no storage of its own and no host.
    let file = object(vec![("origin", Json::text("file:///x"))]);
    storage::handle("clearDataForOrigin", &file, Vec::new(), &None, &mut c, &None).unwrap();
    assert_eq!(left(&c), (1, 1, 2));
}
