//! Laws of what each protocol method answers and changes.
use crate::cdp::{lemma_session_context, CdpView, ContextRef, PageView};
use crate::context::ContextView;
use crate::cookies::{cookies_put, cookies_without, cookies_without_domain, CookieView};
use crate::domains::domstorage;
use crate::domains::domstorage::{addressed_area, entries_json};
use crate::domains::emulation;
use crate::domains::emulation::ScaleView;
use crate::domains::memory;
use crate::domains::memory::{count_shown, counters_json, total_nodes};
use crate::domains::storage;
use crate::domains::storage::{cookie_context, FilterView, StorageReplyView};
use crate::items::{items_remove, set_fits};
use crate::json::{empty_object, lemma_member_at, JsonNumber, JsonView};
use crate::laws::cookies::law_cookies_that_are_set_are_there;
use crate::laws::protocol::{
    law_wire_set_then_read_cookies, lemma_contexts_same_ids, lemma_cookie_context_exists,
    lemma_same_cookie_context,
};
use crate::laws::session::law_deleted_cookies_are_gone;
use crate::origin::{url_host, url_origin};
use crate::storage::{jar_items, jar_set, jar_with, StorageArea};
use crate::text::{decimal_text, lists_word};
use vstd::prelude::*;

verus! {

/// A storage id names an origin by `securityOrigin` or else by `storageKey`, as
/// a text that has an origin, and the session area just where `isLocalStorage`
/// is false; everything else is refused with the reason.
pub proof fn law_storage_ids(params: JsonView)
    ensures
        params.get("storageId"@) is None ==> addressed_area(params) == Err::<
            (Seq<char>, StorageArea),
            Seq<char>,
        >("Missing storageId"@),
        params.get("storageId"@) matches Some(id) ==> {
            let named = if id.get("securityOrigin"@) is Some {
                id.get("securityOrigin"@)
            } else {
                id.get("storageKey"@)
            };
            let area = if id.get("isLocalStorage"@) == Some(JsonView::Bool(false)) {
                StorageArea::Session
            } else {
                StorageArea::Local
            };
            match named {
                Some(JsonView::Text(raw)) => match url_origin(raw) {
                    Some(origin) => addressed_area(params) == Ok::<
                        (Seq<char>, StorageArea),
                        Seq<char>,
                    >((origin, area)),
                    None => addressed_area(params) == Err::<(Seq<char>, StorageArea), Seq<char>>(
                        "Opaque or unsupported origin: "@ + raw,
                    ),
                },
                _ => addressed_area(params) == Err::<(Seq<char>, StorageArea), Seq<char>>(
                    "storageId needs securityOrigin or storageKey"@,
                ),
            }
        },
{
}

proof fn lemma_storage_methods()
    ensures
        "setDOMStorageItem"@ != "getDOMStorageItems"@,
        "setDOMStorageItem"@ != "removeDOMStorageItem"@,
        "getDOMStorageItems"@ != "removeDOMStorageItem"@,
        "clear"@ != "getDOMStorageItems"@,
        "clear"@ != "setDOMStorageItem"@,
        "clear"@ != "removeDOMStorageItem"@,
        forall|s: Seq<char>|
            s == "setDOMStorageItem"@ || s == "getDOMStorageItems"@ || s == "removeDOMStorageItem"@
                || s == "clear"@ ==> #[trigger] s.len() != 6 && s.len() != 7,
        "enable"@.len() == 6,
        "disable"@.len() == 7,
{
    reveal_strlit("setDOMStorageItem");
    reveal_strlit("getDOMStorageItems");
    reveal_strlit("removeDOMStorageItem");
    reveal_strlit("clear");
    reveal_strlit("enable");
    reveal_strlit("disable");
    assert("setDOMStorageItem"@.len() == 17 && "getDOMStorageItems"@.len() == 18);
    assert("removeDOMStorageItem"@.len() == 20 && "clear"@.len() == 5);
}

/// Reading an area changes nothing and lists its items in order, each as a pair
/// of key and value.
pub proof fn law_read_lists_the_items(
    ctx: CdpView,
    params: JsonView,
    session: Option<Seq<char>>,
    origin: Seq<char>,
    area: StorageArea,
    i: int,
)
    requires
        addressed_area(params) == Ok::<(Seq<char>, StorageArea), Seq<char>>((origin, area)),
    ensures
        ({
            let items = jar_items(
                ctx.context(ctx.session_context(session)).storage,
                origin,
                area,
            );
            let (after, reply) = domstorage::answer(ctx, "getDOMStorageItems"@, params, session);
            let list = reply->Ok_0.get_array("entries"@);
            &&& after == ctx
            &&& reply is Ok && list is Some && list->0.len() == items.len()
            &&& reply->Ok_0 is Object && reply->Ok_0->Object_0.len() == 1
            &&& 0 <= i < items.len() ==> list->0[i].as_array() == Some(
                seq![JsonView::Text(items[i].0), JsonView::Text(items[i].1)],
            )
        }),
{
    lemma_storage_methods();
    let items = jar_items(ctx.context(ctx.session_context(session)).storage, origin, area);
    lemma_member_at(entries_json(items)->Object_0, "entries"@, 0);
}

/// Setting an item over the wire sets it in the addressed area of the session's
/// context if the quota lets it, and says whether it did.
pub proof fn law_write_sets_the_item(
    ctx: CdpView,
    params: JsonView,
    session: Option<Seq<char>>,
    origin: Seq<char>,
    area: StorageArea,
)
    requires
        ctx.wf(),
        addressed_area(params) == Ok::<(Seq<char>, StorageArea), Seq<char>>((origin, area)),
    ensures
        ({
            let at = ctx.session_context(session);
            let jar = ctx.context(at).storage;
            let (after, reply) = domstorage::answer(ctx, "setDOMStorageItem"@, params, session);
            match (params.get("key"@), params.get("value"@)) {
                (Some(JsonView::Text(key)), Some(JsonView::Text(value))) => {
                    &&& after.context(at).storage == jar_set(jar, origin, area, key, value)
                    &&& set_fits(jar_items(jar, origin, area), key, value) ==> reply == Ok::<
                        JsonView,
                        Seq<char>,
                    >(empty_object())
                    &&& !set_fits(jar_items(jar, origin, area), key, value) ==> reply == Err::<
                        JsonView,
                        Seq<char>,
                    >("QuotaExceededError"@)
                },
                (Some(JsonView::Text(_)), _) => after == ctx && reply == Err::<JsonView, Seq<char>>(
                    "Missing value"@,
                ),
                _ => after == ctx && reply == Err::<JsonView, Seq<char>>("Missing key"@),
            }
        }),
{
    lemma_storage_methods();
    lemma_session_context(ctx, session);
}

/// Removing an item over the wire takes what is under its key out of the
/// addressed area, clearing takes out everything; other areas stay.
pub proof fn law_remove_and_clear_over_the_wire(
    ctx: CdpView,
    params: JsonView,
    session: Option<Seq<char>>,
    origin: Seq<char>,
    area: StorageArea,
    other_origin: Seq<char>,
    other_area: StorageArea,
)
    requires
        ctx.wf(),
        addressed_area(params) == Ok::<(Seq<char>, StorageArea), Seq<char>>((origin, area)),
    ensures
        ({
            let at = ctx.session_context(session);
            let jar = ctx.context(at).storage;
            let (removed, reply) = domstorage::answer(
                ctx,
                "removeDOMStorageItem"@,
                params,
                session,
            );
            let (cleared, done) = domstorage::answer(ctx, "clear"@, params, session);
            &&& match params.get("key"@) {
                Some(JsonView::Text(key)) => {
                    &&& reply == Ok::<JsonView, Seq<char>>(empty_object())
                    &&& jar_items(removed.context(at).storage, origin, area) == items_remove(
                        jar_items(jar, origin, area),
                        key,
                    )
                    &&& removed.context(at).storage == jar_with(
                        jar,
                        origin,
                        area,
                        items_remove(jar_items(jar, origin, area), key),
                    )
                },
                _ => removed == ctx && reply == Err::<JsonView, Seq<char>>("Missing key"@),
            }
            &&& done == Ok::<JsonView, Seq<char>>(empty_object())
            &&& jar_items(cleared.context(at).storage, origin, area).len() == 0
            &&& cleared.context(at).storage == jar_with(jar, origin, area, Seq::empty())
            &&& (other_origin, other_area) != (origin, area) ==> jar_items(
                removed.context(at).storage,
                other_origin,
                other_area,
            ) == jar_items(jar, other_origin, other_area) && jar_items(
                cleared.context(at).storage,
                other_origin,
                other_area,
            ) == jar_items(jar, other_origin, other_area)
        }),
{
    lemma_storage_methods();
    lemma_session_context(ctx, session);
}

/// A request whose storage id is refused is answered with the reason; enabling
/// and disabling are acknowledged; every other method is unknown. None of these
/// changes anything.
pub proof fn law_other_storage_requests(
    ctx: CdpView,
    method: Seq<char>,
    params: JsonView,
    session: Option<Seq<char>>,
)
    ensures
        ({
            let (after, reply) = domstorage::answer(ctx, method, params, session);
            let known = method == "getDOMStorageItems"@ || method == "setDOMStorageItem"@ || method
                == "removeDOMStorageItem"@ || method == "clear"@;
            let ack = method == "enable"@ || method == "disable"@;
            &&& ack ==> after == ctx && reply == Ok::<JsonView, Seq<char>>(empty_object())
            &&& !ack && !known ==> after == ctx && reply == Err::<JsonView, Seq<char>>(
                "Unknown DOMStorage method: "@ + method,
            )
            &&& known ==> (addressed_area(params) matches Err(e) ==> after == ctx && reply == Err::<
                JsonView,
                Seq<char>,
            >(e))
        }),
{
    lemma_storage_methods();
    assert(method.len() == method.len());
}

/// An override with a width and a height from 1 to 16384 is accepted and sets
/// just these; zero keeps the current one. Its device pixel ratio, by the bits
/// of its `f32`, is set as it is given where it is positive and at most 8, whose
/// bits are `0x4100_0000`; only an absent ratio, or one that is not positive and
/// finite, gives 1, whose bits are `0x3f80_0000`. Nothing but the viewport
/// changes.
pub proof fn law_override_sets_the_viewport(
    ctx: CdpView,
    params: JsonView,
    scale: Option<ScaleView>,
    width: u64,
    height: u64,
)
    requires
        params.get("width"@) == Some(JsonView::Number(JsonNumber::PosInt(width))),
        params.get("height"@) == Some(JsonView::Number(JsonNumber::PosInt(height))),
        width <= 16_384 && height <= 16_384,
        width == 0 ==> 1 <= ctx.viewport.width <= 16_384,
        height == 0 ==> 1 <= ctx.viewport.height <= 16_384,
        scale matches Some(s) ==> s.bits <= 0x4100_0000 || s.bits >= 0x7f80_0000,
    ensures
        ({
            let (after, reply) = emulation::answer(
                ctx,
                "setDeviceMetricsOverride"@,
                params,
                scale,
            );
            &&& reply == Ok::<JsonView, Seq<char>>(empty_object())
            &&& after.viewport.width == (if width == 0 {
                ctx.viewport.width as u64
            } else {
                width
            })
            &&& after.viewport.height == (if height == 0 {
                ctx.viewport.height as u64
            } else {
                height
            })
            &&& scale matches Some(s) ==> (0 < s.bits <= 0x4100_0000 ==> after.viewport.scale_bits
                == s.bits)
            &&& scale matches Some(s) ==> (s.bits == 0 || s.bits >= 0x7f80_0000
                ==> after.viewport.scale_bits == 0x3f80_0000)
            &&& scale is None ==> after.viewport.scale_bits == 0x3f80_0000
            &&& after.default_context == ctx.default_context
            &&& after.browser_contexts == ctx.browser_contexts
            &&& after.pages == ctx.pages && after.sessions == ctx.sessions
        }),
{
}

/// An override is refused for a missing width, for a missing height, for a size
/// out of bounds and for a ratio above 8, in this order; a refused one says why
/// and changes nothing.
pub proof fn law_override_is_refused(ctx: CdpView, params: JsonView, scale: Option<ScaleView>)
    ensures
        ({
            let (after, reply) = emulation::answer(
                ctx,
                "setDeviceMetricsOverride"@,
                params,
                scale,
            );
            match (params.get("width"@), params.get("height"@)) {
                (
                    Some(JsonView::Number(JsonNumber::PosInt(w))),
                    Some(JsonView::Number(JsonNumber::PosInt(h))),
                ) => {
                    let width = if w == 0 {
                        ctx.viewport.width as u64
                    } else {
                        w
                    };
                    let height = if h == 0 {
                        ctx.viewport.height as u64
                    } else {
                        h
                    };
                    let fits = 1 <= width <= 16_384 && 1 <= height <= 16_384;
                    let large = scale matches Some(s) && 0x4100_0000 < s.bits < 0x7f80_0000;
                    &&& reply is Ok <==> fits && !large
                    &&& !fits ==> after == ctx && reply == Err::<JsonView, Seq<char>>(
                        "setDeviceMetricsOverride: "@ + decimal_text(width as nat) + "x"@
                            + decimal_text(height as nat)
                            + " outside the supported 1..=16384 range"@,
                    )
                    &&& fits && large ==> after == ctx && reply == Err::<JsonView, Seq<char>>(
                        "setDeviceMetricsOverride: deviceScaleFactor "@ + scale->0.text
                            + " exceeds 8"@,
                    )
                },
                (Some(JsonView::Number(JsonNumber::PosInt(_))), _) => {
                    &&& after == ctx
                    &&& reply == Err::<JsonView, Seq<char>>(
                        "setDeviceMetricsOverride: height required"@,
                    )
                },
                _ => after == ctx && reply == Err::<JsonView, Seq<char>>(
                    "setDeviceMetricsOverride: width required"@,
                ),
            }
        }),
{
}

/// Clearing the override gives 1280x720 at ratio 1 whatever was set before;
/// every other method is acknowledged and changes nothing.
pub proof fn law_cleared_override(
    ctx: CdpView,
    method: Seq<char>,
    params: JsonView,
    scale: Option<ScaleView>,
)
    requires
        method != "setDeviceMetricsOverride"@,
    ensures
        ({
            let (after, reply) = emulation::answer(ctx, method, params, scale);
            &&& reply == Ok::<JsonView, Seq<char>>(empty_object())
            &&& method != "clearDeviceMetricsOverride"@ ==> after == ctx
            &&& method == "clearDeviceMetricsOverride"@ ==> {
                &&& after.viewport.width == 1280 && after.viewport.height == 720
                &&& after.viewport.scale_bits == 0x3f80_0000
                &&& after.default_context == ctx.default_context
                &&& after.browser_contexts == ctx.browser_contexts
                &&& after.pages == ctx.pages && after.sessions == ctx.sessions
            }
        }),
{
}

proof fn lemma_cookie_methods()
    ensures
        "getCookies"@[0] == 'g',
        "setCookies"@[0] == 's',
        "deleteCookies"@[0] == 'd',
        "clearDataForOrigin"@[0] == 'c',
        "clearDataForStorageKey"@[0] == 'c',
        "clearDataForOrigin"@ != "clearDataForStorageKey"@,
{
    reveal_strlit("getCookies");
    reveal_strlit("setCookies");
    reveal_strlit("deleteCookies");
    reveal_strlit("clearDataForOrigin");
    reveal_strlit("clearDataForStorageKey");
    assert("clearDataForOrigin"@.len() == 18 && "clearDataForStorageKey"@.len() == 22);
}

/// Getting cookies lists those of the addressed context and changes nothing.
pub proof fn law_get_cookies_lists_the_jar(
    ctx: CdpView,
    params: JsonView,
    parsed: Seq<CookieView>,
    filter: Option<FilterView>,
    session: Option<Seq<char>>,
    at: ContextRef,
)
    requires
        cookie_context(ctx, params, session) == Ok::<ContextRef, Seq<char>>(at),
    ensures
        storage::answer(ctx, "getCookies"@, params, parsed, filter, session) == (
            ctx,
            Ok::<StorageReplyView, Seq<char>>(StorageReplyView::Cookies(ctx.context(at).cookies)),
        ),
{
}

/// Setting cookies puts the given ones into the jar of the addressed context
/// and deleting takes out what the request addresses; nothing else of that
/// context and no other context changes. A request that gives no list of
/// cookies, or addresses none, is acknowledged and changes nothing.
pub proof fn law_set_and_delete_cookies(
    ctx: CdpView,
    params: JsonView,
    parsed: Seq<CookieView>,
    filter: Option<FilterView>,
    session: Option<Seq<char>>,
    at: ContextRef,
    other: ContextRef,
)
    requires
        ctx.wf(),
        ctx.has(other),
        cookie_context(ctx, params, session) == Ok::<ContextRef, Seq<char>>(at),
    ensures
        ({
            let (set, reply) = storage::answer(
                ctx,
                "setCookies"@,
                params,
                parsed,
                filter,
                session,
            );
            let (deleted, done) = storage::answer(
                ctx,
                "deleteCookies"@,
                params,
                parsed,
                filter,
                session,
            );
            &&& reply == Ok::<StorageReplyView, Seq<char>>(StorageReplyView::Empty)
            &&& done == Ok::<StorageReplyView, Seq<char>>(StorageReplyView::Empty)
            &&& params.get_array("cookies"@) is Some ==> set.context(at) == (ContextView {
                cookies: cookies_put(ctx.context(at).cookies, parsed),
                ..ctx.context(at)
            })
            &&& params.get_array("cookies"@) is None ==> set == ctx
            &&& filter matches Some(f) ==> deleted.context(at) == (ContextView {
                cookies: cookies_without(ctx.context(at).cookies, f.name, f.domain, f.path),
                ..ctx.context(at)
            })
            &&& filter is None ==> deleted == ctx
            &&& other != at ==> set.context(other) == ctx.context(other) && deleted.context(other)
                == ctx.context(other)
            &&& set.pages == ctx.pages && set.sessions == ctx.sessions && set.viewport
                == ctx.viewport
            &&& deleted.pages == ctx.pages && deleted.sessions == ctx.sessions && deleted.viewport
                == ctx.viewport
        }),
{
    lemma_cookie_methods();
    lemma_cookie_context_exists(ctx, params, session);
}

/// Clearing data empties what its types list, of the origin that the request
/// names by `origin` or else by `storageKey`: both areas for `all`, which is
/// also meant where no types are given; `localStorage` for `local_storage`; the
/// cookies of the host for `all` and `cookies`. All else stays.
#[verifier::rlimit(30)]
pub proof fn law_clear_data(
    ctx: CdpView,
    method: Seq<char>,
    params: JsonView,
    parsed: Seq<CookieView>,
    filter: Option<FilterView>,
    session: Option<Seq<char>>,
    cookies_at: ContextRef,
    other_origin: Seq<char>,
    area: StorageArea,
)
    requires
        ctx.wf(),
        method == "clearDataForOrigin"@ || method == "clearDataForStorageKey"@,
        cookie_context(ctx, params, session) == Ok::<ContextRef, Seq<char>>(cookies_at),
    ensures
        ({
            let named = if params.get("origin"@) is Some {
                params.get("origin"@)
            } else {
                params.get("storageKey"@)
            };
            let raw = match named {
                Some(JsonView::Text(s)) => s,
                _ => ""@,
            };
            let types = match params.get("storageTypes"@) {
                Some(JsonView::Text(s)) => s,
                _ => "all"@,
            };
            let at = ctx.session_context(session);
            let jar = ctx.context(at).storage;
            let (after, reply) = storage::answer(ctx, method, params, parsed, filter, session);
            let now = after.context(at).storage;
            let local = types == "all"@ || lists_word(types, "local_storage"@);
            let cookies = types == "all"@ || lists_word(types, "cookies"@);
            &&& reply == Ok::<StorageReplyView, Seq<char>>(StorageReplyView::Empty)
            &&& url_origin(raw) is None ==> now == jar
            &&& url_origin(raw) matches Some(o) ==> {
                &&& types == "all"@ ==> now == jar.remove(o)
                &&& types != "all"@ && local ==> now == jar_with(
                    jar,
                    o,
                    StorageArea::Local,
                    Seq::empty(),
                )
                &&& !local ==> now == jar
                &&& local ==> jar_items(now, o, StorageArea::Local).len() == 0
                &&& !local ==> jar_items(now, o, StorageArea::Local) == jar_items(
                    jar,
                    o,
                    StorageArea::Local,
                )
                &&& types == "all"@ ==> jar_items(now, o, StorageArea::Session).len() == 0
                &&& types != "all"@ ==> jar_items(now, o, StorageArea::Session) == jar_items(
                    jar,
                    o,
                    StorageArea::Session,
                )
            }
            &&& url_origin(raw) != Some(other_origin) ==> jar_items(now, other_origin, area)
                == jar_items(jar, other_origin, area)
            &&& url_host(raw) matches Some(host) ==> (cookies ==> after.context(cookies_at).cookies
                == cookies_without_domain(ctx.context(cookies_at).cookies, host))
            &&& url_host(raw) is None || !cookies ==> after.context(cookies_at).cookies
                == ctx.context(cookies_at).cookies
        }),
{
    let at = ctx.session_context(session);
    lemma_clear_methods(ctx, method, params, parsed, filter, session);
    lemma_session_context(ctx, session);
    lemma_cookie_context_exists(ctx, params, session);
    lemma_clear_answer(ctx, params, session);
    lemma_storage_cleared(ctx, params, session, at);
    lemma_storage_cleared(ctx, params, session, cookies_at);
    match url_origin(storage::cleared_origin(params)) {
        Some(o) => {
            lemma_cleared_items(ctx, params, session, o, StorageArea::Local);
            lemma_cleared_items(ctx, params, session, o, StorageArea::Session);
        },
        None => {},
    }
    lemma_cleared_items(ctx, params, session, other_origin, area);
}

proof fn lemma_storage_cleared(
    ctx: CdpView,
    params: JsonView,
    session: Option<Seq<char>>,
    other: ContextRef,
)
    requires
        ctx.wf(),
        ctx.has(other),
    ensures
        ({
            let cleared = storage::storage_cleared(ctx, params, session);
            &&& cleared.has(other)
            &&& other != ctx.session_context(session) ==> cleared.context(other) == ctx.context(
                other,
            )
            &&& cleared.context(other) == (ContextView {
                storage: cleared.context(other).storage,
                ..ctx.context(other)
            })
            &&& cleared.pages == ctx.pages && cleared.sessions == ctx.sessions
            &&& cleared.viewport == ctx.viewport
            &&& cleared.browser_contexts.len() == ctx.browser_contexts.len()
        }),
{
    lemma_session_context(ctx, session);
}

proof fn lemma_clear_answer(ctx: CdpView, params: JsonView, session: Option<Seq<char>>)
    requires
        ctx.wf(),
    ensures
        ({
            let cleared = storage::storage_cleared(ctx, params, session);
            let (after, reply) = storage::clear_answer(ctx, params, session);
            let host = url_host(storage::cleared_origin(params));
            let cookies = storage::clears_cookies(storage::cleared_types(params));
            if host is Some && cookies {
                match cookie_context(ctx, params, session) {
                    Ok(r) => {
                        &&& ctx.has(r) && cleared.has(r)
                        &&& after == cleared.with_cookies(
                            r,
                            cookies_without_domain(ctx.context(r).cookies, host->0),
                        )
                        &&& reply == Ok::<StorageReplyView, Seq<char>>(StorageReplyView::Empty)
                    },
                    Err(e) => after == cleared && reply == Err::<StorageReplyView, Seq<char>>(e),
                }
            } else {
                after == cleared && reply == Ok::<StorageReplyView, Seq<char>>(
                    StorageReplyView::Empty,
                )
            }
        }),
{
    lemma_same_cookie_context(ctx, params, session);
    lemma_cookie_context_exists(ctx, params, session);
    let cleared = storage::storage_cleared(ctx, params, session);
    match cookie_context(ctx, params, session) {
        Ok(r) => {
            assert(cleared.context(r).cookies == ctx.context(r).cookies);
            assert(cleared.has(r) == ctx.has(r));
        },
        Err(_) => {},
    }
}

proof fn lemma_cleared_items(
    ctx: CdpView,
    params: JsonView,
    session: Option<Seq<char>>,
    origin: Seq<char>,
    area: StorageArea,
)
    requires
        ctx.wf(),
    ensures
        ({
            let at = ctx.session_context(session);
            let jar = ctx.context(at).storage;
            let now = storage::storage_cleared(ctx, params, session).context(at).storage;
            let types = storage::cleared_types(params);
            let gone = url_origin(storage::cleared_origin(params)) == Some(origin) && (types
                == "all"@ || (area is Local && lists_word(types, "local_storage"@)));
            &&& match url_origin(storage::cleared_origin(params)) {
                Some(o) => now == (if types == "all"@ {
                    jar.remove(o)
                } else if lists_word(types, "local_storage"@) {
                    jar_with(jar, o, StorageArea::Local, Seq::empty())
                } else {
                    jar
                }),
                None => now == jar,
            }
            &&& gone ==> jar_items(now, origin, area).len() == 0
            &&& !gone ==> jar_items(now, origin, area) == jar_items(jar, origin, area)
        }),
{
    lemma_session_context(ctx, session);
}

proof fn lemma_clear_methods(
    ctx: CdpView,
    method: Seq<char>,
    params: JsonView,
    parsed: Seq<CookieView>,
    filter: Option<FilterView>,
    session: Option<Seq<char>>,
)
    requires
        method == "clearDataForOrigin"@ || method == "clearDataForStorageKey"@,
    ensures
        storage::answer(ctx, method, params, parsed, filter, session) == storage::clear_answer(
            ctx,
            params,
            session,
        ),
{
    lemma_cookie_methods();
}

/// Clearing data touches the storage of the session's context and the cookies
/// of the addressed one, and nothing else: no other context, no setting, no
/// page.
#[verifier::rlimit(30)]
pub proof fn law_clear_data_is_contained(
    ctx: CdpView,
    method: Seq<char>,
    params: JsonView,
    parsed: Seq<CookieView>,
    filter: Option<FilterView>,
    session: Option<Seq<char>>,
    other: ContextRef,
)
    requires
        ctx.wf(),
        ctx.has(other),
        method == "clearDataForOrigin"@ || method == "clearDataForStorageKey"@,
    ensures
        ({
            let after = storage::answer(ctx, method, params, parsed, filter, session).0;
            let at = ctx.session_context(session);
            let cookies_at = cookie_context(ctx, params, session);
            &&& other != at ==> after.context(other).storage == ctx.context(other).storage
            &&& cookies_at != Ok::<ContextRef, Seq<char>>(other) ==> after.context(other).cookies
                == ctx.context(other).cookies
            &&& after.context(other) == (ContextView {
                storage: after.context(other).storage,
                cookies: after.context(other).cookies,
                ..ctx.context(other)
            })
            &&& after.pages == ctx.pages && after.sessions == ctx.sessions
            &&& after.viewport == ctx.viewport
            &&& after.browser_contexts.len() == ctx.browser_contexts.len()
        }),
{
    lemma_clear_methods(ctx, method, params, parsed, filter, session);
    lemma_storage_cleared(ctx, params, session, other);
    lemma_clear_answer(ctx, params, session);
}

/// Every other method of the domain is acknowledged and changes nothing.
pub proof fn law_other_cookie_requests(
    ctx: CdpView,
    method: Seq<char>,
    params: JsonView,
    parsed: Seq<CookieView>,
    filter: Option<FilterView>,
    session: Option<Seq<char>>,
)
    requires
        method != "getCookies"@,
        method != "setCookies"@,
        method != "deleteCookies"@,
        method != "clearDataForOrigin"@,
        method != "clearDataForStorageKey"@,
    ensures
        storage::answer(ctx, method, params, parsed, filter, session) == (
            ctx,
            Ok::<StorageReplyView, Seq<char>>(StorageReplyView::Empty),
        ),
{
}

/// The counters count one document for each page and the nodes of all
/// documents, up to the largest `i64`; no event listener is counted.
pub proof fn law_counters(pages: Seq<PageView>, page: PageView)
    ensures
        ({
            let j = counters_json(pages);
            &&& pages.len() <= i64::MAX ==> j.get("documents"@) == Some(
                JsonView::Number(JsonNumber::PosInt(pages.len() as u64)),
            )
            &&& total_nodes(pages) <= i64::MAX ==> j.get("nodes"@) == Some(
                JsonView::Number(JsonNumber::PosInt(total_nodes(pages) as u64)),
            )
            &&& j.get("jsEventListeners"@) == Some(JsonView::Number(JsonNumber::PosInt(0)))
            &&& j is Object && j->Object_0.len() == 3
        }),
        total_nodes(Seq::empty()) == 0,
        page.dom_nodes matches Some(n) ==> total_nodes(pages.push(page)) == total_nodes(pages) + n,
        page.dom_nodes is None ==> total_nodes(pages.push(page)) == total_nodes(pages),
        forall|n: nat| n <= i64::MAX ==> #[trigger] count_shown(n) == n,
        forall|n: nat| n > i64::MAX ==> #[trigger] count_shown(n) == i64::MAX,
{
    reveal_strlit("documents");
    reveal_strlit("nodes");
    reveal_strlit("jsEventListeners");
    assert("documents"@.len() == 9 && "nodes"@.len() == 5 && "jsEventListeners"@.len() == 16);
    let m = counters_json(pages)->Object_0;
    lemma_member_at(m, "documents"@, 0);
    lemma_member_at(m, "nodes"@, 1);
    lemma_member_at(m, "jsEventListeners"@, 2);
    assert(pages.push(page).drop_last() =~= pages);
}

/// Both counter methods answer with the counters; the sampling profiles are
/// empty ones; setters are acknowledged; every other method is refused by its
/// name.
pub proof fn law_memory_methods(ctx: CdpView, method: Seq<char>)
    ensures
        ({
            let reply = memory::answer(ctx, method);
            let counts = method == "getDOMCounters"@ || method
                == "getDOMCountersForLeakDetection"@;
            let profile = method == "getAllTimeSamplingProfile"@ || method
                == "getBrowserSamplingProfile"@ || method == "getSamplingProfile"@;
            let setter = method == "setPressureNotificationsSuppressed"@ || method
                == "simulatePressureNotification"@ || method == "prepareForLeakDetection"@
                || method == "forciblyPurgeJavaScriptMemory"@ || method == "startSampling"@
                || method == "stopSampling"@ || method
                == "setPressureNotificationsSuppressedForTesting"@;
            &&& counts ==> reply == Ok::<JsonView, Seq<char>>(counters_json(ctx.pages))
            &&& profile && !counts ==> {
                &&& reply is Ok && reply->Ok_0.get("profile"@) is Some
                &&& reply->Ok_0->Object_0.len() == 1
                &&& reply->Ok_0.get("profile"@)->0->Object_0.len() == 2
                &&& reply->Ok_0.get("profile"@)->0.get("samples"@) == Some(
                    JsonView::Array(Seq::empty()),
                )
                &&& reply->Ok_0.get("profile"@)->0.get("modules"@) == Some(
                    JsonView::Array(Seq::empty()),
                )
            }
            &&& setter && !profile && !counts ==> reply == Ok::<JsonView, Seq<char>>(empty_object())
            &&& !setter && !profile && !counts ==> reply == Err::<JsonView, Seq<char>>(
                "Unknown Memory method: "@ + method,
            )
        }),
{
    reveal_strlit("samples");
    reveal_strlit("modules");
    assert("samples"@[0] == 's' && "modules"@[0] == 'm');
    let p = memory::empty_profile()->Object_0;
    lemma_member_at(p, "profile"@, 0);
    let q = p[0].1->Object_0;
    lemma_member_at(q, "samples"@, 0);
    lemma_member_at(q, "modules"@, 1);
}

/// A clear request for the cookies of a context that there is not clears the
/// storage and is refused; without cookies to clear, the context does not
/// matter.
#[verifier::rlimit(30)]
pub proof fn law_clear_data_of_an_unknown_context(
    ctx: CdpView,
    method: Seq<char>,
    params: JsonView,
    parsed: Seq<CookieView>,
    filter: Option<FilterView>,
    session: Option<Seq<char>>,
    id: Seq<char>,
)
    requires
        ctx.wf(),
        method == "clearDataForOrigin"@ || method == "clearDataForStorageKey"@,
        params.get("browserContextId"@) == Some(JsonView::Text(id)),
        ctx.named_context(id) is None,
    ensures
        ({
            let named = if params.get("origin"@) is Some {
                params.get("origin"@)
            } else {
                params.get("storageKey"@)
            };
            let raw = match named {
                Some(JsonView::Text(s)) => s,
                _ => ""@,
            };
            let types = match params.get("storageTypes"@) {
                Some(JsonView::Text(s)) => s,
                _ => "all"@,
            };
            let at = ctx.session_context(session);
            let (after, reply) = storage::answer(ctx, method, params, parsed, filter, session);
            let now = after.context(at).storage;
            let cookies = types == "all"@ || lists_word(types, "cookies"@);
            &&& cookies && url_host(raw) is Some ==> reply == Err::<StorageReplyView, Seq<char>>(
                "Browser context not found: "@ + id,
            )
            &&& !cookies || url_host(raw) is None ==> reply == Ok::<StorageReplyView, Seq<char>>(
                StorageReplyView::Empty,
            )
            &&& url_origin(raw) matches Some(o) ==> (types == "all"@ ==> jar_items(
                now,
                o,
                StorageArea::Local,
            ).len() == 0 && jar_items(now, o, StorageArea::Session).len() == 0)
            &&& url_origin(raw) matches Some(o) ==> (lists_word(types, "local_storage"@)
                ==> jar_items(now, o, StorageArea::Local).len() == 0)
            &&& after.context(at).cookies == ctx.context(at).cookies
        }),
{
    let at = ctx.session_context(session);
    lemma_clear_methods(ctx, method, params, parsed, filter, session);
    lemma_session_context(ctx, session);
    lemma_clear_answer(ctx, params, session);
    lemma_storage_cleared(ctx, params, session, at);
    match url_origin(storage::cleared_origin(params)) {
        Some(o) => {
            lemma_cleared_items(ctx, params, session, o, StorageArea::Local);
            lemma_cleared_items(ctx, params, session, o, StorageArea::Session);
        },
        None => {},
    }
}

/// What a client sets is what it gets: after a request that sets cookies, the
/// same context lists each of them that no later one of the request replaces.
pub proof fn law_cookies_that_are_set_are_read(
    ctx: CdpView,
    params: JsonView,
    parsed: Seq<CookieView>,
    session: Option<Seq<char>>,
    i: int,
)
    requires
        ctx.wf(),
        params.get_array("cookies"@) is Some,
        cookie_context(ctx, params, session) is Ok,
        0 <= i < parsed.len(),
        forall|j: int|
            i < j < parsed.len() ==> (#[trigger] parsed[j]).name != parsed[i].name
                || parsed[j].domain != parsed[i].domain || parsed[j].path != parsed[i].path,
    ensures
        ({
            let after = storage::answer(ctx, "setCookies"@, params, parsed, None, session).0;
            let reply = storage::answer(after, "getCookies"@, params, parsed, None, session).1;
            reply matches Ok(StorageReplyView::Cookies(list)) && list.contains(parsed[i])
        }),
{
    let at = cookie_context(ctx, params, session)->Ok_0;
    law_wire_set_then_read_cookies(ctx, params, parsed, session);
    law_cookies_that_are_set_are_there(ctx.context(at).cookies, parsed, i, parsed[i]);
}

/// What a client deletes it gets no more, and everything else it still gets:
/// after a delete request the same context lists just the cookies that it
/// listed before and that do not have the name and the domain, and the path if
/// one is given.
pub proof fn law_cookies_that_are_deleted_are_not_read(
    ctx: CdpView,
    params: JsonView,
    filter: FilterView,
    session: Option<Seq<char>>,
    c: CookieView,
)
    requires
        ctx.wf(),
        cookie_context(ctx, params, session) is Ok,
    ensures
        ({
            let at = cookie_context(ctx, params, session)->Ok_0;
            let after = storage::answer(
                ctx,
                "deleteCookies"@,
                params,
                Seq::empty(),
                Some(filter),
                session,
            ).0;
            let reply = storage::answer(
                after,
                "getCookies"@,
                params,
                Seq::empty(),
                None,
                session,
            ).1;
            reply matches Ok(StorageReplyView::Cookies(list)) && (list.contains(c)
                <==> ctx.context(at).cookies.contains(c) && !(c.name == filter.name && c.domain
                == filter.domain && (filter.path is None || filter.path == Some(c.path))))
        }),
{
    lemma_cookie_methods();
    lemma_cookie_context_exists(ctx, params, session);
    let at = cookie_context(ctx, params, session)->Ok_0;
    let after = storage::answer(
        ctx,
        "deleteCookies"@,
        params,
        Seq::empty(),
        Some(filter),
        session,
    ).0;
    law_deleted_cookies_are_gone(
        ctx.context(at).cookies,
        filter.name,
        filter.domain,
        filter.path,
        c,
    );
    assert(after.pages == ctx.pages && after.sessions == ctx.sessions);
    match params.get_text("browserContextId"@) {
        Some(id) => {
            lemma_contexts_same_ids(after.browser_contexts, ctx.browser_contexts, id, 0);
        },
        None => {},
    }
    assert(cookie_context(after, params, session) == cookie_context(ctx, params, session));
}

/// A request that names a context that there is not is refused and changes
/// nothing, unless it has nothing to do there: a set request without a list and
/// a delete request that addresses no cookie are acknowledged.
pub proof fn law_requests_to_unknown_contexts(
    ctx: CdpView,
    params: JsonView,
    parsed: Seq<CookieView>,
    filter: Option<FilterView>,
    session: Option<Seq<char>>,
    id: Seq<char>,
)
    requires
        params.get("browserContextId"@) == Some(JsonView::Text(id)),
        ctx.named_context(id) is None,
    ensures
        ({
            let refused = (
                ctx,
                Err::<StorageReplyView, Seq<char>>("Browser context not found: "@ + id),
            );
            let done = (ctx, Ok::<StorageReplyView, Seq<char>>(StorageReplyView::Empty));
            &&& storage::answer(ctx, "getCookies"@, params, parsed, filter, session) == refused
            &&& storage::answer(ctx, "setCookies"@, params, parsed, filter, session) == (
            if params.get_array("cookies"@) is Some {
                refused
            } else {
                done
            })
            &&& storage::answer(ctx, "deleteCookies"@, params, parsed, filter, session) == (
            if filter is Some {
                refused
            } else {
                done
            })
        }),
{
    lemma_cookie_methods();
}

} // verus!
