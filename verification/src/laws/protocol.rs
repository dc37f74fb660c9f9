//! Laws of the protocol domains.
use crate::cdp::{default_viewport, lemma_session_context, CdpView, ContextRef, PageView};
use crate::context::ContextView;
use crate::cookies::{cookies_put, CookieView};
use crate::domains::domstorage;
use crate::domains::domstorage::{addressed_area, entries_json};
use crate::domains::emulation;
use crate::domains::emulation::{
    overridden, viewport_ok, wanted_dim, wanted_scale, ScaleView, MAX_DIM, MAX_SCALE,
};
use crate::domains::memory::{count_shown, counters_json, total_nodes};
use crate::domains::storage;
use crate::domains::storage::{
    cleared_origin, cleared_types, clears_cookies, cookie_context, FilterView, StorageReplyView,
};
use crate::items::{item_value, Items};
use crate::json::{empty_object, int_number, JsonView};
use crate::laws::session::law_deleted_cookies_are_gone;
use crate::laws::storage::law_set_then_get;
use crate::origin::{url_host, url_origin};
use crate::storage::{jar_items, StorageArea};
use crate::text::lists_word;
use vstd::prelude::*;

verus! {

/// A refused override is not applied in part: nothing changes.
pub proof fn law_refused_override_changes_nothing(
    ctx: CdpView,
    method: Seq<char>,
    params: JsonView,
    scale: Option<ScaleView>,
)
    requires
        emulation::answer(ctx, method, params, scale).1 is Err,
    ensures
        emulation::answer(ctx, method, params, scale).0 == ctx,
{
}

/// No request takes the viewport out of bounds: an accepted override is within
/// them whatever it was before, and the default is within them too.
pub proof fn law_viewport_stays_in_bounds(
    ctx: CdpView,
    method: Seq<char>,
    params: JsonView,
    scale: Option<ScaleView>,
)
    ensures
        viewport_ok(default_viewport()),
        overridden(ctx.viewport, params, scale) matches Ok(v) ==> viewport_ok(v),
        viewport_ok(ctx.viewport) ==> viewport_ok(
            emulation::answer(ctx, method, params, scale).0.viewport,
        ),
{
}

/// An accepted override is what later renders see; nothing but the viewport
/// changes.
pub proof fn law_override_takes_effect(
    ctx: CdpView,
    params: JsonView,
    scale: Option<ScaleView>,
    width: u64,
    height: u64,
)
    requires
        params.get("width"@) is Some && params.get("width"@)->0.as_u64() == Some(width),
        params.get("height"@) is Some && params.get("height"@)->0.as_u64() == Some(height),
        1 <= wanted_dim(width, ctx.viewport.width) <= MAX_DIM,
        1 <= wanted_dim(height, ctx.viewport.height) <= MAX_DIM,
        wanted_scale(scale) <= MAX_SCALE,
    ensures
        ({
            let (after, reply) = emulation::answer(
                ctx,
                "setDeviceMetricsOverride"@,
                params,
                scale,
            );
            &&& reply == Ok::<JsonView, Seq<char>>(empty_object())
            &&& 1 <= width <= MAX_DIM ==> after.viewport.width == width
            &&& width == 0 ==> after.viewport.width == ctx.viewport.width
            &&& 1 <= height <= MAX_DIM ==> after.viewport.height == height
            &&& height == 0 ==> after.viewport.height == ctx.viewport.height
            &&& after.viewport.scale_bits == wanted_scale(scale)
            &&& after == (CdpView { viewport: after.viewport, ..ctx })
        }),
{
}

/// A dimension beyond the bounds is refused, however large it is, and nothing
/// changes.
pub proof fn law_absurd_dimension_is_refused(
    ctx: CdpView,
    params: JsonView,
    scale: Option<ScaleView>,
    width: u64,
    height: u64,
)
    requires
        params.get("width"@) is Some && params.get("width"@)->0.as_u64() == Some(width),
        params.get("height"@) is Some && params.get("height"@)->0.as_u64() == Some(height),
        width > MAX_DIM || height > MAX_DIM,
    ensures
        emulation::answer(ctx, "setDeviceMetricsOverride"@, params, scale).0 == ctx,
        emulation::answer(ctx, "setDeviceMetricsOverride"@, params, scale).1 is Err,
{
}

/// Clearing the override restores the default, and every other method of the
/// domain is acknowledged and changes nothing.
pub proof fn law_other_emulation_methods(
    ctx: CdpView,
    method: Seq<char>,
    params: JsonView,
    scale: Option<ScaleView>,
)
    requires
        method != "setDeviceMetricsOverride"@,
    ensures
        emulation::answer(ctx, method, params, scale).1 == Ok::<JsonView, Seq<char>>(
            empty_object(),
        ),
        emulation::answer(ctx, method, params, scale).0 == (if method
            == "clearDeviceMetricsOverride"@ {
            CdpView { viewport: default_viewport(), ..ctx }
        } else {
            ctx
        }),
{
}

/// Storage requests touch the storage of the session's context and nothing
/// else: no other context, no cookie, no page.
pub proof fn law_storage_requests_are_contained(
    ctx: CdpView,
    method: Seq<char>,
    params: JsonView,
    session: Option<Seq<char>>,
    other: ContextRef,
)
    requires
        ctx.wf(),
        ctx.has(other),
    ensures
        ({
            let at = ctx.session_context(session);
            let after = domstorage::answer(ctx, method, params, session).0;
            &&& other != at ==> after.context(other) == ctx.context(other)
            &&& after.context(at) == (ContextView {
                storage: after.context(at).storage,
                ..ctx.context(at)
            })
            &&& after.pages == ctx.pages && after.sessions == ctx.sessions
            &&& after.viewport == ctx.viewport
            &&& after.session_context(session) == at
        }),
{
    lemma_session_context(ctx, session);
}

/// A refused storage request changes no item anywhere.
pub proof fn law_refused_storage_request_changes_nothing(
    ctx: CdpView,
    method: Seq<char>,
    params: JsonView,
    session: Option<Seq<char>>,
    at: ContextRef,
    origin: Seq<char>,
    area: StorageArea,
)
    requires
        ctx.wf(),
        ctx.has(at),
        domstorage::answer(ctx, method, params, session).1 is Err,
    ensures
        jar_items(
            domstorage::answer(ctx, method, params, session).0.context(at).storage,
            origin,
            area,
        ) == jar_items(ctx.context(at).storage, origin, area),
{
    lemma_session_context(ctx, session);
    law_storage_requests_are_contained(ctx, method, params, session, at);
}

/// What a client sets over the wire is what it reads: after an accepted set, a
/// read of the same area, however it is addressed, lists the value under the
/// key, and a read of any other area gives what it gave before.
pub proof fn law_wire_set_then_read(
    ctx: CdpView,
    params: JsonView,
    read_params: JsonView,
    other_params: JsonView,
    session: Option<Seq<char>>,
)
    requires
        ctx.wf(),
        addressed_area(read_params) == addressed_area(params),
        addressed_area(other_params) != addressed_area(params),
        domstorage::answer(ctx, "setDOMStorageItem"@, params, session).1 is Ok,
    ensures
        ({
            let after = domstorage::answer(ctx, "setDOMStorageItem"@, params, session).0;
            let (same, reply) = domstorage::answer(
                after,
                "getDOMStorageItems"@,
                read_params,
                session,
            );
            &&& same == after
            &&& exists|items: Items|
                reply == Ok::<JsonView, Seq<char>>(#[trigger] entries_json(items)) && item_value(
                    items,
                    params.get_text("key"@)->0,
                ) == params.get_text("value"@)
            &&& domstorage::answer(after, "getDOMStorageItems"@, other_params, session).1
                == domstorage::answer(ctx, "getDOMStorageItems"@, other_params, session).1
        }),
{
    lemma_methods_differ();
    lemma_session_context(ctx, session);
    let at = ctx.session_context(session);
    let (origin, area) = addressed_area(params)->Ok_0;
    let key = params.get_text("key"@)->0;
    let value = params.get_text("value"@)->0;
    let jar = ctx.context(at).storage;
    law_set_then_get(jar, origin, area, key, value);
    law_storage_requests_are_contained(ctx, "setDOMStorageItem"@, params, session, at);
    let after = domstorage::answer(ctx, "setDOMStorageItem"@, params, session).0;
    let items = jar_items(after.context(at).storage, origin, area);
    assert(domstorage::answer(after, "getDOMStorageItems"@, read_params, session).1 == Ok::<
        JsonView,
        Seq<char>,
    >(entries_json(items)));
}

proof fn lemma_methods_differ()
    ensures
        "setDOMStorageItem"@ != "getDOMStorageItems"@,
        "setDOMStorageItem"@ != "enable"@,
        "setDOMStorageItem"@ != "disable"@,
        "getDOMStorageItems"@ != "enable"@,
        "getDOMStorageItems"@ != "disable"@,
{
    reveal_strlit("setDOMStorageItem");
    reveal_strlit("getDOMStorageItems");
    reveal_strlit("enable");
    reveal_strlit("disable");
    assert("setDOMStorageItem"@.len() == 17 && "getDOMStorageItems"@.len() == 18);
    assert("enable"@.len() == 6 && "disable"@.len() == 7);
}

/// Clearing all data of an origin leaves it without items in both areas and its
/// host without cookies; other origins keep their items and other domains
/// their cookies.
pub proof fn law_clear_data_for_origin(
    ctx: CdpView,
    params: JsonView,
    session: Option<Seq<char>>,
    other: Seq<char>,
    area: StorageArea,
    c: CookieView,
)
    requires
        ctx.wf(),
        cleared_types(params) == "all"@,
        url_origin(cleared_origin(params)) is Some,
        storage::clear_answer(ctx, params, session).1 is Ok,
    ensures
        ({
            let origin = url_origin(cleared_origin(params))->0;
            let host = url_host(cleared_origin(params))->0;
            let at = ctx.session_context(session);
            let jar = ctx.context(at).storage;
            let after = storage::clear_answer(ctx, params, session).0;
            let cookies_at = cookie_context(ctx, params, session)->Ok_0;
            &&& jar_items(after.context(at).storage, origin, area).len() == 0
            &&& other != origin ==> jar_items(after.context(at).storage, other, area) == jar_items(
                jar,
                other,
                area,
            )
            &&& after.context(cookies_at).cookies.contains(c) <==> ctx.context(
                cookies_at,
            ).cookies.contains(c) && c.domain != host
        }),
{
    let raw = cleared_origin(params);
    let cleared = storage::storage_cleared(ctx, params, session);
    lemma_session_context(ctx, session);
    lemma_same_cookie_context(ctx, params, session);
    assert(url_host(raw) is Some);
    assert(clears_cookies(cleared_types(params)));
    let cookies_at = cookie_context(cleared, params, session)->Ok_0;
    assert(cookie_context(cleared, params, session) is Ok);
    lemma_cookie_context_exists(ctx, params, session);
    law_deleted_cookies_are_gone(
        ctx.context(cookies_at).cookies,
        Seq::empty(),
        url_host(raw)->0,
        None,
        c,
    );
}

pub(crate) proof fn lemma_contexts_same_ids(
    a: Seq<ContextView>,
    b: Seq<ContextView>,
    id: Seq<char>,
    k: int,
)
    requires
        a.len() == b.len(),
        forall|i: int| 0 <= i < a.len() ==> (#[trigger] a[i]).id == (#[trigger] b[i]).id,
    ensures
        crate::cdp::context_with_id(a, id, k) == crate::cdp::context_with_id(b, id, k),
    decreases a.len() - k,
{
    if 0 <= k < a.len() {
        assert(a[k].id == b[k].id);
        lemma_contexts_same_ids(a, b, id, k + 1);
    }
}

pub(crate) proof fn lemma_same_cookie_context(
    ctx: CdpView,
    params: JsonView,
    session: Option<Seq<char>>,
)
    requires
        ctx.wf(),
    ensures
        ({
            let cleared = storage::storage_cleared(ctx, params, session);
            &&& cookie_context(cleared, params, session) == cookie_context(ctx, params, session)
            &&& forall|r: ContextRef|
                ctx.has(r) ==> (#[trigger] cleared.context(r)).cookies == ctx.context(r).cookies
            &&& forall|r: ContextRef| #[trigger] cleared.has(r) == ctx.has(r)
        }),
{
    let cleared = storage::storage_cleared(ctx, params, session);
    lemma_session_context(ctx, session);
    assert(cleared.pages == ctx.pages && cleared.sessions == ctx.sessions);
    match params.get_text("browserContextId"@) {
        Some(id) => {
            lemma_contexts_same_ids(cleared.browser_contexts, ctx.browser_contexts, id, 0);
        },
        None => {},
    }
}

proof fn lemma_context_with_id(contexts: Seq<ContextView>, id: Seq<char>, k: int)
    requires
        0 <= k,
    ensures
        crate::cdp::context_with_id(contexts, id, k) matches Some(i) ==> k <= i < contexts.len(),
    decreases contexts.len() - k,
{
    if k < contexts.len() {
        lemma_context_with_id(contexts, id, k + 1);
    }
}

pub(crate) proof fn lemma_cookie_context_exists(
    ctx: CdpView,
    params: JsonView,
    session: Option<Seq<char>>,
)
    requires
        ctx.wf(),
    ensures
        cookie_context(ctx, params, session) matches Ok(r) ==> ctx.has(r),
{
    lemma_session_context(ctx, session);
    match params.get_text("browserContextId"@) {
        Some(id) => {
            lemma_context_with_id(ctx.browser_contexts, id, 0);
        },
        None => {},
    }
}

/// A clear request does what its types list: without `all`, `sessionStorage`
/// stays; without `local_storage`, no item goes; without `cookies`, no cookie
/// goes.
pub proof fn law_clear_data_honours_types(
    ctx: CdpView,
    params: JsonView,
    session: Option<Seq<char>>,
    at: ContextRef,
    origin: Seq<char>,
)
    requires
        ctx.wf(),
        ctx.has(at),
        cleared_types(params) != "all"@,
    ensures
        ({
            let types = cleared_types(params);
            let before = ctx.context(at);
            let after = storage::clear_answer(ctx, params, session).0.context(at);
            &&& jar_items(after.storage, origin, StorageArea::Session) == jar_items(
                before.storage,
                origin,
                StorageArea::Session,
            )
            &&& !lists_word(types, "local_storage"@) ==> after.storage == before.storage
            &&& !lists_word(types, "cookies"@) ==> after.cookies == before.cookies
        }),
{
    lemma_session_context(ctx, session);
    lemma_same_cookie_context(ctx, params, session);
    lemma_cookie_context_exists(ctx, params, session);
    let cleared = storage::storage_cleared(ctx, params, session);
    assert(cleared.context(at).cookies == ctx.context(at).cookies);
}

/// Cookies that a client sets are those that it reads, put into what was there.
pub proof fn law_wire_set_then_read_cookies(
    ctx: CdpView,
    params: JsonView,
    parsed: Seq<CookieView>,
    session: Option<Seq<char>>,
)
    requires
        ctx.wf(),
        params.get_array("cookies"@) is Some,
        cookie_context(ctx, params, session) is Ok,
    ensures
        ({
            let at = cookie_context(ctx, params, session)->Ok_0;
            let (after, reply) = storage::answer(
                ctx,
                "setCookies"@,
                params,
                parsed,
                None,
                session,
            );
            &&& reply == Ok::<StorageReplyView, Seq<char>>(StorageReplyView::Empty)
            &&& storage::answer(after, "getCookies"@, params, parsed, None, session).1 == Ok::<
                StorageReplyView,
                Seq<char>,
            >(StorageReplyView::Cookies(cookies_put(ctx.context(at).cookies, parsed)))
        }),
{
    reveal_strlit("setCookies");
    reveal_strlit("getCookies");
    assert("setCookies"@[0] == 's' && "getCookies"@[0] == 'g');
    lemma_cookie_context_exists(ctx, params, session);
    let at = cookie_context(ctx, params, session)->Ok_0;
    let after = storage::answer(ctx, "setCookies"@, params, parsed, None, session).0;
    assert(after.pages == ctx.pages && after.sessions == ctx.sessions);
    match params.get_text("browserContextId"@) {
        Some(id) => {
            lemma_contexts_same_ids(after.browser_contexts, ctx.browser_contexts, id, 0);
        },
        None => {},
    }
    assert(cookie_context(after, params, session) == cookie_context(ctx, params, session));
}

/// A request for the cookies of a context that there is not is refused and
/// changes nothing.
pub proof fn law_unknown_context_is_refused(
    ctx: CdpView,
    params: JsonView,
    parsed: Seq<CookieView>,
    filter: FilterView,
    session: Option<Seq<char>>,
    id: Seq<char>,
)
    requires
        params.get_text("browserContextId"@) == Some(id),
        ctx.named_context(id) is None,
    ensures
        ({
            let refusal = (
                ctx,
                Err::<StorageReplyView, Seq<char>>("Browser context not found: "@ + id),
            );
            &&& storage::answer(ctx, "getCookies"@, params, parsed, Some(filter), session)
                == refusal
            &&& params.get_array("cookies"@) is Some ==> storage::answer(
                ctx,
                "setCookies"@,
                params,
                parsed,
                Some(filter),
                session,
            ) == refusal
            &&& storage::answer(ctx, "deleteCookies"@, params, parsed, Some(filter), session)
                == refusal
        }),
{
    reveal_strlit("setCookies");
    reveal_strlit("getCookies");
    reveal_strlit("deleteCookies");
    assert("setCookies"@[0] == 's' && "getCookies"@[0] == 'g' && "deleteCookies"@[0] == 'd');
}

/// The counters follow the pages: another page is another document, and its
/// nodes are counted with the rest.
pub proof fn law_counters_follow_pages(pages: Seq<PageView>, page: PageView)
    ensures
        counters_json(pages.push(page)).get("documents"@) == Some(
            JsonView::Number(int_number(count_shown(pages.len() + 1))),
        ),
        counters_json(pages.push(page)).get("nodes"@) == Some(
            JsonView::Number(
                int_number(
                    count_shown(
                        total_nodes(pages) + match page.dom_nodes {
                            Some(n) => n as nat,
                            None => 0,
                        },
                    ),
                ),
            ),
        ),
        counters_json(pages).get("jsEventListeners"@) == Some(JsonView::Number(int_number(0))),
{
    reveal_strlit("documents");
    reveal_strlit("nodes");
    reveal_strlit("jsEventListeners");
    assert("documents"@.len() == 9 && "nodes"@.len() == 5 && "jsEventListeners"@.len() == 16);
    assert(pages.push(page).drop_last() =~= pages);
    let m = counters_json(pages.push(page))->Object_0;
    let n = counters_json(pages)->Object_0;
    reveal_with_fuel(crate::json::member, 4);
    assert(m.drop_first()[0] == m[1]);
    assert(n.drop_first()[0] == n[1]);
    assert(n.drop_first().drop_first()[0] == n[2]);
}

} // verus!
