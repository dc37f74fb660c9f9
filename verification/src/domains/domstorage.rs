//! The `DOMStorage` domain: `localStorage` and `sessionStorage` over the wire.
//!
//! These methods address the jar directly, so a client can seed a login before
//! the first navigation and without injecting script into a page. The origin is
//! the client's to name here; page script never reaches this path.
use crate::cdp::{CdpContext, CdpView, ContextRef};
use crate::domains::{joined, reply_view, ReplyView};
use crate::items::{items_remove, items_view, set_fits, Items};
use crate::json::{array_view, empty_object, members_view, Json, JsonView};
use crate::origin::{opt_text, origin_of, url_origin};
use crate::storage::{jar_items, jar_set, jar_with, StorageArea};
use crate::text::text_eq;
use vstd::prelude::*;

verus! {

/// The origin and area that a request's `storageId` addresses, or the error it
/// is answered with. `isLocalStorage` is true unless said otherwise.
pub open spec fn addressed_area(params: JsonView) -> Result<(Seq<char>, StorageArea), Seq<char>> {
    match params.get("storageId"@) {
        None => Err("Missing storageId"@),
        Some(id) => match id.get_either("securityOrigin"@, "storageKey"@) {
            None => Err("storageId needs securityOrigin or storageKey"@),
            Some(v) => match v.as_text() {
                None => Err("storageId needs securityOrigin or storageKey"@),
                Some(raw) => match url_origin(raw) {
                    None => Err("Opaque or unsupported origin: "@ + raw),
                    Some(origin) => Ok(
                        (
                            origin,
                            if id.get_bool("isLocalStorage"@) == Some(false) {
                                StorageArea::Session
                            } else {
                                StorageArea::Local
                            },
                        ),
                    ),
                },
            },
        },
    }
}

/// The entries of an area: pairs of key and value, in insertion order.
pub open spec fn entries_json(items: Items) -> JsonView {
    JsonView::Object(
        seq![
            (
                "entries"@,
                JsonView::Array(
                    items.map_values(
                        |i: (Seq<char>, Seq<char>)|
                            JsonView::Array(seq![JsonView::Text(i.0), JsonView::Text(i.1)]),
                    ),
                ),
            ),
        ],
    )
}

/// The state after a request and its answer, given the area it addresses.
pub open spec fn answer_in_area(
    ctx: CdpView,
    at: ContextRef,
    method: Seq<char>,
    params: JsonView,
    origin: Seq<char>,
    area: StorageArea,
) -> (CdpView, ReplyView) {
    let jar = ctx.context(at).storage;
    let items = jar_items(jar, origin, area);
    if method == "getDOMStorageItems"@ {
        (ctx, Ok(entries_json(items)))
    } else if method == "setDOMStorageItem"@ {
        match (params.get_text("key"@), params.get_text("value"@)) {
            (None, _) => (ctx, Err("Missing key"@)),
            (_, None) => (ctx, Err("Missing value"@)),
            (Some(key), Some(value)) => (
                ctx.with_storage(at, jar_set(jar, origin, area, key, value)),
                if set_fits(items, key, value) {
                    Ok(empty_object())
                } else {
                    Err("QuotaExceededError"@)
                },
            ),
        }
    } else if method == "removeDOMStorageItem"@ {
        match params.get_text("key"@) {
            None => (ctx, Err("Missing key"@)),
            Some(key) => (
                ctx.with_storage(at, jar_with(jar, origin, area, items_remove(items, key))),
                Ok(empty_object()),
            ),
        }
    } else {
        (ctx.with_storage(at, jar_with(jar, origin, area, Seq::empty())), Ok(empty_object()))
    }
}

/// The methods that address an area.
pub open spec fn addresses_area(method: Seq<char>) -> bool {
    ||| method == "getDOMStorageItems"@
    ||| method == "setDOMStorageItem"@
    ||| method == "removeDOMStorageItem"@
    ||| method == "clear"@
}

/// The state after a request and its answer. Storage is that of the session's
/// page, or else of the connection's own context.
pub open spec fn answer(
    ctx: CdpView,
    method: Seq<char>,
    params: JsonView,
    session: Option<Seq<char>>,
) -> (CdpView, ReplyView) {
    if method == "enable"@ || method == "disable"@ {
        (ctx, Ok(empty_object()))
    } else if addresses_area(method) {
        match addressed_area(params) {
            Ok((origin, area)) => answer_in_area(
                ctx,
                ctx.session_context(session),
                method,
                params,
                origin,
                area,
            ),
            Err(e) => (ctx, Err(e)),
        }
    } else {
        (ctx, Err("Unknown DOMStorage method: "@ + method))
    }
}

/// The context whose storage a session addresses.
fn jar_for(ctx: &CdpContext, session_id: &Option<String>) -> (r: ContextRef)
    requires
        ctx@.wf(),
    ensures
        r == ctx@.session_context(opt_text(*session_id)),
        ctx@.has(r),
{
    ctx.session_context(session_id)
}

/// Reads origin and area out of a `storageId`. Either `securityOrigin` or
/// `storageKey` is taken, normalized as page URLs are, so `https://x.com/` and
/// `https://x.com` address one area rather than two.
pub fn storage_id(params: &Json) -> (r: Result<(String, StorageArea), String>)
    ensures
        match r {
            Ok((origin, area)) => addressed_area(params@) == Ok::<
                (Seq<char>, StorageArea),
                Seq<char>,
            >((origin@, area)),
            Err(e) => addressed_area(params@) == Err::<(Seq<char>, StorageArea), Seq<char>>(e@),
        },
{
    let id: &Json = match params.get("storageId") {
        Some(id) => id,
        None => {
            return Err("Missing storageId".to_owned());
        },
    };
    let raw: Option<&str> = match id.get_either("securityOrigin", "storageKey") {
        Some(v) => v.as_str(),
        None => None,
    };
    let raw: &str = match raw {
        Some(raw) => raw,
        None => {
            return Err("storageId needs securityOrigin or storageKey".to_owned());
        },
    };
    let origin: String = match origin_of(raw) {
        Some(origin) => origin,
        None => {
            return Err(joined("Opaque or unsupported origin: ", raw));
        },
    };
    let local: bool = match id.get_bool("isLocalStorage") {
        Some(b) => b,
        None => true,
    };
    Ok(
        (
            origin,
            if local {
                StorageArea::Local
            } else {
                StorageArea::Session
            },
        ),
    )
}

fn entries_of(items: &Vec<(String, String)>) -> (r: Json)
    ensures
        r@ == entries_json(items_view(items@)),
{
    let ghost f = |i: (Seq<char>, Seq<char>)|
        JsonView::Array(seq![JsonView::Text(i.0), JsonView::Text(i.1)]);
    let ghost all = items_view(items@).map_values(f);
    let mut out: Vec<Json> = Vec::new();
    let mut i: usize = 0;
    while i < items.len()
        invariant
            i <= items@.len(),
            f == |i: (Seq<char>, Seq<char>)|
                JsonView::Array(seq![JsonView::Text(i.0), JsonView::Text(i.1)]),
            all == items_view(items@).map_values(f),
            array_view(out@) =~= all.take(i as int),
        decreases items@.len() - i,
    {
        let ghost before = out@;
        let mut pair: Vec<Json> = Vec::new();
        pair.push(Json::text(items[i].0.as_str()));
        pair.push(Json::text(items[i].1.as_str()));
        assert(array_view(pair@) =~= all[i as int]->Array_0);
        out.push(Json::array(pair));
        assert(array_view(out@) =~= array_view(before).push(all[i as int]));
        i = i + 1;
    }
    assert(all.take(i as int) =~= all);
    let mut m: Vec<(String, Json)> = Vec::new();
    m.push(("entries".to_owned(), Json::array(out)));
    assert(members_view(m@) =~= entries_json(items_view(items@))->Object_0);
    Json::object(m)
}

/// Answers a request of the domain.
pub fn handle(
    method: &str,
    params: &Json,
    ctx: &mut CdpContext,
    session_id: &Option<String>,
) -> (r: Result<Json, String>)
    requires
        old(ctx)@.wf(),
    ensures
        (final(ctx)@, reply_view(r)) == answer(
            old(ctx)@,
            method@,
            params@,
            opt_text(*session_id),
        ),
        final(ctx)@.wf(),
{
    // No event is sent for a change of storage, so these promise nothing.
    if text_eq(method, "enable") || text_eq(method, "disable") {
        return Ok(Json::empty());
    }
    if !(text_eq(method, "getDOMStorageItems") || text_eq(method, "setDOMStorageItem") || text_eq(
        method,
        "removeDOMStorageItem",
    ) || text_eq(method, "clear")) {
        return Err(joined("Unknown DOMStorage method: ", method));
    }
    let (origin, area): (String, StorageArea) = match storage_id(params) {
        Ok(found) => found,
        Err(e) => {
            return Err(e);
        },
    };
    let at: ContextRef = jar_for(ctx, session_id);
    if text_eq(method, "getDOMStorageItems") {
        let items: Vec<(String, String)> = match at {
            ContextRef::Default => ctx.default_context.storage.items(origin.as_str(), area),
            ContextRef::Created(i) => ctx.browser_contexts[i].storage.items(origin.as_str(), area),
        };
        return Ok(entries_of(&items));
    }
    if text_eq(method, "setDOMStorageItem") {
        let key: &str = match params.get_str("key") {
            Some(key) => key,
            None => {
                return Err("Missing key".to_owned());
            },
        };
        let value: &str = match params.get_str("value") {
            Some(value) => value,
            None => {
                return Err("Missing value".to_owned());
            },
        };
        let context = ctx.context_mut(at);
        return match context.storage.set_item(origin.as_str(), area, key, value) {
            Ok(_) => Ok(Json::empty()),
            Err(_) => Err("QuotaExceededError".to_owned()),
        };
    }
    if text_eq(method, "removeDOMStorageItem") {
        let key: &str = match params.get_str("key") {
            Some(key) => key,
            None => {
                return Err("Missing key".to_owned());
            },
        };
        let context = ctx.context_mut(at);
        context.storage.remove_item(origin.as_str(), area, key);
        return Ok(Json::empty());
    }
    let context = ctx.context_mut(at);
    context.storage.clear(origin.as_str(), area);
    Ok(Json::empty())
}

} // verus!
