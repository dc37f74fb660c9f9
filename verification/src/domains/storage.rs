//! The `Storage` domain: cookies, and clearing what an origin stored.
use crate::cdp::{CdpContext, CdpView, ContextRef};
use crate::cookies::{
    cookies_put, cookies_view, cookies_without, cookies_without_domain, CookieInfo, CookieView,
};
use crate::domains::joined;
use crate::json::{Json, JsonView};
use crate::origin::{host_of, opt_text, origin_of, url_host, url_origin};
use crate::storage::{jar_with, StorageArea};
use crate::text::{list_names, lists_word, text_eq};
use vstd::prelude::*;

verus! {

/// The cookies that a delete request addresses.
#[derive(Debug)]
pub struct DeleteFilter {
    pub name: String,
    pub domain: String,
    pub path: Option<String>,
}

#[verifier::ext_equal]
pub struct FilterView {
    pub name: Seq<char>,
    pub domain: Seq<char>,
    pub path: Option<Seq<char>>,
}

impl View for DeleteFilter {
    type V = FilterView;

    open spec fn view(&self) -> FilterView {
        FilterView { name: self.name@, domain: self.domain@, path: opt_text(self.path) }
    }
}

pub open spec fn filter_view(f: Option<DeleteFilter>) -> Option<FilterView> {
    match f {
        Some(f) => Some(f@),
        None => None,
    }
}

/// What a request is answered with: nothing but an acknowledgement, or cookies.
#[derive(Debug, PartialEq, Eq)]
pub enum StorageReply {
    Empty,
    Cookies(Vec<CookieInfo>),
}

#[verifier::ext_equal]
pub enum StorageReplyView {
    Empty,
    Cookies(Seq<CookieView>),
}

pub open spec fn storage_reply_view(r: Result<StorageReply, String>) -> Result<
    StorageReplyView,
    Seq<char>,
> {
    match r {
        Ok(StorageReply::Empty) => Ok(StorageReplyView::Empty),
        Ok(StorageReply::Cookies(v)) => Ok(StorageReplyView::Cookies(cookies_view(v@))),
        Err(e) => Err(e@),
    }
}

/// The context whose cookies a request addresses: the one it names, else that
/// of the session's page, else the connection's own.
pub open spec fn cookie_context(
    ctx: CdpView,
    params: JsonView,
    session: Option<Seq<char>>,
) -> Result<ContextRef, Seq<char>> {
    match params.get_text("browserContextId"@) {
        Some(id) => match ctx.named_context(id) {
            Some(r) => Ok(r),
            None => Err("Browser context not found: "@ + id),
        },
        None => Ok(ctx.session_context(session)),
    }
}

/// The origin that a clear request names; an empty text where it names none.
pub open spec fn cleared_origin(params: JsonView) -> Seq<char> {
    match params.get_either("origin"@, "storageKey"@) {
        Some(v) => match v.as_text() {
            Some(s) => s,
            None => ""@,
        },
        None => ""@,
    }
}

/// The storage types that a clear request lists; all where it lists none.
pub open spec fn cleared_types(params: JsonView) -> Seq<char> {
    match params.get_text("storageTypes"@) {
        Some(s) => s,
        None => "all"@,
    }
}

/// Whether a list of storage types covers the cookies.
pub open spec fn clears_cookies(types: Seq<char>) -> bool {
    types == "all"@ || lists_word(types, "cookies"@)
}

/// The state after the Web Storage part of a clear request: both areas of the
/// origin are dropped for all types, only `localStorage` where it is listed.
pub open spec fn storage_cleared(
    ctx: CdpView,
    params: JsonView,
    session: Option<Seq<char>>,
) -> CdpView {
    let at = ctx.session_context(session);
    let jar = ctx.context(at).storage;
    let types = cleared_types(params);
    match url_origin(cleared_origin(params)) {
        None => ctx,
        Some(origin) => if types == "all"@ {
            ctx.with_storage(at, jar.remove(origin))
        } else if lists_word(types, "local_storage"@) {
            ctx.with_storage(at, jar_with(jar, origin, StorageArea::Local, Seq::empty()))
        } else {
            ctx
        },
    }
}

/// The state after a clear request and its answer. Web Storage goes first;
/// cookies of the origin's host go where the types cover them.
pub open spec fn clear_answer(
    ctx: CdpView,
    params: JsonView,
    session: Option<Seq<char>>,
) -> (CdpView, Result<StorageReplyView, Seq<char>>) {
    let cleared = storage_cleared(ctx, params, session);
    match url_host(cleared_origin(params)) {
        Some(host) => if clears_cookies(cleared_types(params)) {
            match cookie_context(cleared, params, session) {
                Ok(r) => (
                    cleared.with_cookies(
                        r,
                        cookies_without_domain(cleared.context(r).cookies, host),
                    ),
                    Ok(StorageReplyView::Empty),
                ),
                Err(e) => (cleared, Err(e)),
            }
        } else {
            (cleared, Ok(StorageReplyView::Empty))
        },
        None => (cleared, Ok(StorageReplyView::Empty)),
    }
}

/// The state after a request and its answer. `parsed` are the cookies that a
/// set request gives, `filter` is what a delete request addresses.
pub open spec fn answer(
    ctx: CdpView,
    method: Seq<char>,
    params: JsonView,
    parsed: Seq<CookieView>,
    filter: Option<FilterView>,
    session: Option<Seq<char>>,
) -> (CdpView, Result<StorageReplyView, Seq<char>>) {
    let found = cookie_context(ctx, params, session);
    if method == "getCookies"@ {
        match found {
            Ok(r) => (ctx, Ok(StorageReplyView::Cookies(ctx.context(r).cookies))),
            Err(e) => (ctx, Err(e)),
        }
    } else if method == "setCookies"@ {
        if params.get_array("cookies"@) is Some {
            match found {
                Ok(r) => (
                    ctx.with_cookies(r, cookies_put(ctx.context(r).cookies, parsed)),
                    Ok(StorageReplyView::Empty),
                ),
                Err(e) => (ctx, Err(e)),
            }
        } else {
            (ctx, Ok(StorageReplyView::Empty))
        }
    } else if method == "deleteCookies"@ {
        match filter {
            Some(f) => match found {
                Ok(r) => (
                    ctx.with_cookies(
                        r,
                        cookies_without(ctx.context(r).cookies, f.name, f.domain, f.path),
                    ),
                    Ok(StorageReplyView::Empty),
                ),
                Err(e) => (ctx, Err(e)),
            },
            None => (ctx, Ok(StorageReplyView::Empty)),
        }
    } else if method == "clearDataForOrigin"@ || method == "clearDataForStorageKey"@ {
        clear_answer(ctx, params, session)
    } else {
        (ctx, Ok(StorageReplyView::Empty))
    }
}

fn cookie_jar_for(ctx: &CdpContext, params: &Json, session_id: &Option<String>) -> (r: Result<
    ContextRef,
    String,
>)
    requires
        ctx@.wf(),
    ensures
        match r {
            Ok(at) => ctx@.has(at) && cookie_context(ctx@, params@, opt_text(*session_id)) == Ok::<
                ContextRef,
                Seq<char>,
            >(at),
            Err(e) => cookie_context(ctx@, params@, opt_text(*session_id)) == Err::<
                ContextRef,
                Seq<char>,
            >(e@),
        },
{
    match params.get_str("browserContextId") {
        Some(id) => match ctx.browser_context(id) {
            Some(at) => Ok(at),
            None => Err(joined("Browser context not found: ", id)),
        },
        None => Ok(ctx.session_context(session_id)),
    }
}

/// Clears what an origin stored, as far as the listed types ask for it.
fn clear_data(params: &Json, ctx: &mut CdpContext, session_id: &Option<String>) -> (r: Result<
    StorageReply,
    String,
>)
    requires
        old(ctx)@.wf(),
    ensures
        (final(ctx)@, storage_reply_view(r)) == clear_answer(
            old(ctx)@,
            params@,
            opt_text(*session_id),
        ),
        final(ctx)@.wf(),
{
    let ghost first = ctx@;
    let ghost session = opt_text(*session_id);
    let raw: &str = match params.get_either("origin", "storageKey") {
        Some(v) => match v.as_str() {
            Some(s) => s,
            None => "",
        },
        None => "",
    };
    let types: &str = match params.get_str("storageTypes") {
        Some(s) => s,
        None => "all",
    };
    let all: bool = text_eq(types, "all");
    match origin_of(raw) {
        Some(origin) => {
            let at: ContextRef = ctx.session_context(session_id);
            if all {
                let context = ctx.context_mut(at);
                context.storage.clear_origin(origin.as_str());
            } else if list_names(types, "local_storage") {
                let context = ctx.context_mut(at);
                context.storage.clear(origin.as_str(), StorageArea::Local);
            }
        },
        None => {},
    }
    assert(ctx@ == storage_cleared(first, params@, session));
    if all || list_names(types, "cookies") {
        match host_of(raw) {
            Some(host) => {
                let at: ContextRef = match cookie_jar_for(ctx, params, session_id) {
                    Ok(at) => at,
                    Err(e) => {
                        return Err(e);
                    },
                };
                let context = ctx.context_mut(at);
                context.cookie_jar.clear_domain(host.as_str());
            },
            None => {},
        }
    }
    Ok(StorageReply::Empty)
}

/// Answers a request of the domain. `parsed` are the cookies that the entries
/// of a set request's `cookies` stand for, `filter` is what a delete request
/// addresses, if it addresses anything. The storage types that are honoured
/// are cookies and Web Storage; others are passed over.
pub fn handle(
    method: &str,
    params: &Json,
    parsed: Vec<CookieInfo>,
    filter: &Option<DeleteFilter>,
    ctx: &mut CdpContext,
    session_id: &Option<String>,
) -> (r: Result<StorageReply, String>)
    requires
        old(ctx)@.wf(),
    ensures
        (final(ctx)@, storage_reply_view(r)) == answer(
            old(ctx)@,
            method@,
            params@,
            cookies_view(parsed@),
            filter_view(*filter),
            opt_text(*session_id),
        ),
        final(ctx)@.wf(),
{
    if text_eq(method, "getCookies") {
        let at: ContextRef = match cookie_jar_for(ctx, params, session_id) {
            Ok(at) => at,
            Err(e) => {
                return Err(e);
            },
        };
        let cookies: Vec<CookieInfo> = match at {
            ContextRef::Default => ctx.default_context.cookie_jar.get_all_cookies(),
            ContextRef::Created(i) => ctx.browser_contexts[i].cookie_jar.get_all_cookies(),
        };
        return Ok(StorageReply::Cookies(cookies));
    }
    if text_eq(method, "setCookies") {
        if params.get_array("cookies").is_some() {
            let at: ContextRef = match cookie_jar_for(ctx, params, session_id) {
                Ok(at) => at,
                Err(e) => {
                    return Err(e);
                },
            };
            let context = ctx.context_mut(at);
            context.cookie_jar.set_cookies_from_cdp(parsed);
        }
        return Ok(StorageReply::Empty);
    }
    if text_eq(method, "deleteCookies") {
        match filter {
            Some(f) => {
                let at: ContextRef = match cookie_jar_for(ctx, params, session_id) {
                    Ok(at) => at,
                    Err(e) => {
                        return Err(e);
                    },
                };
                let path: Option<&str> = match &f.path {
                    Some(p) => Some(p.as_str()),
                    None => None,
                };
                let context = ctx.context_mut(at);
                context.cookie_jar.delete_cookies_filtered(
                    f.name.as_str(),
                    f.domain.as_str(),
                    path,
                );
            },
            None => {},
        }
        return Ok(StorageReply::Empty);
    }
    if text_eq(method, "clearDataForOrigin") || text_eq(method, "clearDataForStorageKey") {
        return clear_data(params, ctx, session_id);
    }
    Ok(StorageReply::Empty)
}

} // verus!
