//! Laws of origins, sessions and the contexts that requests address.
use crate::cdp::{context_with_id, page_with_id, CdpView, ContextRef, PageView};
use crate::context::ContextView;
use crate::cookies::CookieView;
use crate::domains::storage::cookie_context;
use crate::items::items_set;
use crate::json::JsonView;
use crate::laws::jars::law_first_item_is_read;
use crate::origin::{
    bare_host, default_port, implicit_port, origin_text, parsed_url, plain_host, url_host,
    url_origin,
};
use crate::storage::JarView;
use crate::text::decimal_text;
use vstd::prelude::*;

verus! {

/// The origin of a page is its scheme, its host and the port if one is spelled.
/// Pages of other schemes than these five, and pages without a host, have none.
pub proof fn law_origin_is_scheme_host_and_port(
    scheme: Seq<char>,
    host: Seq<char>,
    port: Option<u16>,
)
    ensures
        ({
            let known = scheme == "http"@ || scheme == "https"@ || scheme == "ws"@ || scheme
                == "wss"@ || scheme == "ftp"@;
            &&& origin_text((scheme, Some(host), port)) is Some <==> known
            &&& known ==> origin_text((scheme, Some(host), None)) == Some(scheme + "://"@ + host)
            &&& known ==> (port matches Some(n) ==> origin_text((scheme, Some(host), port)) == Some(
                scheme + "://"@ + host + ":"@ + decimal_text(n as nat),
            ))
            &&& origin_text((scheme, None, port)) is None
        }),
{
}

/// Storage is keyed by what a URL parses to: texts with the same scheme, host
/// and port share it, and a text that is no URL has none. The host of a URL is
/// the parsed one.
pub proof fn law_origin_of_a_url(url: Seq<char>, other: Seq<char>)
    ensures
        parsed_url(url) is None ==> url_origin(url) is None && url_host(url) is None,
        parsed_url(url) matches Some(parts) ==> url_origin(url) == origin_text(parts) && url_host(
            url,
        ) == parts.1,
        parsed_url(url) == parsed_url(other) ==> url_origin(url) == url_origin(other),
{
}

/// The ports that stay implicit.
pub proof fn law_implicit_ports()
    ensures
        default_port("http"@) == Some(80u16) && default_port("ws"@) == Some(80u16),
        default_port("https"@) == Some(443u16) && default_port("wss"@) == Some(443u16),
        default_port("ftp"@) == Some(21u16),
{
    reveal_strlit("http");
    reveal_strlit("ws");
    reveal_strlit("https");
    reveal_strlit("wss");
    reveal_strlit("ftp");
    assert("http"@.len() == 4 && "ws"@.len() == 2 && "https"@.len() == 5);
    assert("wss"@.len() == 3 && "ftp"@.len() == 3 && "wss"@[0] == 'w' && "ftp"@[0] == 'f');
}

proof fn lemma_first_page(pages: Seq<PageView>, id: Seq<char>, i: int)
    requires
        0 <= i <= pages.len(),
        forall|j: int| 0 <= j < i ==> (#[trigger] pages[j]).id != id,
    ensures
        i == pages.len() ==> page_with_id(pages, id) is None,
        i < pages.len() && pages[i].id == id ==> page_with_id(pages, id) == Some(pages[i]),
    decreases i,
{
    if i > 0 {
        let rest = pages.drop_first();
        assert forall|j: int| 0 <= j < i - 1 implies (#[trigger] rest[j]).id != id by {
            assert(rest[j] == pages[j + 1]);
        }
        lemma_first_page(rest, id, i - 1);
    }
}

/// A session addresses the context of the page that it is attached to: the
/// first page with the id that stands first under the session. Without such a
/// page, or without a session, it is the connection's own context.
pub proof fn law_session_addresses_its_page(c: CdpView, session: Seq<char>, k: int, i: int)
    requires
        0 <= k <= c.sessions.len(),
        forall|j: int| 0 <= j < k ==> (#[trigger] c.sessions[j]).0 != session,
        0 <= i <= c.pages.len(),
        k < c.sessions.len() ==> forall|j: int|
            0 <= j < i ==> (#[trigger] c.pages[j]).id != c.sessions[k].1,
    ensures
        c.session_context(None) == ContextRef::Default,
        c.session_page(None) is None,
        k == c.sessions.len() ==> c.session_page(Some(session)) is None && c.session_context(
            Some(session),
        ) == ContextRef::Default,
        k < c.sessions.len() && c.sessions[k].0 == session && i == c.pages.len()
            ==> c.session_page(Some(session)) is None && c.session_context(Some(session))
            == ContextRef::Default,
        k < c.sessions.len() && c.sessions[k].0 == session && i < c.pages.len() && c.pages[i].id
            == c.sessions[k].1 ==> c.session_page(Some(session)) == Some(c.pages[i])
            && c.session_context(Some(session)) == c.pages[i].context,
{
    law_first_item_is_read(c.sessions, session, k);
    if k < c.sessions.len() {
        lemma_first_page(c.pages, c.sessions[k].1, i);
    }
}

/// A session that is attached to a page addresses it, whatever page it had
/// before, and no other session notices.
pub proof fn law_attached_session_addresses_the_page(
    c: CdpView,
    session: Seq<char>,
    page: Seq<char>,
    other: Seq<char>,
)
    ensures
        ({
            let after = CdpView { sessions: items_set(c.sessions, session, page), ..c };
            &&& after.session_page(Some(session)) == page_with_id(c.pages, page)
            &&& other != session ==> after.session_page(Some(other)) == c.session_page(Some(other))
        }),
{
    crate::laws::storage::lemma_set(c.sessions, session, page, other);
}

proof fn lemma_first_context(contexts: Seq<ContextView>, id: Seq<char>, from: int, i: int)
    requires
        0 <= from <= i <= contexts.len(),
        forall|j: int| from <= j < i ==> (#[trigger] contexts[j]).id != id,
    ensures
        i == contexts.len() ==> context_with_id(contexts, id, from) is None,
        i < contexts.len() && contexts[i].id == id ==> context_with_id(contexts, id, from) == Some(
            i,
        ),
    decreases i - from,
{
    if from < i {
        assert(contexts[from].id != id);
        lemma_first_context(contexts, id, from + 1, i);
    }
}

/// An id names the connection's own context, or else the first context with it
/// that was made later, or else none.
pub proof fn law_context_is_named_by_its_id(c: CdpView, id: Seq<char>, i: int)
    requires
        c.browser_contexts.len() <= usize::MAX,
        0 <= i <= c.browser_contexts.len(),
        forall|j: int| 0 <= j < i ==> (#[trigger] c.browser_contexts[j]).id != id,
    ensures
        c.default_context.id == id ==> c.named_context(id) == Some(ContextRef::Default),
        c.default_context.id != id && i < c.browser_contexts.len() && c.browser_contexts[i].id == id
            ==> c.named_context(id) == Some(ContextRef::Created(i as usize)),
        c.default_context.id != id && i == c.browser_contexts.len() ==> c.named_context(
            id,
        ) is None,
{
    lemma_first_context(c.browser_contexts, id, 0, i);
}

/// A cookie request addresses the context that it names; one that names none
/// addresses that of its session; a name that no context has is refused.
pub proof fn law_cookie_request_addresses_a_context(
    c: CdpView,
    params: JsonView,
    session: Option<Seq<char>>,
)
    ensures
        params.get_text("browserContextId"@) is None ==> cookie_context(c, params, session) == Ok::<
            ContextRef,
            Seq<char>,
        >(c.session_context(session)),
        params.get_text("browserContextId"@) matches Some(id) ==> (c.named_context(id) matches Some(
            r,
        ) ==> cookie_context(c, params, session) == Ok::<ContextRef, Seq<char>>(r)),
        params.get_text("browserContextId"@) matches Some(id) ==> (c.named_context(id) is None
            ==> cookie_context(c, params, session) == Err::<ContextRef, Seq<char>>(
            "Browser context not found: "@ + id,
        )),
{
}

/// Changing a context changes that one alone: its storage or its cookies and
/// nothing else of it, no other context, no page, no session, not the viewport.
pub proof fn law_changes_stay_in_their_context(
    c: CdpView,
    r: ContextRef,
    other: ContextRef,
    jar: JarView,
    cookies: Seq<CookieView>,
)
    requires
        c.has(r),
        c.has(other),
    ensures
        ({
            let a = c.with_storage(r, jar);
            let b = c.with_cookies(r, cookies);
            &&& a.context(r) == (ContextView { storage: jar, ..c.context(r) })
            &&& b.context(r) == (ContextView { cookies, ..c.context(r) })
            &&& other != r ==> a.context(other) == c.context(other) && b.context(other)
                == c.context(other)
            &&& a.browser_contexts.len() == c.browser_contexts.len()
            &&& b.browser_contexts.len() == c.browser_contexts.len()
            &&& a.pages == c.pages && b.pages == c.pages
            &&& a.sessions == c.sessions && b.sessions == c.sessions
            &&& a.viewport == c.viewport && b.viewport == c.viewport
        }),
{
}

/// Which context is which.
pub proof fn law_contexts_by_reference(c: CdpView, i: usize)
    ensures
        c.has(ContextRef::Default) && c.context(ContextRef::Default) == c.default_context,
        c.has(ContextRef::Created(i)) <==> i < c.browser_contexts.len(),
        c.context(ContextRef::Created(i)) == c.browser_contexts[i as int],
{
}

/// A connection is well formed just when every page is of a context that there
/// is; the number of contexts fits a `usize` for every list that there can be.
pub proof fn law_well_formed_connections(c: CdpView)
    requires
        c.browser_contexts.len() <= usize::MAX,
    ensures
        c.wf() <==> forall|i: int|
            0 <= i < c.pages.len() ==> ((#[trigger] c.pages[i]).context matches ContextRef::Created(
                k,
            ) ==> k < c.browser_contexts.len()),
{
    if c.wf() {
        assert forall|i: int| 0 <= i < c.pages.len() implies (
        (#[trigger] c.pages[i]).context matches ContextRef::Created(k) ==> k
            < c.browser_contexts.len()) by {
            assert(c.has(c.pages[i].context));
        }
    } else {
        let i = choose|i: int| 0 <= i < c.pages.len() && !c.has((#[trigger] c.pages[i]).context);
        assert(c.pages[i].context is Created);
    }
}

/// A context that is put in the place of another is there, and all else stays.
pub proof fn law_context_is_replaced(
    c: CdpView,
    r: ContextRef,
    other: ContextRef,
    context: ContextView,
)
    requires
        c.has(r),
        c.has(other),
    ensures
        ({
            let after = c.with_context(r, context);
            &&& after.context(r) == context
            &&& other != r ==> after.context(other) == c.context(other)
            &&& after.browser_contexts.len() == c.browser_contexts.len()
            &&& after.pages == c.pages && after.sessions == c.sessions
            &&& after.viewport == c.viewport
        }),
{
}

/// What the conditions on the parts of a URL mean: a port is implicit unless it
/// is spelled and is not the one that the scheme implies; the host of a page
/// with storage holds nothing that starts a path, a query or a fragment; and a
/// host is plain just when `xn--` stands nowhere in it.
pub proof fn law_parts_of_a_url(scheme: Seq<char>, host: Seq<char>, port: u16, i: int)
    ensures
        implicit_port((scheme, Some(host), None)),
        implicit_port((scheme, Some(host), Some(port))) <==> default_port(scheme) != Some(port),
        bare_host((scheme, Some(host), None)) && (scheme == "http"@ || scheme == "https"@ || scheme
            == "ws"@ || scheme == "wss"@ || scheme == "ftp"@) && 0 <= i < host.len() ==> host[i]
            != '/' && host[i] != '?' && host[i] != '#',
        plain_host((scheme, Some(host), None)) && 0 <= i <= host.len() - 4 ==> host.subrange(
            i,
            i + 4,
        ) != "xn--"@,
        (forall|k: int|
            0 <= k <= host.len() - 4 ==> #[trigger] host.subrange(k, k + 4) != "xn--"@)
            ==> plain_host((scheme, Some(host), None)),
{
    let parts = (scheme, Some(host), None::<u16>);
    if plain_host(parts) && 0 <= i <= host.len() - 4 {
        let h = parts.1->0;
        assert(h.subrange(i, i + 4) != "xn--"@);
    }
}

} // verus!
