//! Laws of the models: each says all that its value holds.
use crate::cdp::{contexts_view, pages_view, CdpContext, Page};
use crate::context::{BrowserContext, HttpSettings, Profile};
use crate::cookies::{cookies_view, CookieInfo};
use crate::domains::emulation::{scale_view, ScaleFactor};
use crate::domains::reply_view;
use crate::domains::storage::{
    filter_view, storage_reply_view, DeleteFilter, StorageReply, StorageReplyView,
};
use crate::items::items_view;
use crate::json::{
    array_view, lemma_array_view, lemma_members_view, members_view, opt_view, Json, JsonView,
};
use crate::origin::{opt_parts_view, opt_text, UrlParts};
use crate::raster::{bytes_view, encode_view, encoded_view, outcome_of, outcome_view};
use crate::render::{
    notes_view, ImageFormat, OutcomeView, RenderError, RenderErrorView, RenderOutcome, RenderRun,
};
use crate::storage::{
    persisted_items_view, persisted_view, snapshot_view, texts_view, PersistedItem,
    PersistedOrigin,
};
use vstd::prelude::*;

verus! {

/// The model of a cookie has its name, value, domain, path, flags and expiry;
/// that of a list of cookies has them all in order.
pub proof fn law_cookie_models(c: CookieInfo, v: Seq<CookieInfo>, i: int)
    ensures
        c@.name == c.name@ && c@.value == c.value@ && c@.domain == c.domain@ && c@.path == c.path@,
        c@.secure == c.secure && c@.http_only == c.http_only,
        c@.same_site == c.same_site@ && c@.expires == c.expires,
        cookies_view(v).len() == v.len(),
        0 <= i < v.len() ==> cookies_view(v)[i] == v[i]@,
{
}

/// The models of lists of texts and of pairs of texts have every text in order.
pub proof fn law_text_models(
    items: Seq<(String, String)>,
    texts: Seq<String>,
    s: String,
    i: int,
)
    ensures
        items_view(items).len() == items.len(),
        0 <= i < items.len() ==> items_view(items)[i] == (items[i].0@, items[i].1@),
        texts_view(texts).len() == texts.len() && notes_view(texts).len() == texts.len(),
        0 <= i < texts.len() ==> texts_view(texts)[i] == texts[i]@ && notes_view(texts)[i]
            == texts[i]@,
        opt_text(Some(s)) == Some(s@),
        opt_text(None) is None,
{
}

/// The models of a storage file and of a snapshot have every origin and item in
/// order.
pub proof fn law_storage_file_models(
    p: PersistedOrigin,
    items: Seq<PersistedItem>,
    file: Seq<PersistedOrigin>,
    snapshot: Seq<(String, Vec<(String, String)>)>,
    i: int,
)
    ensures
        p@ == (p.origin@, persisted_items_view(p.local_storage@)),
        persisted_items_view(items).len() == items.len(),
        0 <= i < items.len() ==> persisted_items_view(items)[i] == (
            items[i].name@,
            items[i].value@,
        ),
        persisted_view(file).len() == file.len(),
        0 <= i < file.len() ==> persisted_view(file)[i] == file[i]@,
        snapshot_view(snapshot).len() == snapshot.len(),
        0 <= i < snapshot.len() ==> snapshot_view(snapshot)[i] == (
            snapshot[i].0@,
            items_view(snapshot[i].1@),
        ),
{
}

/// The model of a JSON value has everything in it.
pub proof fn law_json_models(
    j: Json,
    v: Vec<Json>,
    m: Vec<(String, Json)>,
    i: int,
)
    ensures
        Json::Null@ == JsonView::Null,
        j matches Json::Bool(b) ==> j@ == JsonView::Bool(b),
        j matches Json::Number(n) ==> j@ == JsonView::Number(n),
        j matches Json::Text(s) ==> j@ == JsonView::Text(s@),
        Json::Array(v)@ == JsonView::Array(array_view(v@)),
        Json::Object(m)@ == JsonView::Object(members_view(m@)),
        array_view(v@).len() == v@.len(),
        0 <= i < v@.len() ==> array_view(v@)[i] == v@[i]@,
        members_view(m@).len() == m@.len(),
        0 <= i < m@.len() ==> members_view(m@)[i] == (m@[i].0@, m@[i].1@),
        opt_view(Some(&j)) == Some(j@),
        opt_view(None) is None,
{
    lemma_array_view(v);
    lemma_members_view(m);
}

/// The model of a context has its cookies, its storage, its HTTP settings and
/// its own settings.
pub proof fn law_context_models(c: BrowserContext, h: HttpSettings, p: Profile)
    ensures
        c@.id == c.id@ && c@.cookies == c.cookie_jar@ && c@.storage == c.storage@,
        c@.http == c.http_client@ && c@.user_agent == c.user_agent@,
        c@.platform == c.platform@ && c@.ua_platform == c.ua_platform@,
        c@.ua_platform_version == c.ua_platform_version@,
        c@.proxy_url == opt_text(c.proxy_url) && c@.obey_robots == c.obey_robots,
        c@.stealth == c.stealth && c@.allow_file_access == c.allow_file_access,
        c@.storage_dir == c.storage_dir && c@.allow_private_network == c.allow_private_network,
        h@.proxy_url == opt_text(h.proxy_url) && h@.block_trackers == h.block_trackers,
        h@.allow_private_network == h.allow_private_network && h@.user_agent == h.user_agent@,
        p@.user_agent == p.user_agent@ && p@.platform == p.platform@,
        p@.ua_platform == p.ua_platform@ && p@.ua_platform_version == p.ua_platform_version@,
{
}

/// The model of a connection has its contexts, pages and sessions in order, and
/// its viewport.
pub proof fn law_connection_models(
    c: CdpContext,
    contexts: Seq<BrowserContext>,
    pages: Seq<Page>,
    i: int,
)
    ensures
        c@.default_context == c.default_context@,
        c@.browser_contexts == contexts_view(c.browser_contexts@),
        c@.pages == pages_view(c.pages@) && c@.sessions == items_view(c.sessions@),
        c@.viewport == c.viewport,
        contexts_view(contexts).len() == contexts.len(),
        0 <= i < contexts.len() ==> contexts_view(contexts)[i] == contexts[i]@,
        pages_view(pages).len() == pages.len(),
        0 <= i < pages.len() ==> pages_view(pages)[i].id == pages[i].id@ && pages_view(
            pages,
        )[i].context == pages[i].context && pages_view(pages)[i].dom_nodes == pages[i].dom_nodes,
{
}

/// The models of what goes into a request and of what it is answered with.
pub proof fn law_request_models(
    s: ScaleFactor,
    f: DeleteFilter,
    j: Json,
    cookies: Vec<CookieInfo>,
    e: String,
)
    ensures
        scale_view(Some(s)) is Some && scale_view(Some(s))->0.bits == s.bits && scale_view(
            Some(s),
        )->0.text == s.text@,
        scale_view(None) is None,
        filter_view(Some(f)) is Some && filter_view(Some(f))->0.name == f.name@ && filter_view(
            Some(f),
        )->0.domain == f.domain@ && filter_view(Some(f))->0.path == opt_text(f.path),
        filter_view(None) is None,
        reply_view(Ok(j)) == Ok::<JsonView, Seq<char>>(j@),
        reply_view(Err(e)) == Err::<JsonView, Seq<char>>(e@),
        storage_reply_view(Ok(StorageReply::Empty)) == Ok::<StorageReplyView, Seq<char>>(
            StorageReplyView::Empty,
        ),
        storage_reply_view(Ok(StorageReply::Cookies(cookies))) == Ok::<
            StorageReplyView,
            Seq<char>,
        >(StorageReplyView::Cookies(cookies_view(cookies@))),
        storage_reply_view(Err(e)) == Err::<StorageReplyView, Seq<char>>(e@),
{
}

/// The model of a URL's parts has scheme, host and port.
pub proof fn law_url_models(p: UrlParts)
    ensures
        p@.0 == p.scheme@ && p@.1 == opt_text(p.host) && p@.2 == p.port,
        opt_parts_view(Some(p)) == Some(p@),
        opt_parts_view(None) is None,
{
}

/// The models of a render's run, its outcome and its errors have all that these
/// hold.
pub proof fn law_render_models(
    run: RenderRun,
    o: RenderOutcome,
    e: RenderError,
    bytes: Vec<u8>,
    s: String,
)
    ensures
        run@.width == run.width && run@.waited == run.waited && run@.notes == notes_view(
            run.notes@,
        ),
        o@.bytes == o.bytes@ && o@.width == o.width && o@.height == o.height,
        o@.format == o.format && o@.fidelity_notes == notes_view(o.fidelity_notes@),
        e matches RenderError::BadViewport(t) ==> e@ == RenderErrorView::BadViewport(t@),
        e matches RenderError::Encode(t) ==> e@ == RenderErrorView::Encode(t@),
        e matches RenderError::PaintPanic(t) ==> e@ == RenderErrorView::PaintPanic(t@),
        e matches RenderError::TooLarge { width, height, max } ==> e@
            == (RenderErrorView::TooLarge { width, height, max }),
        outcome_view(Ok(o)) == Ok::<OutcomeView, RenderErrorView>(o@),
        outcome_view(Err(e)) == Err::<OutcomeView, RenderErrorView>(e@),
        bytes_view(Ok(bytes)) == Ok::<Seq<u8>, RenderErrorView>(bytes@),
        bytes_view(Err(e)) == Err::<Seq<u8>, RenderErrorView>(e@),
        encoded_view(Ok(bytes)) == Ok::<Seq<u8>, Seq<char>>(bytes@),
        encoded_view(Err(s)) == Err::<Seq<u8>, Seq<char>>(s@),
{
}

/// An encoded image is reported as it is, with the given size, format and
/// notes; an error is passed on.
pub proof fn law_reported_outcomes(
    bytes: Seq<u8>,
    e: RenderErrorView,
    s: Seq<char>,
    width: u32,
    height: u32,
    format: ImageFormat,
    notes: Seq<Seq<char>>,
)
    ensures
        outcome_of(Ok(bytes), width, height, format, notes) == Ok::<OutcomeView, RenderErrorView>(
            OutcomeView { bytes, width, height, format, fidelity_notes: notes },
        ),
        outcome_of(Err(e), width, height, format, notes) == Err::<OutcomeView, RenderErrorView>(e),
        encode_view(Ok(bytes)) == Ok::<Seq<u8>, RenderErrorView>(bytes),
        encode_view(Err(s)) == Err::<Seq<u8>, RenderErrorView>(RenderErrorView::Encode(s)),
{
}

} // verus!
