//! The `Memory` domain: counts of what the process really holds.
//!
//! These methods exist to return data, so a count that is not kept is reported
//! as zero rather than guessed, and no allocator profile is made up.
use crate::cdp::{pages_view, CdpContext, CdpView, Page, PageView};
use crate::domains::{joined, reply_view, ReplyView};
use crate::json::{empty_object, int_number, members_view, Json, JsonView};
use crate::text::text_eq;
use vstd::prelude::*;

verus! {

/// The nodes of all pages' documents.
pub open spec fn total_nodes(pages: Seq<PageView>) -> nat
    decreases pages.len(),
{
    if pages.len() == 0 {
        0
    } else {
        total_nodes(pages.drop_last()) + match pages.last().dom_nodes {
            Some(n) => n as nat,
            None => 0,
        }
    }
}

/// A count as an `i64` can show it.
pub open spec fn count_shown(n: nat) -> i64 {
    if n <= i64::MAX {
        n as i64
    } else {
        i64::MAX
    }
}

/// The counters: one document per page, the nodes of all documents, and zero
/// event listeners, which are not counted.
pub open spec fn counters_json(pages: Seq<PageView>) -> JsonView {
    JsonView::Object(
        seq![
            ("documents"@, JsonView::Number(int_number(count_shown(pages.len())))),
            ("nodes"@, JsonView::Number(int_number(count_shown(total_nodes(pages))))),
            ("jsEventListeners"@, JsonView::Number(int_number(0))),
        ],
    )
}

/// A sampling profile without samples.
pub open spec fn empty_profile() -> JsonView {
    JsonView::Object(
        seq![
            (
                "profile"@,
                JsonView::Object(
                    seq![
                        ("samples"@, JsonView::Array(Seq::empty())),
                        ("modules"@, JsonView::Array(Seq::empty())),
                    ],
                ),
            ),
        ],
    )
}

/// The setters of instrumentation that is not there: acknowledged only.
pub open spec fn is_setter(method: Seq<char>) -> bool {
    ||| method == "setPressureNotificationsSuppressed"@
    ||| method == "simulatePressureNotification"@
    ||| method == "prepareForLeakDetection"@
    ||| method == "forciblyPurgeJavaScriptMemory"@
    ||| method == "startSampling"@
    ||| method == "stopSampling"@
    ||| method == "setPressureNotificationsSuppressedForTesting"@
}

/// The answer to a request; nothing changes.
pub open spec fn answer(ctx: CdpView, method: Seq<char>) -> ReplyView {
    if method == "getDOMCounters"@ || method == "getDOMCountersForLeakDetection"@ {
        Ok(counters_json(ctx.pages))
    } else if method == "getAllTimeSamplingProfile"@ || method == "getBrowserSamplingProfile"@
        || method == "getSamplingProfile"@ {
        Ok(empty_profile())
    } else if is_setter(method) {
        Ok(empty_object())
    } else {
        Err("Unknown Memory method: "@ + method)
    }
}

fn page_nodes(p: &Page) -> (r: u64)
    ensures
        r == (match p@.dom_nodes {
            Some(n) => n as nat,
            None => 0,
        }),
{
    match p.dom_nodes {
        Some(n) => n as u64,
        None => 0,
    }
}

fn capped(a: i64, n: u64) -> (r: i64)
    requires
        a >= 0,
    ensures
        r == count_shown((a + n) as nat),
{
    if n > (i64::MAX - a) as u64 {
        i64::MAX
    } else {
        a + n as i64
    }
}

/// Documents, nodes and event listeners. Documents and nodes are counted from
/// the live pages.
pub fn dom_counters(ctx: &CdpContext) -> (r: Json)
    ensures
        r@ == counters_json(ctx@.pages),
{
    let ghost pages = ctx@.pages;
    let documents: i64 = capped(0, ctx.pages.len() as u64);
    let mut nodes: i64 = 0;
    let mut i: usize = 0;
    while i < ctx.pages.len()
        invariant
            i <= ctx.pages@.len(),
            pages == pages_view(ctx.pages@),
            nodes >= 0,
            nodes == count_shown(total_nodes(pages.take(i as int))),
        decreases ctx.pages@.len() - i,
    {
        assert(pages[i as int] == ctx.pages@[i as int]@);
        assert(pages.take(i + 1).drop_last() =~= pages.take(i as int));
        nodes = capped(nodes, page_nodes(&ctx.pages[i]));
        i = i + 1;
    }
    assert(pages.take(i as int) =~= pages);
    let mut m: Vec<(String, Json)> = Vec::new();
    m.push(("documents".to_owned(), Json::integer(documents)));
    m.push(("nodes".to_owned(), Json::integer(nodes)));
    m.push(("jsEventListeners".to_owned(), Json::integer(0)));
    assert(members_view(m@) =~= counters_json(pages)->Object_0);
    Json::object(m)
}

fn no_profile() -> (r: Json)
    ensures
        r@ == empty_profile(),
{
    let samples: Vec<Json> = Vec::new();
    let modules: Vec<Json> = Vec::new();
    let mut p: Vec<(String, Json)> = Vec::new();
    p.push(("samples".to_owned(), Json::array(samples)));
    p.push(("modules".to_owned(), Json::array(modules)));
    assert(crate::json::array_view(Seq::empty()) =~= Seq::empty());
    assert(members_view(p@) =~= empty_profile()->Object_0[0].1->Object_0);
    let mut m: Vec<(String, Json)> = Vec::new();
    m.push(("profile".to_owned(), Json::object(p)));
    assert(members_view(m@) =~= empty_profile()->Object_0);
    Json::object(m)
}

/// Answers a request of the domain. No method takes parameters that matter
/// here, and none changes anything.
pub fn handle(method: &str, params: &Json, ctx: &mut CdpContext) -> (r: Result<Json, String>)
    ensures
        reply_view(r) == answer(old(ctx)@, method@),
        *final(ctx) == *old(ctx),
{
    if text_eq(method, "getDOMCounters") || text_eq(method, "getDOMCountersForLeakDetection") {
        return Ok(dom_counters(ctx));
    }
    if text_eq(method, "getAllTimeSamplingProfile") || text_eq(method, "getBrowserSamplingProfile")
        || text_eq(method, "getSamplingProfile") {
        return Ok(no_profile());
    }
    if text_eq(method, "setPressureNotificationsSuppressed") || text_eq(
        method,
        "simulatePressureNotification",
    ) || text_eq(method, "prepareForLeakDetection") || text_eq(
        method,
        "forciblyPurgeJavaScriptMemory",
    ) || text_eq(method, "startSampling") || text_eq(method, "stopSampling") || text_eq(
        method,
        "setPressureNotificationsSuppressedForTesting",
    ) {
        return Ok(Json::empty());
    }
    Err(joined("Unknown Memory method: ", method))
}

} // verus!
