//! What a protocol connection holds: contexts, pages, sessions, the viewport.
use crate::context::{memory_context, BrowserContext, ContextView, Profile, ProfileView};
use crate::cookies::CookieView;
use crate::items::{find_key, item_value, items_set, items_view, Items};
use crate::origin::opt_text;
use crate::scale::SCALE_ONE;
use crate::storage::JarView;
use crate::text::{decimal, decimal_text, text_eq};
use vstd::prelude::*;

verus! {

/// The viewport that pages are rendered at. The device pixel ratio is held by
/// the bits of its `f32`.
#[derive(Debug, Clone, Copy, PartialEq, Eq, Structural)]
pub struct Viewport {
    pub width: u32,
    pub height: u32,
    pub scale_bits: u32,
}

/// The viewport without an override: 1280x720 at ratio 1.
pub open spec fn default_viewport() -> Viewport {
    Viewport { width: 1280, height: 720, scale_bits: SCALE_ONE }
}

impl Default for Viewport {
    fn default() -> (r: Self)
        ensures
            r == default_viewport(),
    {
        Viewport { width: 1280, height: 720, scale_bits: SCALE_ONE }
    }
}

/// Which context of a connection: its own, or one made later.
#[derive(Debug, Clone, Copy, PartialEq, Eq, Structural)]
pub enum ContextRef {
    Default,
    Created(usize),
}

/// A page as the protocol sees it.
#[derive(Debug)]
pub struct Page {
    pub id: String,
    pub context: ContextRef,
    /// How many nodes its document has, if it has one.
    pub dom_nodes: Option<usize>,
}

#[verifier::ext_equal]
pub struct PageView {
    pub id: Seq<char>,
    pub context: ContextRef,
    pub dom_nodes: Option<usize>,
}

impl View for Page {
    type V = PageView;

    open spec fn view(&self) -> PageView {
        PageView { id: self.id@, context: self.context, dom_nodes: self.dom_nodes }
    }
}

/// The state of a connection.
pub struct CdpContext {
    pub default_context: BrowserContext,
    pub browser_contexts: Vec<BrowserContext>,
    pub pages: Vec<Page>,
    /// Session id and the id of the page that it is attached to.
    pub sessions: Vec<(String, String)>,
    pub viewport: Viewport,
}

#[verifier::ext_equal]
pub struct CdpView {
    pub default_context: ContextView,
    pub browser_contexts: Seq<ContextView>,
    pub pages: Seq<PageView>,
    pub sessions: Items,
    pub viewport: Viewport,
}

pub open spec fn contexts_view(v: Seq<BrowserContext>) -> Seq<ContextView> {
    v.map_values(|c: BrowserContext| c@)
}

pub open spec fn pages_view(v: Seq<Page>) -> Seq<PageView> {
    v.map_values(|p: Page| p@)
}

impl View for CdpContext {
    type V = CdpView;

    open spec fn view(&self) -> CdpView {
        CdpView {
            default_context: self.default_context@,
            browser_contexts: contexts_view(self.browser_contexts@),
            pages: pages_view(self.pages@),
            sessions: items_view(self.sessions@),
            viewport: self.viewport,
        }
    }
}

/// The first page with an id.
pub open spec fn page_with_id(pages: Seq<PageView>, id: Seq<char>) -> Option<PageView>
    decreases pages.len(),
{
    if pages.len() == 0 {
        None
    } else if pages[0].id == id {
        Some(pages[0])
    } else {
        page_with_id(pages.drop_first(), id)
    }
}

/// Where the first context with an id stands, from `k` on.
pub open spec fn context_with_id(contexts: Seq<ContextView>, id: Seq<char>, k: int) -> Option<int>
    decreases contexts.len() - k,
{
    if k < 0 || k >= contexts.len() {
        None
    } else if contexts[k].id == id {
        Some(k)
    } else {
        context_with_id(contexts, id, k + 1)
    }
}

impl CdpView {
    /// The state of a new connection.
    pub open spec fn fresh(profile: ProfileView) -> CdpView {
        CdpView {
            default_context: memory_context("default"@, None, false, None, profile),
            browser_contexts: Seq::empty(),
            pages: Seq::empty(),
            sessions: Seq::empty(),
            viewport: default_viewport(),
        }
    }

    /// Whether there is such a context.
    pub open spec fn has(self, r: ContextRef) -> bool {
        match r {
            ContextRef::Default => true,
            ContextRef::Created(i) => i < self.browser_contexts.len(),
        }
    }

    /// Every page is of a context that there is, and there are no more of these
    /// than a list can hold.
    pub open spec fn wf(self) -> bool {
        &&& self.browser_contexts.len() <= usize::MAX
        &&& forall|i: int|
            0 <= i < self.pages.len() ==> self.has((#[trigger] self.pages[i]).context)
    }

    pub open spec fn context(self, r: ContextRef) -> ContextView {
        match r {
            ContextRef::Default => self.default_context,
            ContextRef::Created(i) => self.browser_contexts[i as int],
        }
    }

    pub open spec fn with_context(self, r: ContextRef, c: ContextView) -> CdpView {
        match r {
            ContextRef::Default => CdpView { default_context: c, ..self },
            ContextRef::Created(i) => CdpView {
                browser_contexts: self.browser_contexts.update(i as int, c),
                ..self
            },
        }
    }

    pub open spec fn with_storage(self, r: ContextRef, jar: JarView) -> CdpView {
        self.with_context(r, ContextView { storage: jar, ..self.context(r) })
    }

    pub open spec fn with_cookies(self, r: ContextRef, cookies: Seq<CookieView>) -> CdpView {
        self.with_context(r, ContextView { cookies, ..self.context(r) })
    }

    /// The page that a session is attached to.
    pub open spec fn session_page(self, session: Option<Seq<char>>) -> Option<PageView> {
        match session {
            Some(s) => match item_value(self.sessions, s) {
                Some(id) => page_with_id(self.pages, id),
                None => None,
            },
            None => None,
        }
    }

    /// The context of a session's page, or else the connection's own.
    pub open spec fn session_context(self, session: Option<Seq<char>>) -> ContextRef {
        match self.session_page(session) {
            Some(page) => page.context,
            None => ContextRef::Default,
        }
    }

    /// The context with an id.
    pub open spec fn named_context(self, id: Seq<char>) -> Option<ContextRef> {
        if self.default_context.id == id {
            Some(ContextRef::Default)
        } else {
            match context_with_id(self.browser_contexts, id, 0) {
                Some(i) => Some(ContextRef::Created(i as usize)),
                None => None,
            }
        }
    }
}

/// A session's context is one that there is.
pub proof fn lemma_session_context(c: CdpView, session: Option<Seq<char>>)
    requires
        c.wf(),
    ensures
        c.has(c.session_context(session)),
{
    match c.session_page(session) {
        Some(page) => {
            let id = item_value(c.sessions, session->0)->0;
            let i = lemma_page_found(c.pages, id);
            assert(c.has(c.pages[i].context));
        },
        None => {},
    }
}

proof fn lemma_page_found(pages: Seq<PageView>, id: Seq<char>) -> (i: int)
    requires
        page_with_id(pages, id) is Some,
    ensures
        0 <= i < pages.len(),
        page_with_id(pages, id) == Some(pages[i]),
    decreases pages.len(),
{
    if pages[0].id == id {
        0
    } else {
        let i = lemma_page_found(pages.drop_first(), id);
        i + 1
    }
}

proof fn lemma_page_at(pages: Seq<PageView>, id: Seq<char>, i: int)
    requires
        0 <= i <= pages.len(),
        forall|j: int| 0 <= j < i ==> (#[trigger] pages[j]).id != id,
    ensures
        i == pages.len() ==> page_with_id(pages, id) is None,
        i < pages.len() && pages[i].id == id ==> page_with_id(pages, id) == Some(pages[i]),
    decreases i,
{
    if i > 0 {
        let rest = pages.drop_first();
        assert forall|j: int| 0 <= j < i - 1 implies (#[trigger] rest[j]).id != id by {
            assert(rest[j] == pages[j + 1]);
        }
        lemma_page_at(rest, id, i - 1);
    }
}

impl CdpContext {
    /// A new connection: a context of its own, no page, no session.
    pub fn new(profile: &Profile) -> (r: Self)
        ensures
            r@ == CdpView::fresh(profile@),
            r@.wf(),
    {
        let r = CdpContext {
            default_context: BrowserContext::new("default".to_owned(), profile),
            browser_contexts: Vec::new(),
            pages: Vec::new(),
            sessions: Vec::new(),
            viewport: Viewport::default(),
        };
        assert(r@ =~= CdpView::fresh(profile@));
        r
    }

    /// Whether every page is of a context that there is, for callers that
    /// filled the lists by hand.
    pub fn is_well_formed(&self) -> (r: bool)
        ensures
            r == self@.wf(),
    {
        let n: usize = self.browser_contexts.len();
        let mut i: usize = 0;
        while i < self.pages.len()
            invariant
                i <= self.pages@.len(),
                n == self@.browser_contexts.len(),
                forall|j: int| 0 <= j < i ==> self@.has((#[trigger] self@.pages[j]).context),
            decreases self.pages@.len() - i,
        {
            let known: bool = match self.pages[i].context {
                ContextRef::Default => true,
                ContextRef::Created(k) => k < n,
            };
            assert(self@.pages[i as int] == self.pages@[i as int]@);
            if !known {
                return false;
            }
            i = i + 1;
        }
        true
    }

    /// Opens a page in the connection's own context; gives its id.
    pub fn create_page(&mut self) -> (id: String)
        ensures
            id@ == "page-"@ + decimal_text(old(self)@.pages.len()),
            final(self)@ == (CdpView {
                pages: old(self)@.pages.push(
                    PageView { id: id@, context: ContextRef::Default, dom_nodes: None },
                ),
                ..old(self)@
            }),
            old(self)@.wf() ==> final(self)@.wf(),
    {
        let mut id: String = "page-".to_owned();
        let number: String = decimal(self.pages.len() as u64);
        id.append(number.as_str());
        let ghost before = self@;
        let page = Page { id: id.clone(), context: ContextRef::Default, dom_nodes: None };
        self.pages.push(page);
        proof {
            assert(self@.pages =~= before.pages.push(page@));
        }
        id
    }

    /// Attaches a session to a page, in place of the page it had.
    pub fn attach_session(&mut self, session: &str, page: &str)
        ensures
            final(self)@ == (CdpView {
                sessions: items_set(old(self)@.sessions, session@, page@),
                ..old(self)@
            }),
            old(self)@.wf() ==> final(self)@.wf(),
    {
        let ghost before = self@;
        match find_key(&self.sessions, session) {
            Some(i) => {
                self.sessions.set(i, (session.to_owned(), page.to_owned()));
            },
            None => {
                self.sessions.push((session.to_owned(), page.to_owned()));
            },
        }
        assert(self@.sessions =~= items_set(before.sessions, session@, page@));
    }

    /// The page that a session is attached to.
    pub fn get_session_page(&self, session_id: &Option<String>) -> (r: Option<&Page>)
        ensures
            match r {
                Some(p) => self@.session_page(opt_text(*session_id)) == Some(p@),
                None => self@.session_page(opt_text(*session_id)) is None,
            },
    {
        let session: &String = match session_id {
            Some(s) => s,
            None => {
                return None;
            },
        };
        let k: usize = match find_key(&self.sessions, session.as_str()) {
            Some(k) => k,
            None => {
                return None;
            },
        };
        let id: &str = self.sessions[k].1.as_str();
        assert(item_value(self@.sessions, session@) == Some(id@));
        let mut i: usize = 0;
        while i < self.pages.len()
            invariant
                i <= self.pages@.len(),
                forall|j: int| 0 <= j < i ==> (#[trigger] self@.pages[j]).id != id@,
                self@.session_page(opt_text(*session_id)) == page_with_id(self@.pages, id@),
            decreases self.pages@.len() - i,
        {
            assert(self@.pages[i as int] == self.pages@[i as int]@);
            if text_eq(self.pages[i].id.as_str(), id) {
                proof {
                    lemma_page_at(self@.pages, id@, i as int);
                }
                return Some(&self.pages[i]);
            }
            i = i + 1;
        }
        proof {
            lemma_page_at(self@.pages, id@, i as int);
        }
        None
    }

    /// The context of a session's page, or else the connection's own.
    pub fn session_context(&self, session_id: &Option<String>) -> (r: ContextRef)
        requires
            self@.wf(),
        ensures
            r == self@.session_context(opt_text(*session_id)),
            self@.has(r),
    {
        proof {
            lemma_session_context(self@, opt_text(*session_id));
        }
        match self.get_session_page(session_id) {
            Some(page) => page.context,
            None => ContextRef::Default,
        }
    }

    /// The context with an id.
    pub fn browser_context(&self, id: &str) -> (r: Option<ContextRef>)
        ensures
            r == self@.named_context(id@),
            r is Some ==> self@.has(r->0),
    {
        if text_eq(self.default_context.id.as_str(), id) {
            return Some(ContextRef::Default);
        }
        let ghost all = self@.browser_contexts;
        let mut i: usize = 0;
        while i < self.browser_contexts.len()
            invariant
                i <= self.browser_contexts@.len(),
                all == self@.browser_contexts,
                self@.default_context.id != id@,
                context_with_id(all, id@, 0) == context_with_id(all, id@, i as int),
            decreases self.browser_contexts@.len() - i,
        {
            assert(all[i as int] == self.browser_contexts@[i as int]@);
            if text_eq(self.browser_contexts[i].id.as_str(), id) {
                return Some(ContextRef::Created(i));
            }
            i = i + 1;
        }
        None
    }

    /// A context to change.
    pub fn context_mut(&mut self, r: ContextRef) -> (c: &mut BrowserContext)
        requires
            old(self)@.has(r),
        ensures
            c@ == old(self)@.context(r),
            final(self)@ == old(self)@.with_context(r, final(c)@),
            old(self)@.wf() ==> final(self)@.wf(),
    {
        match r {
            ContextRef::Default => &mut self.default_context,
            ContextRef::Created(i) => &mut self.browser_contexts[i],
        }
    }
}

} // verus!
