//! The cookies of a context.
use crate::text::text_eq;
use vstd::prelude::*;

verus! {

/// A cookie as clients and session files exchange it.
#[derive(Debug, PartialEq, Eq)]
pub struct CookieInfo {
    pub name: String,
    pub value: String,
    pub domain: String,
    pub path: String,
    pub secure: bool,
    pub http_only: bool,
    pub same_site: String,
    /// Seconds since the epoch; `None` for a session cookie.
    pub expires: Option<i64>,
}

#[verifier::ext_equal]
pub struct CookieView {
    pub name: Seq<char>,
    pub value: Seq<char>,
    pub domain: Seq<char>,
    pub path: Seq<char>,
    pub secure: bool,
    pub http_only: bool,
    pub same_site: Seq<char>,
    pub expires: Option<i64>,
}

impl View for CookieInfo {
    type V = CookieView;

    open spec fn view(&self) -> CookieView {
        CookieView {
            name: self.name@,
            value: self.value@,
            domain: self.domain@,
            path: self.path@,
            secure: self.secure,
            http_only: self.http_only,
            same_site: self.same_site@,
            expires: self.expires,
        }
    }
}

pub open spec fn cookies_view(v: Seq<CookieInfo>) -> Seq<CookieView> {
    v.map_values(|c: CookieInfo| c@)
}

/// A cookie is known by its name, domain and path.
pub open spec fn same_cookie(a: CookieView, b: CookieView) -> bool {
    a.name == b.name && a.domain == b.domain && a.path == b.path
}

/// Where the cookie that `c` would replace stands.
pub open spec fn cookie_index(jar: Seq<CookieView>, c: CookieView) -> Option<int>
    decreases jar.len(),
{
    if jar.len() == 0 {
        None
    } else {
        match cookie_index(jar.drop_last(), c) {
            Some(i) => Some(i),
            None => if same_cookie(jar.last(), c) {
                Some(jar.len() - 1)
            } else {
                None
            },
        }
    }
}

/// `jar` with `c` in it, in place of the same cookie if there is one.
pub open spec fn cookie_put(jar: Seq<CookieView>, c: CookieView) -> Seq<CookieView> {
    match cookie_index(jar, c) {
        Some(i) => jar.update(i, c),
        None => jar.push(c),
    }
}

/// `jar` after all of `cs` were put into it in turn.
pub open spec fn cookies_put(jar: Seq<CookieView>, cs: Seq<CookieView>) -> Seq<CookieView>
    decreases cs.len(),
{
    if cs.len() == 0 {
        jar
    } else {
        cookie_put(cookies_put(jar, cs.drop_last()), cs.last())
    }
}

/// No cookie stands twice.
pub open spec fn unique_cookies(jar: Seq<CookieView>) -> bool {
    forall|i: int, j: int|
        0 <= i < j < jar.len() ==> !same_cookie(#[trigger] jar[i], #[trigger] jar[j])
}

/// The cookies that a delete request addresses.
pub open spec fn addressed(
    c: CookieView,
    name: Seq<char>,
    domain: Seq<char>,
    path: Option<Seq<char>>,
) -> bool {
    c.name == name && c.domain == domain && (path is Some ==> c.path == path->0)
}

/// `jar` without what a delete request addresses.
pub open spec fn cookies_without(
    jar: Seq<CookieView>,
    name: Seq<char>,
    domain: Seq<char>,
    path: Option<Seq<char>>,
) -> Seq<CookieView> {
    jar.filter(|c: CookieView| !addressed(c, name, domain, path))
}

/// `jar` without the cookies of `domain`.
pub open spec fn cookies_without_domain(jar: Seq<CookieView>, domain: Seq<char>) -> Seq<
    CookieView,
> {
    jar.filter(|c: CookieView| c.domain != domain)
}

pub proof fn lemma_cookie_index(jar: Seq<CookieView>, c: CookieView)
    ensures
        match cookie_index(jar, c) {
            Some(i) => 0 <= i < jar.len() && same_cookie(jar[i], c) && forall|j: int|
                0 <= j < i ==> !same_cookie(#[trigger] jar[j], c),
            None => forall|j: int| 0 <= j < jar.len() ==> !same_cookie(#[trigger] jar[j], c),
        },
    decreases jar.len(),
{
    if jar.len() > 0 {
        let front = jar.drop_last();
        lemma_cookie_index(front, c);
        assert forall|j: int| 0 <= j < front.len() implies front[j] == #[trigger] jar[j] by {}
    }
}

proof fn lemma_put_keeps_unique(jar: Seq<CookieView>, c: CookieView)
    requires
        unique_cookies(jar),
    ensures
        unique_cookies(cookie_put(jar, c)),
{
    lemma_cookie_index(jar, c);
}

proof fn lemma_filter_keeps_unique(jar: Seq<CookieView>, keep: spec_fn(CookieView) -> bool)
    requires
        unique_cookies(jar),
    ensures
        unique_cookies(jar.filter(keep)),
        forall|k: int|
            0 <= k < jar.filter(keep).len() ==> exists|j: int|
                0 <= j < jar.len() && jar[j] == #[trigger] jar.filter(keep)[k],
    decreases jar.len(),
{
    reveal(Seq::filter);
    if jar.len() > 0 {
        let front = jar.drop_last();
        assert forall|i: int, j: int| 0 <= i < j < front.len() implies !same_cookie(
            #[trigger] front[i],
            #[trigger] front[j],
        ) by {
            assert(!same_cookie(jar[i], jar[j]));
        }
        lemma_filter_keeps_unique(front, keep);
        let past = front.filter(keep);
        let now = jar.filter(keep);
        assert forall|k: int| 0 <= k < now.len() implies exists|j: int|
            0 <= j < jar.len() && jar[j] == #[trigger] now[k] by {
            if k < past.len() {
                let j = choose|j: int| 0 <= j < front.len() && front[j] == past[k];
                assert(jar[j] == now[k]);
            } else {
                assert(jar[jar.len() - 1] == now[k]);
            }
        }
        assert forall|i: int, j: int| 0 <= i < j < now.len() implies !same_cookie(
            #[trigger] now[i],
            #[trigger] now[j],
        ) by {
            assert(now[i] == past[i]);
            if j < past.len() {
                assert(now[j] == past[j]);
            } else {
                let k = choose|k: int| 0 <= k < front.len() && front[k] == past[i];
                assert(!same_cookie(jar[k], jar[jar.len() - 1]));
            }
        }
    }
}

impl CookieInfo {
    /// A copy of the cookie.
    pub fn copy(&self) -> (r: CookieInfo)
        ensures
            r@ == self@,
    {
        CookieInfo {
            name: self.name.clone(),
            value: self.value.clone(),
            domain: self.domain.clone(),
            path: self.path.clone(),
            secure: self.secure,
            http_only: self.http_only,
            same_site: self.same_site.clone(),
            expires: self.expires,
        }
    }
}

/// Copies a list of cookies.
pub fn copy_cookies(v: &Vec<CookieInfo>) -> (r: Vec<CookieInfo>)
    ensures
        cookies_view(r@) == cookies_view(v@),
{
    let mut out: Vec<CookieInfo> = Vec::new();
    let mut i: usize = 0;
    while i < v.len()
        invariant
            i <= v@.len(),
            cookies_view(out@) =~= cookies_view(v@).take(i as int),
        decreases v@.len() - i,
    {
        let ghost before = out@;
        out.push(v[i].copy());
        assert(cookies_view(out@) =~= cookies_view(before).push(v@[i as int]@));
        i = i + 1;
    }
    assert(cookies_view(v@).take(i as int) =~= cookies_view(v@));
    out
}

fn find_same(jar: &Vec<CookieInfo>, c: &CookieInfo) -> (r: Option<usize>)
    ensures
        match r {
            Some(i) => i < jar@.len() && cookie_index(cookies_view(jar@), c@) == Some(i as int),
            None => cookie_index(cookies_view(jar@), c@) is None,
        },
{
    let ghost all = cookies_view(jar@);
    let mut i: usize = 0;
    proof {
        lemma_cookie_index(all, c@);
    }
    while i < jar.len()
        invariant
            i <= jar@.len(),
            all == cookies_view(jar@),
            forall|j: int| 0 <= j < i ==> !same_cookie(#[trigger] all[j], c@),
            match cookie_index(all, c@) {
                Some(i) => 0 <= i < all.len() && same_cookie(all[i], c@) && forall|j: int|
                    0 <= j < i ==> !same_cookie(#[trigger] all[j], c@),
                None => forall|j: int| 0 <= j < all.len() ==> !same_cookie(#[trigger] all[j], c@),
            },
        decreases jar@.len() - i,
    {
        let d: &CookieInfo = &jar[i];
        assert(all[i as int] == d@);
        if text_eq(d.name.as_str(), c.name.as_str()) && text_eq(
            d.domain.as_str(),
            c.domain.as_str(),
        ) && text_eq(d.path.as_str(), c.path.as_str()) {
            return Some(i);
        }
        i = i + 1;
    }
    None
}

/// The cookies of one context.
pub struct CookieJar {
    cookies: Vec<CookieInfo>,
}

impl View for CookieJar {
    type V = Seq<CookieView>;

    closed spec fn view(&self) -> Seq<CookieView> {
        cookies_view(self.cookies@)
    }
}

impl CookieJar {
    #[verifier::type_invariant]
    closed spec fn no_duplicate(self) -> bool {
        unique_cookies(cookies_view(self.cookies@))
    }

    /// A jar without cookies.
    pub fn new() -> (r: Self)
        ensures
            r@ == Seq::<CookieView>::empty(),
    {
        let r = CookieJar { cookies: Vec::new() };
        assert(r@ =~= Seq::<CookieView>::empty());
        r
    }

    /// All cookies, in the order in which they first came.
    pub fn get_all_cookies(&self) -> (r: Vec<CookieInfo>)
        ensures
            cookies_view(r@) == self@,
            unique_cookies(self@),
    {
        proof {
            use_type_invariant(&*self);
        }
        copy_cookies(&self.cookies)
    }

    /// Puts the cookies into the jar in turn; each takes the place of the
    /// cookie with its name, domain and path.
    pub fn set_cookies_from_cdp(&mut self, cookies: Vec<CookieInfo>)
        ensures
            final(self)@ == cookies_put(old(self)@, cookies_view(cookies@)),
    {
        proof {
            use_type_invariant(&*self);
        }
        let ghost given = cookies_view(cookies@);
        let ghost first = self@;
        let mut jar: Vec<CookieInfo> = Vec::new();
        std::mem::swap(&mut jar, &mut self.cookies);
        let mut i: usize = 0;
        while i < cookies.len()
            invariant
                i <= cookies@.len(),
                given == cookies_view(cookies@),
                unique_cookies(cookies_view(jar@)),
                cookies_view(jar@) == cookies_put(first, given.take(i as int)),
            decreases cookies@.len() - i,
        {
            let ghost before = cookies_view(jar@);
            let c: CookieInfo = cookies[i].copy();
            proof {
                lemma_put_keeps_unique(before, c@);
                assert(given.take(i + 1).drop_last() =~= given.take(i as int));
            }
            match find_same(&jar, &c) {
                Some(k) => {
                    jar.set(k, c);
                    assert(cookies_view(jar@) =~= before.update(k as int, c@));
                },
                None => {
                    jar.push(c);
                    assert(cookies_view(jar@) =~= before.push(c@));
                },
            }
            i = i + 1;
        }
        assert(given.take(i as int) =~= given);
        self.cookies = jar;
    }

    /// Deletes the cookies with that name and domain, and that path if one is
    /// given.
    pub fn delete_cookies_filtered(&mut self, name: &str, domain: &str, path: Option<&str>)
        ensures
            final(self)@ == cookies_without(
                old(self)@,
                name@,
                domain@,
                match path {
                    Some(p) => Some(p@),
                    None => None,
                },
            ),
    {
        proof {
            use_type_invariant(&*self);
        }
        let ghost wanted = match path {
            Some(p) => Some(p@),
            None => None,
        };
        let ghost keep = |c: CookieView| !addressed(c, name@, domain@, wanted);
        let ghost all = self@;
        let mut out: Vec<CookieInfo> = Vec::new();
        let mut i: usize = 0;
        proof {
            reveal(Seq::filter);
            assert(all.take(0) =~= Seq::empty());
            assert(cookies_view(out@) =~= Seq::empty());
        }
        while i < self.cookies.len()
            invariant
                i <= self.cookies@.len(),
                all == cookies_view(self.cookies@),
                wanted == (match path {
                    Some(p) => Some(p@),
                    None => None,
                }),
                keep == |c: CookieView| !addressed(c, name@, domain@, wanted),
                cookies_view(out@) == all.take(i as int).filter(keep),
            decreases self.cookies@.len() - i,
        {
            let ghost before = out@;
            proof {
                reveal(Seq::filter);
                assert(all.take(i + 1).drop_last() =~= all.take(i as int));
            }
            let c: &CookieInfo = &self.cookies[i];
            assert(all[i as int] == c@);
            let path_fits: bool = match path {
                Some(p) => text_eq(c.path.as_str(), p),
                None => true,
            };
            if !(text_eq(c.name.as_str(), name) && text_eq(c.domain.as_str(), domain)
                && path_fits) {
                out.push(c.copy());
                assert(cookies_view(out@) =~= cookies_view(before).push(all[i as int]));
            }
            i = i + 1;
        }
        proof {
            assert(all.take(i as int) =~= all);
            lemma_filter_keeps_unique(all, keep);
        }
        self.cookies = out;
    }

    /// Deletes the cookies of a domain.
    pub fn clear_domain(&mut self, domain: &str)
        ensures
            final(self)@ == cookies_without_domain(old(self)@, domain@),
    {
        proof {
            use_type_invariant(&*self);
        }
        let ghost keep = |c: CookieView| c.domain != domain@;
        let ghost all = self@;
        let mut out: Vec<CookieInfo> = Vec::new();
        let mut i: usize = 0;
        proof {
            reveal(Seq::filter);
            assert(all.take(0) =~= Seq::empty());
            assert(cookies_view(out@) =~= Seq::empty());
        }
        while i < self.cookies.len()
            invariant
                i <= self.cookies@.len(),
                all == cookies_view(self.cookies@),
                keep == |c: CookieView| c.domain != domain@,
                cookies_view(out@) == all.take(i as int).filter(keep),
            decreases self.cookies@.len() - i,
        {
            let ghost before = out@;
            proof {
                reveal(Seq::filter);
                assert(all.take(i + 1).drop_last() =~= all.take(i as int));
            }
            let c: &CookieInfo = &self.cookies[i];
            assert(all[i as int] == c@);
            if !text_eq(c.domain.as_str(), domain) {
                out.push(c.copy());
                assert(cookies_view(out@) =~= cookies_view(before).push(all[i as int]));
            }
            i = i + 1;
        }
        proof {
            assert(all.take(i as int) =~= all);
            lemma_filter_keeps_unique(all, keep);
        }
        self.cookies = out;
    }

    /// Deletes all cookies.
    pub fn clear(&mut self)
        ensures
            final(self)@ == Seq::<CookieView>::empty(),
    {
        self.cookies = Vec::new();
        assert(self@ =~= Seq::<CookieView>::empty());
    }
}

} // verus!
