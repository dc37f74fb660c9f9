//! Laws of the cookie jar.
use crate::cookies::{
    cookie_index, cookie_put, cookies_put, cookies_without, cookies_without_domain,
    lemma_cookie_index, same_cookie, unique_cookies, CookieView,
};
use vstd::prelude::*;

verus! {

pub(crate) proof fn lemma_put_one(jar: Seq<CookieView>, c: CookieView, other: CookieView)
    ensures
        cookie_put(jar, c).contains(c),
        !same_cookie(other, c) ==> (jar.contains(other) <==> cookie_put(jar, c).contains(other)),
        cookie_put(jar, c).contains(other) ==> jar.contains(other) || other == c,
        unique_cookies(jar) ==> unique_cookies(cookie_put(jar, c)),
{
    lemma_cookie_index(jar, c);
    let after = cookie_put(jar, c);
    match cookie_index(jar, c) {
        Some(i) => {
            assert(after[i] == c);
            if jar.contains(other) && !same_cookie(other, c) {
                assert(after[jar.index_of(other)] == other);
            }
        },
        None => {
            assert(after[jar.len() as int] == c);
            if jar.contains(other) {
                assert(after[jar.index_of(other)] == other);
            }
        },
    }
    if after.contains(other) && other != c {
        assert(jar[after.index_of(other)] == other);
    }
}

proof fn lemma_put_list(jar: Seq<CookieView>, cs: Seq<CookieView>, other: CookieView)
    ensures
        cookies_put(jar, cs).contains(other) ==> jar.contains(other) || cs.contains(other),
        (forall|i: int| 0 <= i < cs.len() ==> !same_cookie(#[trigger] cs[i], other)) ==> (
        jar.contains(other) <==> cookies_put(jar, cs).contains(other)),
        unique_cookies(jar) ==> unique_cookies(cookies_put(jar, cs)),
    decreases cs.len(),
{
    if cs.len() > 0 {
        let front = cs.drop_last();
        lemma_put_list(jar, front, other);
        lemma_put_one(cookies_put(jar, front), cs.last(), other);
        if front.contains(other) {
            assert(cs[front.index_of(other)] == other);
        }
        assert(cs[cs.len() - 1] == cs.last());
        if forall|i: int| 0 <= i < cs.len() ==> !same_cookie(#[trigger] cs[i], other) {
            assert forall|i: int| 0 <= i < front.len() implies !same_cookie(
                #[trigger] front[i],
                other,
            ) by {
                assert(!same_cookie(cs[i], other));
            }
        }
    }
}

proof fn lemma_put_holds(jar: Seq<CookieView>, cs: Seq<CookieView>, i: int)
    requires
        0 <= i < cs.len(),
        forall|j: int| i < j < cs.len() ==> !same_cookie(#[trigger] cs[j], cs[i]),
    ensures
        cookies_put(jar, cs).contains(cs[i]),
    decreases cs.len(),
{
    let front = cs.drop_last();
    lemma_put_one(cookies_put(jar, front), cs.last(), cs[i]);
    if i < cs.len() - 1 {
        assert forall|j: int| i < j < front.len() implies !same_cookie(
            #[trigger] front[j],
            front[i],
        ) by {
            assert(!same_cookie(cs[j], cs[i]));
        }
        lemma_put_holds(jar, front, i);
        assert(!same_cookie(cs[cs.len() - 1], cs[i]));
    }
}

/// A cookie that is set is there afterwards, whatever the jar held: of the
/// cookies of a list with one name, domain and path the last one is in the jar,
/// and in a jar without duplicates it is the only one with them.
pub proof fn law_cookies_that_are_set_are_there(
    jar: Seq<CookieView>,
    cs: Seq<CookieView>,
    i: int,
    rival: CookieView,
)
    requires
        0 <= i < cs.len(),
        forall|j: int|
            i < j < cs.len() ==> (#[trigger] cs[j]).name != cs[i].name || cs[j].domain
                != cs[i].domain || cs[j].path != cs[i].path,
    ensures
        cookies_put(jar, cs).contains(cs[i]),
        (forall|a: int, b: int|
            0 <= a < b < jar.len() ==> (#[trigger] jar[a]).name != (#[trigger] jar[b]).name
                || jar[a].domain != jar[b].domain || jar[a].path != jar[b].path) && rival.name
            == cs[i].name && rival.domain == cs[i].domain && rival.path == cs[i].path
            && rival != cs[i] ==> !cookies_put(jar, cs).contains(rival),
{
    let after = cookies_put(jar, cs);
    lemma_put_holds(jar, cs, i);
    lemma_put_list(jar, cs, rival);
    if unique_cookies(jar) && same_cookie(rival, cs[i]) && after.contains(rival) {
        let p = after.index_of(rival);
        let q = after.index_of(cs[i]);
        if p < q {
            assert(!same_cookie(after[p], after[q]));
        } else if q < p {
            assert(!same_cookie(after[q], after[p]));
        }
    }
}

/// Setting cookies touches no other: a cookie that no cookie of the list has
/// the name, domain and path of stays if it was there, and nothing comes into
/// the jar that is not in the list. No name, domain and path stands twice in a
/// jar in which none did.
pub proof fn law_other_cookies_stay(
    jar: Seq<CookieView>,
    cs: Seq<CookieView>,
    other: CookieView,
)
    ensures
        (forall|i: int|
            0 <= i < cs.len() ==> (#[trigger] cs[i]).name != other.name || cs[i].domain
                != other.domain || cs[i].path != other.path) ==> (cookies_put(jar, cs).contains(
            other,
        ) <==> jar.contains(other)),
        cookies_put(jar, cs).contains(other) ==> jar.contains(other) || cs.contains(other),
        (forall|a: int, b: int|
            0 <= a < b < jar.len() ==> (#[trigger] jar[a]).name != (#[trigger] jar[b]).name
                || jar[a].domain != jar[b].domain || jar[a].path != jar[b].path) ==> forall|
            a: int,
            b: int,
        |
            0 <= a < b < cookies_put(jar, cs).len() ==> (#[trigger] cookies_put(jar, cs)[a]).name
                != (#[trigger] cookies_put(jar, cs)[b]).name || cookies_put(jar, cs)[a].domain
                != cookies_put(jar, cs)[b].domain || cookies_put(jar, cs)[a].path != cookies_put(
                jar,
                cs,
            )[b].path,
{
    lemma_put_list(jar, cs, other);
    if forall|a: int, b: int|
        0 <= a < b < jar.len() ==> (#[trigger] jar[a]).name != (#[trigger] jar[b]).name
            || jar[a].domain != jar[b].domain || jar[a].path != jar[b].path {
        assert(unique_cookies(jar));
        let after = cookies_put(jar, cs);
        assert forall|a: int, b: int| 0 <= a < b < after.len() implies (#[trigger] after[a]).name
            != (#[trigger] after[b]).name || after[a].domain != after[b].domain || after[a].path
            != after[b].path by {
            assert(!same_cookie(after[a], after[b]));
        }
    }
}

/// Cookies keep their places: one that is set anew stands where the old one
/// stood, and new ones come behind all that were there.
pub proof fn law_cookies_keep_their_places(
    jar: Seq<CookieView>,
    cs: Seq<CookieView>,
    i: int,
)
    requires
        0 <= i < jar.len(),
    ensures
        jar.len() <= cookies_put(jar, cs).len() <= jar.len() + cs.len(),
        cookies_put(jar, cs)[i].name == jar[i].name,
        cookies_put(jar, cs)[i].domain == jar[i].domain,
        cookies_put(jar, cs)[i].path == jar[i].path,
    decreases cs.len(),
{
    if cs.len() > 0 {
        law_cookies_keep_their_places(jar, cs.drop_last(), i);
        lemma_cookie_index(cookies_put(jar, cs.drop_last()), cs.last());
    }
}

/// Setting cookies in two requests is setting them in one, and setting none
/// changes nothing.
pub proof fn law_cookies_are_set_in_turn(
    jar: Seq<CookieView>,
    first: Seq<CookieView>,
    second: Seq<CookieView>,
)
    ensures
        cookies_put(jar, first + second) == cookies_put(cookies_put(jar, first), second),
        cookies_put(jar, Seq::empty()) == jar,
    decreases second.len(),
{
    if second.len() == 0 {
        assert(first + second =~= first);
    } else {
        assert((first + second).drop_last() =~= first + second.drop_last());
        law_cookies_are_set_in_turn(jar, first, second.drop_last());
    }
}

/// Deleting looks at one cookie after the other: what a request addresses goes,
/// each of the others keeps its place among them.
pub proof fn law_deleting_keeps_the_order(
    jar: Seq<CookieView>,
    c: CookieView,
    name: Seq<char>,
    domain: Seq<char>,
    path: Option<Seq<char>>,
)
    ensures
        cookies_without(Seq::empty(), name, domain, path).len() == 0,
        cookies_without_domain(Seq::empty(), domain).len() == 0,
        cookies_without(jar.push(c), name, domain, path) == if c.name == name && c.domain == domain
            && (path is None || path == Some(c.path)) {
            cookies_without(jar, name, domain, path)
        } else {
            cookies_without(jar, name, domain, path).push(c)
        },
        cookies_without_domain(jar.push(c), domain) == if c.domain == domain {
            cookies_without_domain(jar, domain)
        } else {
            cookies_without_domain(jar, domain).push(c)
        },
{
    reveal(Seq::filter);
    assert(jar.push(c).drop_last() =~= jar);
}

/// A jar is without duplicates just when no two of its cookies have the same
/// name, domain and path.
pub proof fn law_jars_without_duplicates(jar: Seq<CookieView>)
    ensures
        unique_cookies(jar) <==> forall|a: int, b: int|
            0 <= a < b < jar.len() ==> (#[trigger] jar[a]).name != (#[trigger] jar[b]).name
                || jar[a].domain != jar[b].domain || jar[a].path != jar[b].path,
{
    if unique_cookies(jar) {
        assert forall|a: int, b: int| 0 <= a < b < jar.len() implies (#[trigger] jar[a]).name != (
        #[trigger] jar[b]).name || jar[a].domain != jar[b].domain || jar[a].path != jar[b].path by {
            assert(!same_cookie(jar[a], jar[b]));
        }
    }
}

} // verus!
