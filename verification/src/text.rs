//! Text helpers: equality and order of strings, decimal numbers, ASCII case
//! and comma-separated lists.
use vstd::prelude::*;
use vstd::utf8::encode_utf8;

verus! {

/// How two strings stand to each other in byte order.
#[derive(Debug, Clone, Copy, PartialEq, Eq, Structural)]
pub enum TextOrder {
    Before,
    Same,
    After,
}

/// Lexicographic order of byte sequences.
pub open spec fn bytes_before(a: Seq<u8>, b: Seq<u8>) -> bool
    decreases a.len(),
{
    if b.len() == 0 {
        false
    } else if a.len() == 0 {
        true
    } else if a[0] == b[0] {
        bytes_before(a.drop_first(), b.drop_first())
    } else {
        a[0] < b[0]
    }
}

/// The order in which an ordered map keeps its string keys: lexicographic by
/// UTF-8 bytes.
pub open spec fn text_before(a: Seq<char>, b: Seq<char>) -> bool {
    bytes_before(encode_utf8(a), encode_utf8(b))
}

/// Every text of `s` comes before all that follow it.
pub open spec fn strictly_sorted(s: Seq<Seq<char>>) -> bool {
    forall|i: int, j: int| 0 <= i < j < s.len() ==> #[trigger] text_before(s[i], s[j])
}

/// The texts of `set`, each once, in order.
pub open spec fn sorted_texts(set: Set<Seq<char>>) -> Seq<Seq<char>> {
    choose|s: Seq<Seq<char>>| strictly_sorted(s) && #[trigger] s.to_set() == set
}

pub proof fn lemma_utf8_injective(a: Seq<char>, b: Seq<char>)
    ensures
        encode_utf8(a) == encode_utf8(b) <==> a == b,
{
    vstd::utf8::encode_utf8_decode_utf8(a);
    vstd::utf8::encode_utf8_decode_utf8(b);
}

pub(crate) proof fn lemma_bytes_before_at(a: Seq<u8>, b: Seq<u8>, n: int)
    requires
        0 <= n <= a.len(),
        n <= b.len(),
        a.take(n) == b.take(n),
    ensures
        n == a.len() && n == b.len() ==> a == b,
        n == a.len() && n < b.len() ==> bytes_before(a, b),
        n < a.len() && n == b.len() ==> bytes_before(b, a),
        n < a.len() && n < b.len() && a[n] < b[n] ==> bytes_before(a, b),
        n < a.len() && n < b.len() && b[n] < a[n] ==> bytes_before(b, a),
    decreases n,
{
    if n > 0 {
        assert(a[0] == a.take(n)[0] && b[0] == b.take(n)[0]);
        assert(a.drop_first().take(n - 1) =~= a.take(n).drop_first());
        assert(b.drop_first().take(n - 1) =~= b.take(n).drop_first());
        lemma_bytes_before_at(a.drop_first(), b.drop_first(), n - 1);
        assert(a =~= seq![a[0]] + a.drop_first());
        assert(b =~= seq![b[0]] + b.drop_first());
    } else {
        if a.len() == 0 && b.len() == 0 {
            assert(a =~= b);
        }
    }
}

proof fn lemma_bytes_irreflexive(a: Seq<u8>)
    ensures
        !bytes_before(a, a),
    decreases a.len(),
{
    if a.len() > 0 {
        lemma_bytes_irreflexive(a.drop_first());
    }
}

proof fn lemma_bytes_transitive(a: Seq<u8>, b: Seq<u8>, c: Seq<u8>)
    requires
        bytes_before(a, b),
        bytes_before(b, c),
    ensures
        bytes_before(a, c),
    decreases a.len(),
{
    if a.len() > 0 && b.len() > 0 && c.len() > 0 && a[0] == b[0] && b[0] == c[0] {
        lemma_bytes_transitive(a.drop_first(), b.drop_first(), c.drop_first());
    }
}

/// No text comes before itself, and the order carries over a middle text.
pub proof fn lemma_text_order(a: Seq<char>, b: Seq<char>, c: Seq<char>)
    ensures
        !text_before(a, a),
        text_before(a, b) && text_before(b, c) ==> text_before(a, c),
        text_before(a, b) ==> !text_before(b, a) && a != b,
{
    lemma_bytes_irreflexive(encode_utf8(a));
    if text_before(a, b) && text_before(b, c) {
        lemma_bytes_transitive(encode_utf8(a), encode_utf8(b), encode_utf8(c));
    }
    if text_before(a, b) && text_before(b, a) {
        lemma_bytes_transitive(encode_utf8(a), encode_utf8(b), encode_utf8(a));
    }
}

/// A strictly sorted list is the only one with its texts.
pub proof fn lemma_sorted_texts(s: Seq<Seq<char>>)
    requires
        strictly_sorted(s),
    ensures
        sorted_texts(s.to_set()) == s,
{
    let t = sorted_texts(s.to_set());
    assert(strictly_sorted(s) && s.to_set() == s.to_set());
    lemma_sorted_unique(s, t);
}

proof fn lemma_bytes_total(a: Seq<u8>, b: Seq<u8>)
    ensures
        bytes_before(a, b) || bytes_before(b, a) || a == b,
    decreases a.len(),
{
    if a.len() > 0 && b.len() > 0 && a[0] == b[0] {
        lemma_bytes_total(a.drop_first(), b.drop_first());
        assert(a =~= seq![a[0]] + a.drop_first());
        assert(b =~= seq![b[0]] + b.drop_first());
    } else if a.len() == 0 && b.len() == 0 {
        assert(a =~= b);
    }
}

proof fn lemma_sorted_insert(s: Seq<Seq<char>>, x: Seq<char>) -> (t: Seq<Seq<char>>)
    requires
        strictly_sorted(s),
        !s.contains(x),
    ensures
        strictly_sorted(t),
        t.to_set() == s.to_set().insert(x),
    decreases s.len(),
{
    if s.len() == 0 || text_before(s.last(), x) {
        let t = s.push(x);
        assert forall|i: int, j: int| 0 <= i < j < t.len() implies #[trigger] text_before(
            t[i],
            t[j],
        ) by {
            if j < s.len() {
                assert(text_before(s[i], s[j]));
            } else if i < s.len() - 1 {
                assert(text_before(s[i], s[s.len() - 1]));
                lemma_text_order(s[i], s.last(), x);
            }
        }
        assert forall|y: Seq<char>| s.to_set().insert(x).contains(y) implies t.to_set().contains(
            y,
        ) by {
            if s.contains(y) {
                assert(t[s.index_of(y)] == y);
            } else {
                assert(t[s.len() as int] == y);
            }
        }
        assert forall|y: Seq<char>| t.to_set().contains(y) implies s.to_set().insert(x).contains(
            y,
        ) by {
            let i = t.index_of(y);
            if i < s.len() {
                assert(s[i] == y);
            }
        }
        assert(t.to_set() =~= s.to_set().insert(x));
        t
    } else {
        let last = s.last();
        assert(s.contains(last));
        lemma_bytes_total(encode_utf8(last), encode_utf8(x));
        lemma_utf8_injective(last, x);
        let front = s.drop_last();
        assert forall|i: int, j: int| 0 <= i < j < front.len() implies #[trigger] text_before(
            front[i],
            front[j],
        ) by {
            assert(text_before(s[i], s[j]));
        }
        assert forall|i: int| 0 <= i < front.len() implies text_before(
            #[trigger] front[i],
            last,
        ) by {
            assert(text_before(s[i], s[s.len() - 1]));
        }
        if front.contains(x) {
            assert(s[front.index_of(x)] == x);
        }
        let inner = lemma_sorted_insert(front, x);
        let t = inner.push(last);
        assert forall|i: int, j: int| 0 <= i < j < t.len() implies #[trigger] text_before(
            t[i],
            t[j],
        ) by {
            if j < inner.len() {
                assert(text_before(inner[i], inner[j]));
            } else {
                assert(inner.to_set().contains(inner[i]));
                if inner[i] != x {
                    assert(front.to_set().contains(inner[i]));
                    assert(text_before(front[front.index_of(inner[i])], last));
                }
            }
        }
        assert forall|y: Seq<char>| s.to_set().insert(x).contains(y) implies t.to_set().contains(
            y,
        ) by {
            if y == last {
                assert(t[inner.len() as int] == y);
            } else {
                if s.contains(y) {
                    assert(front[s.index_of(y)] == y);
                    assert(front.to_set().contains(y));
                }
                assert(inner.to_set().contains(y));
                assert(t[inner.index_of(y)] == y);
            }
        }
        assert forall|y: Seq<char>| t.to_set().contains(y) implies s.to_set().insert(x).contains(
            y,
        ) by {
            let i = t.index_of(y);
            if i < inner.len() {
                assert(inner[i] == y);
                assert(inner.to_set().contains(y));
                if y != x {
                    assert(front.to_set().contains(y));
                    assert(s[front.index_of(y)] == y);
                }
            } else {
                assert(s.contains(y));
            }
        }
        assert(t.to_set() =~= s.to_set().insert(x));
        t
    }
}

proof fn lemma_sorted_exists(set: Set<Seq<char>>) -> (s: Seq<Seq<char>>)
    requires
        set.finite(),
    ensures
        strictly_sorted(s),
        s.to_set() == set,
    decreases set.len(),
{
    if set.is_empty() {
        let s = Seq::<Seq<char>>::empty();
        assert(s.to_set() =~= set);
        s
    } else {
        let x = set.choose();
        let rest = lemma_sorted_exists(set.remove(x));
        assert(!rest.contains(x)) by {
            if rest.contains(x) {
                assert(rest.to_set().contains(x));
            }
        }
        let s = lemma_sorted_insert(rest, x);
        assert(s.to_set() =~= set);
        s
    }
}

/// The sorted list of a finite set is sorted and holds just its texts.
pub proof fn lemma_sorted_texts_of(set: Set<Seq<char>>)
    requires
        set.finite(),
    ensures
        strictly_sorted(sorted_texts(set)),
        sorted_texts(set).to_set() == set,
        forall|x: Seq<char>| set.contains(x) <==> #[trigger] sorted_texts(set).contains(x),
{
    let s = lemma_sorted_exists(set);
    assert(strictly_sorted(s) && s.to_set() == set);
    assert forall|x: Seq<char>| set.contains(x) <==> #[trigger] sorted_texts(set).contains(x) by {
        assert(sorted_texts(set).to_set().contains(x) <==> sorted_texts(set).contains(x));
    }
}

proof fn lemma_sorted_unique(s: Seq<Seq<char>>, t: Seq<Seq<char>>)
    requires
        strictly_sorted(s),
        strictly_sorted(t),
        s.to_set() == t.to_set(),
    ensures
        s == t,
    decreases s.len(),
{
    if s.len() == 0 {
        if t.len() > 0 {
            assert(t.to_set().contains(t[0]));
            assert(s.contains(t[0]));
        }
        assert(s =~= t);
    } else {
        assert(s.to_set().contains(s.last()));
        assert(t.contains(s.last()));
        assert(t.len() > 0);
        assert(t.to_set().contains(t.last()));
        assert(s.contains(t.last()));
        let i = s.index_of(t.last());
        let j = t.index_of(s.last());
        if s.last() != t.last() {
            assert(i < s.len() - 1);
            assert(j < t.len() - 1);
            assert(text_before(s[i], s[s.len() - 1]));
            assert(text_before(t[j], t[t.len() - 1]));
            lemma_text_order(s.last(), t.last(), s.last());
            assert(false);
        }
        let s1 = s.drop_last();
        let t1 = t.drop_last();
        assert(s1.to_set() =~= t1.to_set()) by {
            assert forall|x: Seq<char>| s1.to_set().contains(x) implies t1.to_set().contains(x) by {
                lemma_drop_last_transfer(s, t, x);
            }
            assert forall|x: Seq<char>| t1.to_set().contains(x) implies s1.to_set().contains(x) by {
                lemma_drop_last_transfer(t, s, x);
            }
        }
        assert(strictly_sorted(s1)) by {
            assert forall|i: int, j: int| 0 <= i < j < s1.len() implies #[trigger] text_before(
                s1[i],
                s1[j],
            ) by {
                assert(text_before(s[i], s[j]));
            }
        }
        assert(strictly_sorted(t1)) by {
            assert forall|i: int, j: int| 0 <= i < j < t1.len() implies #[trigger] text_before(
                t1[i],
                t1[j],
            ) by {
                assert(text_before(t[i], t[j]));
            }
        }
        lemma_sorted_unique(s1, t1);
        assert(s =~= s1.push(s.last()));
        assert(t =~= t1.push(t.last()));
    }
}

proof fn lemma_drop_last_transfer(s: Seq<Seq<char>>, t: Seq<Seq<char>>, x: Seq<char>)
    requires
        strictly_sorted(s),
        s.to_set() == t.to_set(),
        s.len() > 0,
        t.len() > 0,
        s.last() == t.last(),
        s.drop_last().to_set().contains(x),
    ensures
        t.drop_last().to_set().contains(x),
{
    assert(s.drop_last().contains(x));
    let i = s.drop_last().index_of(x);
    assert(s[i] == x);
    assert(text_before(s[i], s[s.len() - 1]));
    lemma_text_order(x, s.last(), x);
    assert(s.contains(x));
    assert(s.to_set().contains(x));
    assert(t.contains(x));
    let j = t.index_of(x);
    assert(t.drop_last()[j] == x);
}

/// Orders two strings by their UTF-8 bytes.
pub fn text_order(a: &str, b: &str) -> (r: TextOrder)
    ensures
        r == TextOrder::Same <==> a@ == b@,
        r == TextOrder::Before <==> text_before(a@, b@),
        r == TextOrder::After <==> text_before(b@, a@),
{
    let x: &[u8] = a.as_bytes();
    let y: &[u8] = b.as_bytes();
    let mut i: usize = 0;
    while i < x.len() && i < y.len() && x[i] == y[i]
        invariant
            i <= x@.len(),
            i <= y@.len(),
            x@.take(i as int) == y@.take(i as int),
        decreases x@.len() - i,
    {
        assert(x@.take(i + 1) =~= x@.take(i as int).push(x@[i as int]));
        assert(y@.take(i + 1) =~= y@.take(i as int).push(y@[i as int]));
        i = i + 1;
    }
    proof {
        lemma_bytes_before_at(x@, y@, i as int);
        lemma_bytes_irreflexive(x@);
        lemma_utf8_injective(a@, b@);
        if bytes_before(x@, y@) && bytes_before(y@, x@) {
            lemma_bytes_transitive(x@, y@, x@);
        }
    }
    if i < x.len() && i < y.len() {
        if x[i] < y[i] {
            TextOrder::Before
        } else {
            TextOrder::After
        }
    } else if i < y.len() {
        TextOrder::Before
    } else if i < x.len() {
        TextOrder::After
    } else {
        TextOrder::Same
    }
}

/// Whether two strings hold the same characters.
pub fn text_eq(a: &str, b: &str) -> (r: bool)
    ensures
        r == (a@ == b@),
{
    match text_order(a, b) {
        TextOrder::Same => true,
        _ => false,
    }
}

/// The character of a decimal digit.
pub open spec fn digit_char(d: nat) -> char {
    (48 + d) as char
}

/// `n` in decimal, without leading zeros.
pub open spec fn decimal_text(n: nat) -> Seq<char>
    decreases n,
{
    if n < 10 {
        seq![digit_char(n)]
    } else {
        decimal_text(n / 10).push(digit_char(n % 10))
    }
}

fn digit(d: u64) -> (r: &'static str)
    requires
        d < 10,
    ensures
        r@ == seq![digit_char(d as nat)],
{
    proof {
        reveal_strlit("0");
        reveal_strlit("1");
        reveal_strlit("2");
        reveal_strlit("3");
        reveal_strlit("4");
        reveal_strlit("5");
        reveal_strlit("6");
        reveal_strlit("7");
        reveal_strlit("8");
        reveal_strlit("9");
    }
    let r: &'static str = match d {
        0 => "0",
        1 => "1",
        2 => "2",
        3 => "3",
        4 => "4",
        5 => "5",
        6 => "6",
        7 => "7",
        8 => "8",
        _ => "9",
    };
    assert(r@ =~= seq![digit_char(d as nat)]);
    r
}

/// Writes a number in decimal.
pub fn decimal(n: u64) -> (r: String)
    ensures
        r@ == decimal_text(n as nat),
    decreases n,
{
    if n < 10 {
        digit(n).to_owned()
    } else {
        let mut s: String = decimal(n / 10);
        let ghost before = s@;
        s.append(digit(n % 10));
        assert(s@ =~= before.push(digit_char((n % 10) as nat)));
        s
    }
}

/// `n` in decimal, with a minus sign where it is negative.
pub open spec fn signed_text(n: i64) -> Seq<char> {
    if n < 0 {
        "-"@ + decimal_text((-n) as nat)
    } else {
        decimal_text(n as nat)
    }
}

/// Writes a number in decimal, with a minus sign where it is negative.
pub fn signed(n: i64) -> (r: String)
    ensures
        r@ == signed_text(n),
{
    if n >= 0 {
        return decimal(n as u64);
    }
    let mut s: String = "-".to_owned();
    let size: u64 = if n == i64::MIN {
        0x8000_0000_0000_0000
    } else {
        (-n) as u64
    };
    let number: String = decimal(size);
    s.append(number.as_str());
    s
}

/// An ASCII upper-case letter in lower case; any other character unchanged.
pub open spec fn ascii_lower_char(c: char) -> char {
    if 'A' <= c && c <= 'Z' {
        ((c as u32 + 32) as u32) as char
    } else {
        c
    }
}

/// ASCII letters in lower case, everything else unchanged.
pub open spec fn ascii_lower(s: Seq<char>) -> Seq<char> {
    s.map_values(|c: char| ascii_lower_char(c))
}

/// The characters of a string.
pub fn chars_of(s: &str) -> (r: Vec<char>)
    ensures
        r@ == s@,
{
    let mut out: Vec<char> = Vec::new();
    for c in it: s.chars()
        invariant
            out@ == it.seq().take(it.index()),
            it.seq() == s@,
    {
        out.push(c);
        assert(it.seq().take(it.index() + 1) =~= it.seq().take(it.index()).push(c));
    }
    assert(out@ =~= s@);
    out
}

/// Whether `s` in ASCII lower case is `t`.
pub fn ascii_lower_eq(s: &str, t: &str) -> (r: bool)
    ensures
        r == (ascii_lower(s@) == t@),
{
    let a: Vec<char> = chars_of(s);
    let b: Vec<char> = chars_of(t);
    if a.len() != b.len() {
        return false;
    }
    let mut i: usize = 0;
    while i < a.len()
        invariant
            i <= a@.len(),
            a@.len() == b@.len(),
            a@ == s@,
            b@ == t@,
            forall|j: int| 0 <= j < i ==> ascii_lower_char(a@[j]) == b@[j],
        decreases a@.len() - i,
    {
        let c: char = a[i];
        let d: char = b[i];
        proof {
            vstd::utf8::char_u32_cast(d, d as u32);
        }
        let same: bool = if 'A' <= c && c <= 'Z' {
            c as u32 + 32 == d as u32
        } else {
            c == d
        };
        if !same {
            assert(ascii_lower(s@)[i as int] != t@[i as int]);
            return false;
        }
        i = i + 1;
    }
    assert(ascii_lower(s@) =~= t@);
    true
}

/// The characters with the Unicode `White_Space` property.
pub open spec fn is_white_space(c: char) -> bool {
    ||| 0x9 <= c as u32 <= 0xd
    ||| c as u32 == 0x20
    ||| c as u32 == 0x85
    ||| c as u32 == 0xa0
    ||| c as u32 == 0x1680
    ||| 0x2000 <= c as u32 <= 0x200a
    ||| c as u32 == 0x2028
    ||| c as u32 == 0x2029
    ||| c as u32 == 0x202f
    ||| c as u32 == 0x205f
    ||| c as u32 == 0x3000
}

fn white_space(c: char) -> (r: bool)
    ensures
        r == is_white_space(c),
{
    let u: u32 = c as u32;
    (0x9 <= u && u <= 0xd) || u == 0x20 || u == 0x85 || u == 0xa0 || u == 0x1680 || (0x2000 <= u
        && u <= 0x200a) || u == 0x2028 || u == 0x2029 || u == 0x202f || u == 0x205f || u == 0x3000
}

/// `s` without white space at its start.
pub open spec fn trim_start(s: Seq<char>) -> Seq<char>
    decreases s.len(),
{
    if s.len() > 0 && is_white_space(s[0]) {
        trim_start(s.drop_first())
    } else {
        s
    }
}

/// `s` without white space at its end.
pub open spec fn trim_end(s: Seq<char>) -> Seq<char>
    decreases s.len(),
{
    if s.len() > 0 && is_white_space(s.last()) {
        trim_end(s.drop_last())
    } else {
        s
    }
}

/// `s` without white space at either end.
pub open spec fn trim(s: Seq<char>) -> Seq<char> {
    trim_end(trim_start(s))
}

/// `s.subrange(i, j)` is one of the pieces that the commas of `s` separate.
pub open spec fn is_piece(s: Seq<char>, i: int, j: int) -> bool {
    &&& 0 <= i <= j <= s.len()
    &&& i == 0 || s[i - 1] == ','
    &&& j == s.len() || s[j] == ','
    &&& forall|k: int| i <= k < j ==> s[k] != ','
}

/// Some comma-separated piece of `s` is `word`, white space around it aside.
pub open spec fn lists_word(s: Seq<char>, word: Seq<char>) -> bool {
    exists|i: int, j: int|
        #[trigger] is_piece(s, i, j) && trim(s.subrange(i, j)) == word
}

fn piece_is(s: &Vec<char>, from: usize, to: usize, word: &Vec<char>) -> (r: bool)
    requires
        from <= to <= s@.len(),
    ensures
        r == (trim(s@.subrange(from as int, to as int)) == word@),
{
    let mut a: usize = from;
    while a < to && white_space(s[a])
        invariant
            from <= a <= to <= s@.len(),
            trim_start(s@.subrange(from as int, to as int)) == trim_start(
                s@.subrange(a as int, to as int),
            ),
        decreases to - a,
    {
        assert(s@.subrange(a as int, to as int).drop_first() =~= s@.subrange(a + 1, to as int));
        a = a + 1;
    }
    let mut b: usize = to;
    while b > a && white_space(s[b - 1])
        invariant
            a <= b <= to <= s@.len(),
            trim_end(s@.subrange(a as int, to as int)) == trim_end(
                s@.subrange(a as int, b as int),
            ),
        decreases b,
    {
        assert(s@.subrange(a as int, b as int).drop_last() =~= s@.subrange(a as int, b - 1));
        b = b - 1;
    }
    if b - a != word.len() {
        return false;
    }
    let mut i: usize = 0;
    while i < word.len()
        invariant
            i <= word@.len(),
            b - a == word@.len(),
            from <= a <= b <= to <= s@.len(),
            trim(s@.subrange(from as int, to as int)) == s@.subrange(a as int, b as int),
            forall|j: int| 0 <= j < i ==> s@[a + j] == word@[j],
        decreases word@.len() - i,
    {
        if s[a + i] != word[i] {
            assert(s@.subrange(a as int, b as int)[i as int] != word@[i as int]);
            return false;
        }
        i = i + 1;
    }
    assert(s@.subrange(a as int, b as int) =~= word@);
    true
}

/// Whether a comma-separated list names `word`.
pub fn list_names(list: &str, word: &str) -> (r: bool)
    ensures
        r == lists_word(list@, word@),
{
    let s: Vec<char> = chars_of(list);
    let w: Vec<char> = chars_of(word);
    let mut start: usize = 0;
    let mut i: usize = 0;
    while i < s.len()
        invariant
            start <= i <= s@.len(),
            s@ == list@,
            w@ == word@,
            start == 0 || s@[start - 1] == ',',
            forall|k: int| start <= k < i ==> s@[k] != ',',
            forall|a: int, b: int|
                b < start && #[trigger] is_piece(s@, a, b) ==> trim(s@.subrange(a, b)) != word@,
        decreases s@.len() - i,
    {
        if s[i] == ',' {
            assert(is_piece(s@, start as int, i as int));
            if piece_is(&s, start, i, &w) {
                return true;
            }
            assert forall|a: int, b: int|
                b < i + 1 && #[trigger] is_piece(s@, a, b) implies trim(s@.subrange(a, b))
                != word@ by {
                lemma_piece_between(s@, start as int, i as int, a, b);
            }
            start = i + 1;
        }
        i = i + 1;
    }
    assert(is_piece(s@, start as int, i as int));
    let r: bool = piece_is(&s, start, i, &w);
    proof {
        if !r {
            assert forall|a: int, b: int|
                #[trigger] is_piece(s@, a, b) implies trim(s@.subrange(a, b)) != word@ by {
                lemma_piece_between(s@, start as int, i as int, a, b);
            }
        }
    }
    r
}

proof fn lemma_piece_between(s: Seq<char>, start: int, end: int, a: int, b: int)
    requires
        is_piece(s, start, end),
        is_piece(s, a, b),
        b <= end,
    ensures
        b < start || (a == start && b == end),
{
    if b >= start {
        if b < end {
            assert(s[b] != ',');
        }
        if a < start {
            assert(s[start - 1] != ',');
        }
        if a > start {
            assert(s[a - 1] != ',');
        }
    }
}

} // verus!
