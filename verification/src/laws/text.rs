//! Laws of texts and JSON values.
use crate::json::{
    empty_object, int_number, lemma_member_at, whole_part, JsonNumber, JsonView,
};
use crate::text::{
    ascii_lower, decimal_text, is_piece, is_white_space, lemma_bytes_before_at,
    lemma_text_order, lists_word, signed_text, text_before, trim, trim_end, trim_start,
};
use vstd::arithmetic::power2::pow2;
use vstd::prelude::*;
use vstd::utf8::encode_utf8;

verus! {

/// The number that a text of decimal digits stands for.
pub open spec fn digits_value(s: Seq<char>) -> int
    decreases s.len(),
{
    if s.len() == 0 {
        0
    } else {
        digits_value(s.drop_last()) * 10 + (s.last() as u32 - '0' as u32)
    }
}

/// A number in decimal is read back as that number. It is made of digits alone
/// and does not start with a zero unless it is zero.
pub proof fn law_decimal_reads_back(n: nat, i: int)
    ensures
        digits_value(decimal_text(n)) == n,
        0 < decimal_text(n).len(),
        0 <= i < decimal_text(n).len() ==> '0' <= decimal_text(n)[i] && decimal_text(n)[i] <= '9',
        decimal_text(n)[0] == '0' ==> n == 0,
    decreases n,
{
    let s = decimal_text(n);
    reveal_with_fuel(digits_value, 2);
    if n >= 10 {
        law_decimal_reads_back(n / 10, i);
        assert(s.drop_last() =~= decimal_text(n / 10));
        assert(s[0] == decimal_text(n / 10)[0]);
    } else {
        assert(s.drop_last() =~= Seq::empty());
    }
}

/// A negative number is its size behind a minus sign.
pub proof fn law_signed_numbers(n: i64)
    ensures
        n >= 0 ==> signed_text(n) == decimal_text(n as nat),
        n < 0 ==> signed_text(n) == seq!['-'] + decimal_text((0 - n) as nat),
{
    reveal_strlit("-");
    assert("-"@ =~= seq!['-']);
}

/// Lower case is letter by letter: `A` to `Z` move by 32, all else stays.
pub proof fn law_lower_case(s: Seq<char>, i: int)
    requires
        0 <= i < s.len(),
    ensures
        ascii_lower(s).len() == s.len(),
        'A' <= s[i] && s[i] <= 'Z' ==> ascii_lower(s)[i] as u32 == s[i] as u32 + 32,
        !('A' <= s[i] && s[i] <= 'Z') ==> ascii_lower(s)[i] == s[i],
{
}

/// Texts are ordered by their UTF-8 bytes: where they first differ, the smaller
/// byte comes first, and a text comes before all that it starts.
pub proof fn law_texts_are_ordered_by_bytes(a: Seq<char>, b: Seq<char>, n: int)
    requires
        0 <= n <= encode_utf8(a).len(),
        n <= encode_utf8(b).len(),
        encode_utf8(a).take(n) == encode_utf8(b).take(n),
    ensures
        ({
            let x = encode_utf8(a);
            let y = encode_utf8(b);
            &&& n == x.len() && n < y.len() ==> text_before(a, b)
            &&& n < x.len() && n < y.len() && x[n] < y[n] ==> text_before(a, b)
            &&& text_before(a, b) ==> !text_before(b, a) && a != b
        }),
{
    lemma_bytes_before_at(encode_utf8(a), encode_utf8(b), n);
    lemma_text_order(a, b, a);
}

/// Trimming takes white space off both ends and nothing else.
pub proof fn law_trim(s: Seq<char>) -> (r: (int, int))
    ensures
        0 <= r.0 <= r.1 <= s.len(),
        trim(s) == s.subrange(r.0, r.1),
        forall|k: int| 0 <= k < r.0 ==> is_white_space(#[trigger] s[k]),
        forall|k: int| r.1 <= k < s.len() ==> is_white_space(#[trigger] s[k]),
        r.0 < r.1 ==> !is_white_space(s[r.0]) && !is_white_space(s[r.1 - 1]),
{
    let a = lemma_trim_start(s);
    let rest = s.subrange(a, s.len() as int);
    let b = lemma_trim_end(rest);
    assert(rest.subrange(0, b) =~= s.subrange(a, a + b));
    assert forall|k: int| a + b <= k < s.len() implies is_white_space(#[trigger] s[k]) by {
        assert(rest[k - a] == s[k]);
    }
    if b > 0 {
        assert(rest[b - 1] == s[a + b - 1]);
        assert(rest[0] == s[a]);
    }
    (a, a + b)
}

proof fn lemma_trim_start(s: Seq<char>) -> (a: int)
    ensures
        0 <= a <= s.len(),
        trim_start(s) == s.subrange(a, s.len() as int),
        forall|k: int| 0 <= k < a ==> is_white_space(#[trigger] s[k]),
        a < s.len() ==> !is_white_space(s[a]),
    decreases s.len(),
{
    if s.len() > 0 && is_white_space(s[0]) {
        let rest = s.drop_first();
        let a = lemma_trim_start(rest);
        assert(rest.subrange(a, rest.len() as int) =~= s.subrange(a + 1, s.len() as int));
        assert forall|k: int| 0 <= k < a + 1 implies is_white_space(#[trigger] s[k]) by {
            if k > 0 {
                assert(rest[k - 1] == s[k]);
            }
        }
        a + 1
    } else {
        assert(s.subrange(0, s.len() as int) =~= s);
        0
    }
}

proof fn lemma_trim_end(s: Seq<char>) -> (b: int)
    ensures
        0 <= b <= s.len(),
        trim_end(s) == s.subrange(0, b),
        forall|k: int| b <= k < s.len() ==> is_white_space(#[trigger] s[k]),
        b > 0 ==> !is_white_space(s[b - 1]),
    decreases s.len(),
{
    if s.len() > 0 && is_white_space(s.last()) {
        let rest = s.drop_last();
        let b = lemma_trim_end(rest);
        assert(rest.subrange(0, b) =~= s.subrange(0, b));
        assert forall|k: int| b <= k < s.len() implies is_white_space(#[trigger] s[k]) by {
            if k < s.len() - 1 {
                assert(rest[k] == s[k]);
            }
        }
        b
    } else {
        assert(s.subrange(0, s.len() as int) =~= s);
        s.len() as int
    }
}

/// The space, the tab and the line ends are white space; no other character of
/// ASCII is.
pub proof fn law_ascii_white_space(c: char)
    requires
        (c as u32) < 0x80,
    ensures
        is_white_space(c) <==> c == ' ' || 9 <= (c as u32) <= 13,
{
}

proof fn lemma_one_piece(a: Seq<char>, word: Seq<char>)
    requires
        forall|i: int| 0 <= i < a.len() ==> #[trigger] a[i] != ',',
    ensures
        lists_word(a, word) <==> trim(a) == word,
{
    let n = a.len() as int;
    assert(a.subrange(0, n) =~= a);
    assert(is_piece(a, 0, n));
    if lists_word(a, word) {
        let (i, j) = choose|i: int, j: int|
            #[trigger] is_piece(a, i, j) && trim(a.subrange(i, j)) == word;
        if i > 0 {
            assert(a[i - 1] != ',');
        }
        if j < n {
            assert(a[j] != ',');
        }
        assert(i == 0 && j == n);
    }
}

proof fn lemma_first_piece(a: Seq<char>, b: Seq<char>, i: int, j: int)
    requires
        forall|i: int| 0 <= i < a.len() ==> #[trigger] a[i] != ',',
        is_piece(a.push(',') + b, i, j),
    ensures
        i <= a.len() ==> i == 0 && j == a.len(),
{
    let s = a.push(',') + b;
    let n = a.len() as int;
    assert(s[n] == ',');
    if i <= n {
        if i > 0 {
            assert(a[i - 1] == s[i - 1]);
        }
        if j > n {
            assert(s[n] != ',');
        }
        if j < n {
            assert(a[j] == s[j]);
        }
    }
}

proof fn lemma_later_piece(a: Seq<char>, b: Seq<char>, i: int, j: int)
    requires
        0 <= i,
    ensures
        is_piece(b, i, j) <==> is_piece(a.push(',') + b, i + a.len() + 1, j + a.len() + 1),
{
    let s = a.push(',') + b;
    let n = a.len() as int;
    assert(s[n] == ',');
    assert forall|k: int| 0 <= k < b.len() implies #[trigger] b[k] == s[k + n + 1] by {}
    if is_piece(b, i, j) {
        assert forall|k: int| i + n + 1 <= k < j + n + 1 implies s[k] != ',' by {
            assert(b[k - n - 1] == s[k]);
        }
        assert(i > 0 ==> b[i - 1] == s[i + n]);
        assert(j < b.len() ==> b[j] == s[j + n + 1]);
        assert(is_piece(s, i + n + 1, j + n + 1));
    }
    if is_piece(s, i + n + 1, j + n + 1) {
        assert forall|k: int| i <= k < j implies b[k] != ',' by {
            assert(s[k + n + 1] != ',');
        }
        assert(i > 0 ==> b[i - 1] == s[i + n]);
        assert(j < b.len() ==> b[j] == s[j + n + 1]);
        assert(is_piece(b, i, j));
    }
}

/// A list names what one of its pieces is, white space around it aside: a list
/// without a comma is its one piece, and any other is the piece before its
/// first comma and the list behind it.
#[verifier::rlimit(30)]
pub proof fn law_list_names_its_pieces(a: Seq<char>, b: Seq<char>, word: Seq<char>)
    requires
        forall|i: int| 0 <= i < a.len() ==> #[trigger] a[i] != ',',
    ensures
        lists_word(a, word) <==> trim(a) == word,
        lists_word(a.push(',') + b, word) <==> trim(a) == word || lists_word(b, word),
{
    let s = a.push(',') + b;
    let n = a.len() as int;
    lemma_one_piece(a, word);
    assert(s.subrange(0, n) =~= a);
    if trim(a) == word {
        assert(is_piece(s, 0, n));
    }
    if lists_word(s, word) {
        let (i, j) = choose|i: int, j: int|
            #[trigger] is_piece(s, i, j) && trim(s.subrange(i, j)) == word;
        lemma_first_piece(a, b, i, j);
        if i > n {
            lemma_later_piece(a, b, i - n - 1, j - n - 1);
            assert(b.subrange(i - n - 1, j - n - 1) =~= s.subrange(i, j));
        }
    }
    if lists_word(b, word) {
        let (i, j) = choose|i: int, j: int|
            #[trigger] is_piece(b, i, j) && trim(b.subrange(i, j)) == word;
        lemma_later_piece(a, b, i, j);
        assert(s.subrange(i + n + 1, j + n + 1) =~= b.subrange(i, j));
    }
}

/// A member of an object is the first one under its key; a value that is no
/// object has none.
pub proof fn law_first_member_is_found(
    members: Seq<(Seq<char>, JsonView)>,
    key: Seq<char>,
    i: int,
    other: JsonView,
)
    requires
        0 <= i <= members.len(),
        forall|j: int| 0 <= j < i ==> (#[trigger] members[j]).0 != key,
    ensures
        i < members.len() && members[i].0 == key ==> JsonView::Object(members).get(key) == Some(
            members[i].1,
        ),
        i == members.len() ==> JsonView::Object(members).get(key) is None,
        other !is Object ==> other.get(key) is None,
{
    lemma_member_at(members, key, i);
}

/// A value is read as what it is and as nothing else.
pub proof fn law_values_are_read_as_what_they_are(j: JsonView, key: Seq<char>, other: Seq<char>)
    ensures
        j matches JsonView::Text(s) ==> j.as_text() == Some(s),
        j !is Text ==> j.as_text() is None,
        j matches JsonView::Array(v) ==> j.as_array() == Some(v),
        j !is Array ==> j.as_array() is None,
        j matches JsonView::Bool(b) ==> j.as_bool() == Some(b),
        j !is Bool ==> j.as_bool() is None,
        j matches JsonView::Number(JsonNumber::PosInt(n)) ==> j.as_u64() == Some(n),
        j !is Number ==> j.as_u64() is None && j.as_i64() is None && j.seconds() is None,
        j matches JsonView::Number(JsonNumber::PosInt(n)) ==> (n <= i64::MAX ==> j.as_i64() == Some(
            n as i64,
        )) && (n > i64::MAX ==> j.as_i64() is None),
        j matches JsonView::Number(JsonNumber::NegInt(n)) ==> j.as_i64() == Some(n) && j.as_u64()
            is None && j.seconds() == Some(n),
        j matches JsonView::Number(JsonNumber::Double(bits)) ==> j.as_i64() is None && j.as_u64()
            is None && j.seconds() == whole_part(bits),
        j.get(key) matches Some(v) ==> j.get_text(key) == v.as_text() && j.get_array(key)
            == v.as_array() && j.get_bool(key) == v.as_bool() && j.get_either(key, other) == Some(
            v,
        ),
        j.get(key) is None ==> j.get_text(key) is None && j.get_array(key) is None && j.get_bool(
            key,
        ) is None && j.get_either(key, other) == j.get(other),
        empty_object().get(key) is None && empty_object() is Object,
{
}

/// An integer is a non-negative number or a negative one, and is read back.
pub proof fn law_integers_read_back(n: i64)
    ensures
        JsonView::Number(int_number(n)).as_i64() == Some(n),
        JsonView::Number(int_number(n)).seconds() == Some(n),
        n >= 0 ==> int_number(n) == JsonNumber::PosInt(n as u64),
        n < 0 ==> int_number(n) == JsonNumber::NegInt(n),
{
}

/// The whole part of a double `(2^52 + fraction) * 2^(e - 1075)` is the largest
/// integer that is not larger. It is read for doubles of at least 1 and below
/// 2^63, whose exponents `e` are 1023 to 1085, and for no others.
pub proof fn law_whole_part_of_a_double(bits: u64)
    ensures
        ({
            let e = bits as int / 0x10_0000_0000_0000;
            let m = 0x10_0000_0000_0000 + bits as int % 0x10_0000_0000_0000;
            &&& whole_part(bits) is Some <==> 1023 <= e <= 1085
            &&& 1023 <= e < 1075 ==> whole_part(bits)->0 * pow2((1075 - e) as nat) <= m < (
            whole_part(bits)->0 + 1) * pow2((1075 - e) as nat)
            &&& 1075 <= e <= 1085 ==> whole_part(bits)->0 == m * pow2((e - 1075) as nat)
        }),
{
    let e = bits as int / 0x10_0000_0000_0000;
    let m = 0x10_0000_0000_0000 + bits as int % 0x10_0000_0000_0000;
    if 1023 <= e < 1075 {
        let p = pow2((1075 - e) as nat) as int;
        let q = m / p;
        vstd::arithmetic::power2::lemma_pow2_pos((1075 - e) as nat);
        vstd::arithmetic::div_mod::lemma_fundamental_div_mod(m, p);
        vstd::arithmetic::div_mod::lemma_mod_bound(m, p);
        vstd::arithmetic::div_mod::lemma_div_pos_is_pos(m, p);
        assert(q * p <= m < (q + 1) * p && q <= m) by (nonlinear_arith)
            requires
                m == p * q + m % p,
                0 <= m % p < p,
                0 <= q,
                0 < p,
        ;
    } else if 1075 <= e <= 1085 {
        let k = (e - 1075) as nat;
        vstd::arithmetic::power2::lemma2_to64();
        vstd::arithmetic::power2::lemma_pow2_pos(k);
        if k < 10 {
            vstd::arithmetic::power2::lemma_pow2_strictly_increases(k, 10);
        }
        let p = pow2(k) as int;
        assert(0 <= m * p <= 0x7fff_ffff_ffff_ffff) by (nonlinear_arith)
            requires
                0 <= m <= 0x1f_ffff_ffff_ffff,
                0 <= p <= 1024,
        ;
    }
}

} // verus!
