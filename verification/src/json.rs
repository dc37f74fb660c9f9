//! JSON values as the protocol and the session files carry them.
use crate::text::text_eq;
use vstd::arithmetic::power2::pow2;
use vstd::prelude::*;

verus! {

/// A JSON number: a non-negative integer, a negative one, or the bits of a
/// double for anything else.
#[derive(Debug, Clone, Copy, PartialEq, Eq, Structural)]
pub enum JsonNumber {
    PosInt(u64),
    NegInt(i64),
    Double(u64),
}

/// A JSON value.
#[derive(Debug, PartialEq, Eq)]
pub enum Json {
    Null,
    Bool(bool),
    Number(JsonNumber),
    Text(String),
    Array(Vec<Json>),
    Object(Vec<(String, Json)>),
}

/// The whole part of a double of at least 1 and below 2^63, read off its bits:
/// eleven bits of exponent `e` above 52 bits of fraction stand for
/// `(2^52 + fraction) * 2^(e - 1075)`. Nothing for any other double, a negative
/// one among them: its sign bit makes `e` too large.
pub open spec fn whole_part(bits: u64) -> Option<i64> {
    let e = bits / 0x10_0000_0000_0000;
    let m = 0x10_0000_0000_0000 + bits % 0x10_0000_0000_0000;
    if e < 1023 || e > 1085 {
        None
    } else if e >= 1075 {
        Some((m * pow2((e - 1075) as nat)) as i64)
    } else {
        Some((m / pow2((1075 - e) as nat) as int) as i64)
    }
}

/// What a JSON value says.
#[verifier::ext_equal]
pub enum JsonView {
    Null,
    Bool(bool),
    Number(JsonNumber),
    Text(Seq<char>),
    Array(Seq<JsonView>),
    Object(Seq<(Seq<char>, JsonView)>),
}

pub open spec fn json_view(j: Json) -> JsonView
    decreases j,
{
    match j {
        Json::Null => JsonView::Null,
        Json::Bool(b) => JsonView::Bool(b),
        Json::Number(n) => JsonView::Number(n),
        Json::Text(s) => JsonView::Text(s@),
        Json::Array(v) => JsonView::Array(
            Seq::new(
                v@.len(),
                |i: int|
                    if 0 <= i < v@.len() {
                        json_view(v@[i])
                    } else {
                        JsonView::Null
                    },
            ),
        ),
        Json::Object(v) => JsonView::Object(
            Seq::new(
                v@.len(),
                |i: int|
                    if 0 <= i < v@.len() {
                        (v@[i].0@, json_view(v@[i].1))
                    } else {
                        (Seq::empty(), JsonView::Null)
                    },
            ),
        ),
    }
}

impl View for Json {
    type V = JsonView;

    open spec fn view(&self) -> JsonView {
        json_view(*self)
    }
}

pub open spec fn array_view(v: Seq<Json>) -> Seq<JsonView> {
    v.map_values(|j: Json| j@)
}

pub open spec fn members_view(v: Seq<(String, Json)>) -> Seq<(Seq<char>, JsonView)> {
    v.map_values(|m: (String, Json)| (m.0@, m.1@))
}

pub open spec fn opt_view(j: Option<&Json>) -> Option<JsonView> {
    match j {
        Some(j) => Some(j@),
        None => None,
    }
}

/// The value of the first member under `key`.
pub open spec fn member(members: Seq<(Seq<char>, JsonView)>, key: Seq<char>) -> Option<JsonView>
    decreases members.len(),
{
    if members.len() == 0 {
        None
    } else if members[0].0 == key {
        Some(members[0].1)
    } else {
        member(members.drop_first(), key)
    }
}

impl JsonView {
    /// The member under `key`; nothing where the value is no object.
    pub open spec fn get(self, key: Seq<char>) -> Option<JsonView> {
        match self {
            JsonView::Object(members) => member(members, key),
            _ => None,
        }
    }

    pub open spec fn as_text(self) -> Option<Seq<char>> {
        match self {
            JsonView::Text(s) => Some(s),
            _ => None,
        }
    }

    pub open spec fn as_array(self) -> Option<Seq<JsonView>> {
        match self {
            JsonView::Array(v) => Some(v),
            _ => None,
        }
    }

    pub open spec fn as_bool(self) -> Option<bool> {
        match self {
            JsonView::Bool(b) => Some(b),
            _ => None,
        }
    }

    /// The integer, where it is one that an `i64` holds.
    pub open spec fn as_i64(self) -> Option<i64> {
        match self {
            JsonView::Number(JsonNumber::PosInt(n)) => if n <= i64::MAX {
                Some(n as i64)
            } else {
                None
            },
            JsonView::Number(JsonNumber::NegInt(n)) => Some(n),
            _ => None,
        }
    }

    /// A point in time as whole seconds: an integer that an `i64` holds, or the
    /// whole part of a double.
    pub open spec fn seconds(self) -> Option<i64> {
        match self {
            JsonView::Number(JsonNumber::Double(bits)) => whole_part(bits),
            _ => self.as_i64(),
        }
    }

    /// The integer, where it is a non-negative one.
    pub open spec fn as_u64(self) -> Option<u64> {
        match self {
            JsonView::Number(JsonNumber::PosInt(n)) => Some(n),
            _ => None,
        }
    }

    /// The text of the member under `key`.
    pub open spec fn get_text(self, key: Seq<char>) -> Option<Seq<char>> {
        match self.get(key) {
            Some(v) => v.as_text(),
            None => None,
        }
    }

    /// The array under `key`.
    pub open spec fn get_array(self, key: Seq<char>) -> Option<Seq<JsonView>> {
        match self.get(key) {
            Some(v) => v.as_array(),
            None => None,
        }
    }

    /// The boolean under `key`.
    pub open spec fn get_bool(self, key: Seq<char>) -> Option<bool> {
        match self.get(key) {
            Some(v) => v.as_bool(),
            None => None,
        }
    }

    /// The member under `key`, or else under `other`.
    pub open spec fn get_either(self, key: Seq<char>, other: Seq<char>) -> Option<JsonView> {
        match self.get(key) {
            Some(v) => Some(v),
            None => self.get(other),
        }
    }
}

/// The number of an `i64`.
pub open spec fn int_number(n: i64) -> JsonNumber {
    if n < 0 {
        JsonNumber::NegInt(n)
    } else {
        JsonNumber::PosInt(n as u64)
    }
}

/// The object without members.
pub open spec fn empty_object() -> JsonView {
    JsonView::Object(Seq::empty())
}

/// An array's view is made of its elements' views.
pub proof fn lemma_array_view(v: Vec<Json>)
    ensures
        Json::Array(v)@ == JsonView::Array(array_view(v@)),
{
    assert(Json::Array(v)@->Array_0 =~= array_view(v@));
}

/// An object's view is made of its members' views.
pub proof fn lemma_members_view(v: Vec<(String, Json)>)
    ensures
        Json::Object(v)@ == JsonView::Object(members_view(v@)),
{
    assert(Json::Object(v)@->Object_0 =~= members_view(v@));
}

/// The first member under a key is the one that is found; where there is none,
/// nothing is.
pub proof fn lemma_member_at(members: Seq<(Seq<char>, JsonView)>, key: Seq<char>, i: int)
    requires
        0 <= i <= members.len(),
        forall|j: int| 0 <= j < i ==> (#[trigger] members[j]).0 != key,
    ensures
        i == members.len() ==> member(members, key) is None,
        i < members.len() && members[i].0 == key ==> member(members, key) == Some(members[i].1),
    decreases i,
{
    if i > 0 {
        let rest = members.drop_first();
        assert forall|j: int| 0 <= j < i - 1 implies (#[trigger] rest[j]).0 != key by {
            assert(rest[j] == members[j + 1]);
        }
        lemma_member_at(rest, key, i - 1);
    }
}

fn double_whole_part(bits: u64) -> (r: Option<i64>)
    ensures
        r == whole_part(bits),
{
    let e: u64 = bits / 0x10_0000_0000_0000;
    let m: u64 = 0x10_0000_0000_0000 + bits % 0x10_0000_0000_0000;
    if e < 1023 || e > 1085 {
        return None;
    }
    if e >= 1075 {
        let up: u64 = e - 1075;
        assert((m << up) <= 0x7fff_ffff_ffff_ffff && m <= (0xffff_ffff_ffff_ffffu64 >> up))
            by (bit_vector)
            requires
                up <= 10,
                m <= 0x1f_ffff_ffff_ffff,
        ;
        proof {
            vstd::bits::lemma_u64_mul_pow2_le_max_iff_max_shr(m, up, u64::MAX);
            vstd::bits::lemma_u64_shl_is_mul(m, up);
        }
        Some((m << up) as i64)
    } else {
        let down: u64 = 1075 - e;
        assert((m >> down) <= 0x7fff_ffff_ffff_ffff) by (bit_vector)
            requires
                1 <= down <= 52,
        ;
        proof {
            vstd::bits::lemma_u64_shr_is_div(m, down);
        }
        Some((m >> down) as i64)
    }
}

impl Json {
    pub fn get(&self, key: &str) -> (r: Option<&Json>)
        ensures
            opt_view(r) == self@.get(key@),
    {
        match self {
            Json::Object(v) => {
                let ghost members = members_view(v@);
                proof {
                    lemma_members_view(*v);
                }
                let mut i: usize = 0;
                while i < v.len()
                    invariant
                        i <= v@.len(),
                        members == members_view(v@),
                        self@ == JsonView::Object(members),
                        forall|j: int| 0 <= j < i ==> (#[trigger] members[j]).0 != key@,
                    decreases v@.len() - i,
                {
                    if text_eq(v[i].0.as_str(), key) {
                        proof {
                            lemma_member_at(members, key@, i as int);
                        }
                        return Some(&v[i].1);
                    }
                    i = i + 1;
                }
                proof {
                    lemma_member_at(members, key@, i as int);
                }
                None
            },
            _ => None,
        }
    }

    pub fn as_str(&self) -> (r: Option<&str>)
        ensures
            r is Some <==> self@.as_text() is Some,
            r is Some ==> self@.as_text() == Some(r->0@),
    {
        match self {
            Json::Text(s) => Some(s.as_str()),
            _ => None,
        }
    }

    pub fn as_array(&self) -> (r: Option<&Vec<Json>>)
        ensures
            r is Some <==> self@.as_array() is Some,
            r is Some ==> self@.as_array() == Some(array_view(r->0@)),
    {
        match self {
            Json::Array(v) => {
                proof {
                    lemma_array_view(*v);
                }
                Some(v)
            },
            _ => None,
        }
    }

    pub fn as_bool(&self) -> (r: Option<bool>)
        ensures
            r == self@.as_bool(),
    {
        match self {
            Json::Bool(b) => Some(*b),
            _ => None,
        }
    }

    pub fn as_i64(&self) -> (r: Option<i64>)
        ensures
            r == self@.as_i64(),
    {
        match self {
            Json::Number(JsonNumber::PosInt(n)) => if *n <= i64::MAX as u64 {
                Some(*n as i64)
            } else {
                None
            },
            Json::Number(JsonNumber::NegInt(n)) => Some(*n),
            _ => None,
        }
    }

    /// A point in time as whole seconds: an integer that an `i64` holds, or the
    /// whole part of a double.
    pub fn seconds(&self) -> (r: Option<i64>)
        ensures
            r == self@.seconds(),
    {
        match self {
            Json::Number(JsonNumber::Double(bits)) => double_whole_part(*bits),
            _ => self.as_i64(),
        }
    }

    pub fn as_u64(&self) -> (r: Option<u64>)
        ensures
            r == self@.as_u64(),
    {
        match self {
            Json::Number(JsonNumber::PosInt(n)) => Some(*n),
            _ => None,
        }
    }

    /// The text of the member under `key`.
    pub fn get_str(&self, key: &str) -> (r: Option<&str>)
        ensures
            r is Some <==> self@.get_text(key@) is Some,
            r is Some ==> self@.get_text(key@) == Some(r->0@),
    {
        match self.get(key) {
            Some(v) => v.as_str(),
            None => None,
        }
    }

    /// The array under `key`.
    pub fn get_array(&self, key: &str) -> (r: Option<&Vec<Json>>)
        ensures
            r is Some <==> self@.get_array(key@) is Some,
            r is Some ==> self@.get_array(key@) == Some(array_view(r->0@)),
    {
        match self.get(key) {
            Some(v) => v.as_array(),
            None => None,
        }
    }

    /// The boolean under `key`.
    pub fn get_bool(&self, key: &str) -> (r: Option<bool>)
        ensures
            r == self@.get_bool(key@),
    {
        match self.get(key) {
            Some(v) => v.as_bool(),
            None => None,
        }
    }

    /// The member under `key`, or else under `other`.
    pub fn get_either(&self, key: &str, other: &str) -> (r: Option<&Json>)
        ensures
            opt_view(r) == self@.get_either(key@, other@),
    {
        match self.get(key) {
            Some(v) => Some(v),
            None => self.get(other),
        }
    }

    /// The number of an `i64`.
    pub fn integer(n: i64) -> (r: Json)
        ensures
            r@ == JsonView::Number(int_number(n)),
    {
        if n < 0 {
            Json::Number(JsonNumber::NegInt(n))
        } else {
            Json::Number(JsonNumber::PosInt(n as u64))
        }
    }

    pub fn text(s: &str) -> (r: Json)
        ensures
            r@ == JsonView::Text(s@),
    {
        Json::Text(s.to_owned())
    }

    pub fn array(v: Vec<Json>) -> (r: Json)
        ensures
            r@ == JsonView::Array(array_view(v@)),
    {
        proof {
            lemma_array_view(v);
        }
        Json::Array(v)
    }

    pub fn object(v: Vec<(String, Json)>) -> (r: Json)
        ensures
            r@ == JsonView::Object(members_view(v@)),
    {
        proof {
            lemma_members_view(v);
        }
        Json::Object(v)
    }

    /// The object without members.
    pub fn empty() -> (r: Json)
        ensures
            r@ == empty_object(),
    {
        let v: Vec<(String, Json)> = Vec::new();
        let r = Json::object(v);
        assert(members_view(Seq::empty()) =~= Seq::empty());
        r
    }
}

} // verus!
