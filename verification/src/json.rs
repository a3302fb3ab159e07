//! A JSON document model: the values that a profile, an entry and a guess
//! response are made of, with structural equality, member lookup and the
//! compact text form.
use vstd::prelude::*;
use vstd::string::StringExecFns;
use crate::text::{decimal, signed_decimal};

verus! {

/// A JSON number, as serde_json classifies it: a non-negative integer, a
/// negative integer (`NegInt` holds only values below zero, as serde_json's
/// does), or a finite float. A float is carried by its IEEE-754 bits together
/// with the text that serde_json renders for it; equality looks at the value
/// alone.
#[derive(Debug)]
pub enum JsonNumber {
    PosInt(u64),
    NegInt(i64),
    Float { bits: u64, text: String },
}

/// The mathematical model of a [`JsonNumber`].
pub enum NumberV {
    PosInt(u64),
    NegInt(i64),
    Float { bits: u64, text: Seq<char> },
}

/// A JSON value. Object members are held in the order of the map they come
/// from (serde_json keeps them sorted by key, each key once).
#[derive(Debug)]
pub enum Json {
    Null,
    Bool(bool),
    Number(JsonNumber),
    String(String),
    Array(Vec<Json>),
    Object(Vec<(String, Json)>),
}

/// The mathematical model of a [`Json`] value.
pub enum JsonV {
    Null,
    Bool(bool),
    Number(NumberV),
    Str(Seq<char>),
    Array(Seq<JsonV>),
    Object(Seq<(Seq<char>, JsonV)>),
}

impl View for JsonNumber {
    type V = NumberV;

    open spec fn view(&self) -> NumberV {
        match self {
            JsonNumber::PosInt(n) => NumberV::PosInt(*n),
            JsonNumber::NegInt(n) => NumberV::NegInt(*n),
            JsonNumber::Float { bits, text } => NumberV::Float { bits: *bits, text: text@ },
        }
    }
}

/// The model of a value, built recursively.
pub open spec fn json_view(j: Json) -> JsonV
    decreases j,
{
    match j {
        Json::Null => JsonV::Null,
        Json::Bool(b) => JsonV::Bool(b),
        Json::Number(n) => JsonV::Number(n@),
        Json::String(s) => JsonV::Str(s@),
        Json::Array(a) => JsonV::Array(
            Seq::new(
                a.len() as nat,
                |i: int|
                    if 0 <= i < a.len() {
                        json_view(a[i])
                    } else {
                        JsonV::Null
                    },
            ),
        ),
        Json::Object(m) => JsonV::Object(
            Seq::new(
                m.len() as nat,
                |i: int|
                    if 0 <= i < m.len() {
                        (m[i].0@, json_view(m[i].1))
                    } else {
                        (Seq::empty(), JsonV::Null)
                    },
            ),
        ),
    }
}

impl View for Json {
    type V = JsonV;

    open spec fn view(&self) -> JsonV {
        json_view(*self)
    }
}

/// The models of a sequence of values.
pub open spec fn views(s: Seq<Json>) -> Seq<JsonV> {
    Seq::new(s.len(), |i: int| s[i]@)
}

/// The models of a sequence of object members.
pub open spec fn member_views(s: Seq<(String, Json)>) -> Seq<(Seq<char>, JsonV)> {
    Seq::new(s.len(), |i: int| (s[i].0@, s[i].1@))
}

/// The value of the first member named `key`, if any.
pub open spec fn member(members: Seq<(Seq<char>, JsonV)>, key: Seq<char>) -> Option<JsonV>
    decreases members.len(),
{
    if members.len() == 0 {
        None
    } else if members[0].0 == key {
        Some(members[0].1)
    } else {
        member(members.drop_first(), key)
    }
}

/// The member `key` of an object; `None` for a missing key or a non-object.
pub open spec fn get_member(v: JsonV, key: Seq<char>) -> Option<JsonV> {
    match v {
        JsonV::Object(m) => member(m, key),
        _ => None,
    }
}

/// `v[key]` as serde_json's index by a string gives it: the member, or `null`.
pub open spec fn index_key(v: JsonV, key: Seq<char>) -> JsonV {
    match get_member(v, key) {
        Some(x) => x,
        None => JsonV::Null,
    }
}

/// `Value::as_u64`: the value of a non-negative integer.
pub open spec fn as_u64(v: JsonV) -> Option<u64> {
    match v {
        JsonV::Number(NumberV::PosInt(n)) => Some(n),
        _ => None,
    }
}

/// `Value::as_str`: the text of a string.
pub open spec fn as_str(v: JsonV) -> Option<Seq<char>> {
    match v {
        JsonV::Str(s) => Some(s),
        _ => None,
    }
}

/// `Value::as_array`: the elements of an array.
pub open spec fn as_array(v: JsonV) -> Option<Seq<JsonV>> {
    match v {
        JsonV::Array(a) => Some(a),
        _ => None,
    }
}

/// Where the search for the first member named `key` stands after looking at
/// the first `i` members, none of which is named `key`.
pub proof fn lemma_member_skip(ms: Seq<(Seq<char>, JsonV)>, key: Seq<char>, i: int)
    requires
        0 <= i <= ms.len(),
        forall|j: int| 0 <= j < i ==> ms[j].0 != key,
    ensures
        member(ms, key) == member(ms.subrange(i, ms.len() as int), key),
    decreases i,
{
    if i > 0 {
        lemma_member_skip(ms.drop_first(), key, i - 1);
        assert(ms.drop_first().subrange(i - 1, ms.drop_first().len() as int) =~= ms.subrange(
            i,
            ms.len() as int,
        ));
    } else {
        assert(ms.subrange(0, ms.len() as int) =~= ms);
    }
}

/// The model of an array is the sequence of the models of its elements.
pub proof fn lemma_array_view(v: Json)
    ensures
        v is Array ==> v@ == JsonV::Array(views(v->Array_0@)),
{
    if v is Array {
        let a = v->Array_0;
        assert(v == Json::Array(a));
        assert(v@ == Json::Array(a)@);
        assert(v@->Array_0.len() == a.len());
        assert(forall|i: int| 0 <= i < a.len() ==> v@->Array_0[i] == a[i]@);
        assert(v@->Array_0 =~= views(v->Array_0@));
    }
}

/// The model of an object is the sequence of the models of its members.
pub proof fn lemma_object_view(v: Json)
    ensures
        v is Object ==> v@ == JsonV::Object(member_views(v->Object_0@)),
{
    if v is Object {
        assert(v@->Object_0 =~= member_views(v->Object_0@));
    }
}

/// Two floats, given by their bits, are the same number: the same bits, or
/// both zero (`0.0` and `-0.0` are equal). A JSON float is always finite.
pub open spec fn float_bits_eq(a: u64, b: u64) -> bool {
    a == b || ((a & 0x7fff_ffff_ffff_ffffu64) == 0 && (b & 0x7fff_ffff_ffff_ffffu64) == 0)
}

/// Equality of numbers as serde_json's `==` decides it: integers of the same
/// kind by value, floats by value.
pub open spec fn number_eq(a: NumberV, b: NumberV) -> bool {
    match (a, b) {
        (NumberV::PosInt(x), NumberV::PosInt(y)) => x == y,
        (NumberV::NegInt(x), NumberV::NegInt(y)) => x == y,
        (NumberV::Float { bits: x, .. }, NumberV::Float { bits: y, .. }) => float_bits_eq(x, y),
        _ => false,
    }
}

/// Equality of values as serde_json's `==` decides it: arrays element by
/// element, objects member by member, numbers by [`number_eq`].
pub open spec fn json_eq(a: JsonV, b: JsonV) -> bool
    decreases a,
{
    match (a, b) {
        (JsonV::Null, JsonV::Null) => true,
        (JsonV::Bool(x), JsonV::Bool(y)) => x == y,
        (JsonV::Number(x), JsonV::Number(y)) => number_eq(x, y),
        (JsonV::Str(x), JsonV::Str(y)) => x == y,
        (JsonV::Array(x), JsonV::Array(y)) => x.len() == y.len() && forall|i: int|
            0 <= i < x.len() ==> json_eq(x[i], #[trigger] y[i]),
        (JsonV::Object(x), JsonV::Object(y)) => x.len() == y.len() && forall|i: int|
            0 <= i < x.len() ==> x[i].0 == (#[trigger] y[i]).0 && json_eq(x[i].1, y[i].1),
        _ => false,
    }
}

/// Every value equals itself.
pub proof fn lemma_json_eq_reflexive(a: JsonV)
    ensures
        json_eq(a, a),
    decreases a,
{
    match a {
        JsonV::Array(x) => {
            assert forall|i: int| 0 <= i < x.len() implies json_eq(x[i], #[trigger] x[i]) by {
                lemma_json_eq_reflexive(x[i]);
            }
        },
        JsonV::Object(x) => {
            assert forall|i: int| 0 <= i < x.len() implies x[i].0 == (#[trigger] x[i]).0 && json_eq(
                x[i].1,
                x[i].1,
            ) by {
                lemma_json_eq_reflexive(x[i].1);
            }
        },
        _ => {},
    }
}

/// Equality does not depend on the order of its arguments.
pub proof fn lemma_json_eq_symmetric(a: JsonV, b: JsonV)
    ensures
        json_eq(a, b) == json_eq(b, a),
    decreases a,
{
    match (a, b) {
        (JsonV::Array(x), JsonV::Array(y)) => {
            if x.len() == y.len() {
                assert forall|i: int| 0 <= i < x.len() implies json_eq(x[i], y[i]) == json_eq(y[i], x[i]) by {
                    lemma_json_eq_symmetric(x[i], y[i]);
                }
                if json_eq(a, b) {
                    assert forall|i: int| 0 <= i < y.len() implies json_eq(y[i], #[trigger] x[i]) by {
                        assert(json_eq(x[i], y[i]));
                    }
                }
                if json_eq(b, a) {
                    assert forall|i: int| 0 <= i < x.len() implies json_eq(x[i], #[trigger] y[i]) by {
                        assert(json_eq(y[i], x[i]));
                    }
                }
            }
        },
        (JsonV::Object(x), JsonV::Object(y)) => {
            if x.len() == y.len() {
                assert forall|i: int| 0 <= i < x.len() implies json_eq(x[i].1, y[i].1) == json_eq(
                    y[i].1,
                    x[i].1,
                ) by {
                    lemma_json_eq_symmetric(x[i].1, y[i].1);
                }
                if json_eq(a, b) {
                    assert forall|i: int| 0 <= i < y.len() implies y[i].0 == (#[trigger] x[i]).0
                        && json_eq(y[i].1, x[i].1) by {
                        assert(x[i].0 == y[i].0 && json_eq(x[i].1, y[i].1));
                    }
                }
                if json_eq(b, a) {
                    assert forall|i: int| 0 <= i < x.len() implies x[i].0 == (#[trigger] y[i]).0
                        && json_eq(x[i].1, y[i].1) by {
                        assert(y[i].0 == x[i].0 && json_eq(y[i].1, x[i].1));
                    }
                }
            }
        },
        _ => {},
    }
}

/// Two values equal to a third are equal.
pub proof fn lemma_json_eq_transitive(a: JsonV, b: JsonV, c: JsonV)
    requires
        json_eq(a, b),
        json_eq(b, c),
    ensures
        json_eq(a, c),
    decreases a,
{
    match (a, b, c) {
        (JsonV::Array(x), JsonV::Array(y), JsonV::Array(z)) => {
            assert forall|i: int| 0 <= i < x.len() implies json_eq(x[i], #[trigger] z[i]) by {
                assert(json_eq(x[i], y[i]));
                assert(json_eq(y[i], z[i]));
                lemma_json_eq_transitive(x[i], y[i], z[i]);
            }
        },
        (JsonV::Object(x), JsonV::Object(y), JsonV::Object(z)) => {
            assert forall|i: int| 0 <= i < x.len() implies x[i].0 == (#[trigger] z[i]).0 && json_eq(
                x[i].1,
                z[i].1,
            ) by {
                assert(x[i].0 == y[i].0 && json_eq(x[i].1, y[i].1));
                assert(y[i].0 == z[i].0 && json_eq(y[i].1, z[i].1));
                lemma_json_eq_transitive(x[i].1, y[i].1, z[i].1);
            }
        },
        _ => {},
    }
}

impl JsonNumber {
    /// Equality of two numbers, as serde_json's `==` decides it.
    pub fn same(&self, other: &JsonNumber) -> (r: bool)
        ensures
            r == number_eq(self@, other@),
    {
        match (self, other) {
            (JsonNumber::PosInt(a), JsonNumber::PosInt(b)) => *a == *b,
            (JsonNumber::NegInt(a), JsonNumber::NegInt(b)) => *a == *b,
            (JsonNumber::Float { bits: a, .. }, JsonNumber::Float { bits: b, .. }) => {
                *a == *b || ((*a & 0x7fff_ffff_ffff_ffffu64) == 0 && (*b & 0x7fff_ffff_ffff_ffffu64) == 0)
            },
            _ => false,
        }
    }

    /// A copy with the same model.
    pub fn duplicate(&self) -> (r: JsonNumber)
        ensures
            r@ == self@,
    {
        match self {
            JsonNumber::PosInt(n) => JsonNumber::PosInt(*n),
            JsonNumber::NegInt(n) => JsonNumber::NegInt(*n),
            JsonNumber::Float { bits, text } => JsonNumber::Float { bits: *bits, text: text.clone() },
        }
    }
}

impl Json {
    /// Equality of values, as serde_json's `==` decides it.
    pub fn same(&self, other: &Json) -> (r: bool)
        ensures
            r == json_eq(self@, other@),
        decreases self,
    {
        match (self, other) {
            (Json::Null, Json::Null) => true,
            (Json::Bool(a), Json::Bool(b)) => *a == *b,
            (Json::Number(a), Json::Number(b)) => a.same(b),
            (Json::String(a), Json::String(b)) => *a == *b,
            (Json::Array(a), Json::Array(b)) => {
                proof {
                    lemma_array_view(*self);
                    lemma_array_view(*other);
                }
                if a.len() != b.len() {
                    assert(views(a@).len() != views(b@).len());
                    return false;
                }
                let mut i: usize = 0;
                while i < a.len()
                    invariant
                        0 <= i <= a.len(),
                        a.len() == b.len(),
                        *self == Json::Array(*a),
                        self@ == JsonV::Array(views(a@)),
                        other@ == JsonV::Array(views(b@)),
                        forall|j: int| 0 <= j < i ==> json_eq(a[j]@, b[j]@),
                    decreases a.len() - i,
                {
                    proof {
                        assert(decreases_to!(*a => a[i as int]));
                    }
                    if !a[i].same(&b[i]) {
                        assert(!json_eq(views(a@)[i as int], views(b@)[i as int]));
                        return false;
                    }
                    i += 1;
                }
                assert forall|j: int| 0 <= j < views(a@).len() implies json_eq(
                    views(a@)[j],
                    #[trigger] views(b@)[j],
                ) by {
                    assert(json_eq(a[j]@, b[j]@));
                }
                true
            },
            (Json::Object(a), Json::Object(b)) => {
                proof {
                    lemma_object_view(*self);
                    lemma_object_view(*other);
                }
                if a.len() != b.len() {
                    assert(member_views(a@).len() != member_views(b@).len());
                    return false;
                }
                let mut i: usize = 0;
                while i < a.len()
                    invariant
                        0 <= i <= a.len(),
                        a.len() == b.len(),
                        *self == Json::Object(*a),
                        self@ == JsonV::Object(member_views(a@)),
                        other@ == JsonV::Object(member_views(b@)),
                        forall|j: int| 0 <= j < i ==> a[j].0@ == b[j].0@ && json_eq(a[j].1@, b[j].1@),
                    decreases a.len() - i,
                {
                    if a[i].0 != b[i].0 {
                        assert(member_views(a@)[i as int].0 != member_views(b@)[i as int].0);
                        return false;
                    }
                    proof {
                        assert(decreases_to!(*a => a[i as int]));
                        assert(decreases_to!(a[i as int] => a[i as int].1));
                    }
                    if !a[i].1.same(&b[i].1) {
                        assert(!json_eq(member_views(a@)[i as int].1, member_views(b@)[i as int].1));
                        return false;
                    }
                    i += 1;
                }
                assert forall|j: int| 0 <= j < member_views(a@).len() implies member_views(a@)[j].0
                    == (#[trigger] member_views(b@)[j]).0 && json_eq(
                    member_views(a@)[j].1,
                    member_views(b@)[j].1,
                ) by {
                    assert(a[j].0@ == b[j].0@ && json_eq(a[j].1@, b[j].1@));
                }
                true
            },
            _ => false,
        }
    }

    /// A copy with the same model.
    pub fn duplicate(&self) -> (r: Json)
        ensures
            r@ == self@,
        decreases self,
    {
        match self {
            Json::Null => Json::Null,
            Json::Bool(b) => Json::Bool(*b),
            Json::Number(n) => Json::Number(n.duplicate()),
            Json::String(s) => Json::String(s.clone()),
            Json::Array(a) => {
                proof {
                    lemma_array_view(*self);
                }
                let mut out: Vec<Json> = Vec::new();
                let mut i: usize = 0;
                while i < a.len()
                    invariant
                        0 <= i <= a.len(),
                        out.len() == i,
                        *self == Json::Array(*a),
                        self@ == JsonV::Array(views(a@)),
                        forall|j: int| 0 <= j < i ==> out[j]@ == a[j]@,
                    decreases a.len() - i,
                {
                    proof {
                        assert(decreases_to!(*a => a[i as int]));
                    }
                    out.push(a[i].duplicate());
                    i += 1;
                }
                let r = Json::Array(out);
                proof {
                    lemma_array_view(r);
                }
                assert(views(out@) =~= views(a@));
                r
            },
            Json::Object(m) => {
                proof {
                    lemma_object_view(*self);
                }
                let mut out: Vec<(String, Json)> = Vec::new();
                let mut i: usize = 0;
                while i < m.len()
                    invariant
                        0 <= i <= m.len(),
                        out.len() == i,
                        *self == Json::Object(*m),
                        self@ == JsonV::Object(member_views(m@)),
                        forall|j: int| 0 <= j < i ==> out[j].0@ == m[j].0@ && out[j].1@ == m[j].1@,
                    decreases m.len() - i,
                {
                    proof {
                        assert(decreases_to!(*m => m[i as int]));
                        assert(decreases_to!(m[i as int] => m[i as int].1));
                    }
                    let k = m[i].0.clone();
                    let v = m[i].1.duplicate();
                    out.push((k, v));
                    i += 1;
                }
                let r = Json::Object(out);
                proof {
                    lemma_object_view(r);
                }
                assert(member_views(out@) =~= member_views(m@));
                r
            },
        }
    }

    /// The member `key` of an object: `None` for a missing key or a value that
    /// is not an object.
    pub fn get(&self, key: &str) -> (r: Option<&Json>)
        ensures
            r is None <==> get_member(self@, key@) is None,
            r matches Some(x) ==> get_member(self@, key@) == Some(x@),
    {
        match self {
            Json::Object(m) => {
                let ghost ms = member_views(m@);
                proof {
                    lemma_object_view(*self);
                }
                let mut i: usize = 0;
                while i < m.len()
                    invariant
                        0 <= i <= m.len(),
                        ms == member_views(m@),
                        self@ == JsonV::Object(ms),
                        forall|j: int| 0 <= j < i ==> ms[j].0 != key@,
                    decreases m.len() - i,
                {
                    if crate::text::str_eq(m[i].0.as_str(), key) {
                        proof {
                            lemma_member_skip(ms, key@, i as int);
                        }
                        return Some(&m[i].1);
                    }
                    i += 1;
                }
                proof {
                    lemma_member_skip(ms, key@, i as int);
                }
                None
            },
            _ => None,
        }
    }

    /// `Value::as_u64`.
    pub fn as_u64(&self) -> (r: Option<u64>)
        ensures
            r == as_u64(self@),
    {
        match self {
            Json::Number(JsonNumber::PosInt(n)) => Some(*n),
            _ => None,
        }
    }

    /// `Value::as_str`.
    pub fn as_str(&self) -> (r: Option<&str>)
        ensures
            r is None <==> as_str(self@) is None,
            r matches Some(s) ==> as_str(self@) == Some(s@),
    {
        match self {
            Json::String(s) => Some(s.as_str()),
            _ => None,
        }
    }

    /// `Value::as_array`.
    pub fn as_array(&self) -> (r: Option<&Vec<Json>>)
        ensures
            r is None <==> as_array(self@) is None,
            r matches Some(a) ==> as_array(self@) == Some(views(a@)),
    {
        match self {
            Json::Array(a) => Some(a),
            _ => None,
        }
    }
}

/// A lowercase hexadecimal digit.
pub open spec fn hex_digit(d: nat) -> char {
    if d < 10 {
        ((('0' as u32) + d) as u32) as char
    } else {
        ((('a' as u32) + d - 10) as u32) as char
    }
}

/// How serde_json writes one character inside a string: a double quote, a
/// backslash and the control characters with short escapes get them, the
/// other control characters below U+0020 are written `\u00XX`, everything
/// else stands as it is.
pub open spec fn escape_char(c: char) -> Seq<char> {
    let u = c as u32;
    if c == '"' {
        seq!['\\', '"']
    } else if c == '\\' {
        seq!['\\', '\\']
    } else if u == 0x08 {
        seq!['\\', 'b']
    } else if u == 0x09 {
        seq!['\\', 't']
    } else if u == 0x0a {
        seq!['\\', 'n']
    } else if u == 0x0c {
        seq!['\\', 'f']
    } else if u == 0x0d {
        seq!['\\', 'r']
    } else if u < 0x20 {
        seq!['\\', 'u', '0', '0', hex_digit((u / 16) as nat), hex_digit((u % 16) as nat)]
    } else {
        seq![c]
    }
}

/// The characters of a string, each as serde_json writes it.
pub open spec fn escaped(s: Seq<char>) -> Seq<char>
    decreases s.len(),
{
    if s.len() == 0 {
        Seq::empty()
    } else {
        escaped(s.drop_last()) + escape_char(s.last())
    }
}

/// The text serde_json writes for a string: its escaped characters between
/// double quotes.
pub open spec fn json_quoted(s: Seq<char>) -> Seq<char> {
    seq!['"'] + escaped(s) + seq!['"']
}

/// The text of a number: decimal for an integer, serde_json's rendering for a
/// float.
pub open spec fn number_text(n: NumberV) -> Seq<char> {
    match n {
        NumberV::PosInt(u) => decimal(u as nat),
        NumberV::NegInt(i) => signed_decimal(i as int),
        NumberV::Float { bits, text } => text,
    }
}

/// The compact JSON text of a value, as serde_json's `Display` writes it.
pub open spec fn json_text(v: JsonV) -> Seq<char>
    decreases v,
{
    match v {
        JsonV::Null => "null"@,
        JsonV::Bool(b) => if b {
            "true"@
        } else {
            "false"@
        },
        JsonV::Number(n) => number_text(n),
        JsonV::Str(s) => json_quoted(s),
        JsonV::Array(a) => "["@ + elements_text(a) + "]"@,
        JsonV::Object(m) => "{"@ + members_text(m) + "}"@,
    }
}

/// The texts of array elements, separated by commas.
pub open spec fn elements_text(a: Seq<JsonV>) -> Seq<char>
    decreases a,
{
    if a.len() == 0 {
        Seq::empty()
    } else if a.len() == 1 {
        json_text(a[0])
    } else {
        elements_text(a.drop_last()) + ","@ + json_text(a.last())
    }
}

/// The texts of object members (`"key":value`), separated by commas.
pub open spec fn members_text(m: Seq<(Seq<char>, JsonV)>) -> Seq<char>
    decreases m,
{
    if m.len() == 0 {
        Seq::empty()
    } else if m.len() == 1 {
        json_quoted(m[0].0) + ":"@ + json_text(m[0].1)
    } else {
        members_text(m.drop_last()) + ","@ + json_quoted(m.last().0) + ":"@ + json_text(m.last().1)
    }
}

/// serde_json's `Display` for a string value: the quoted, escaped text.
#[verifier::external_body]
pub fn quoted(s: &str) -> (r: String)
    ensures
        r@ == json_quoted(s@),
{
    serde_json::Value::String(s.to_string()).to_string()
}

/// serde_json's `Display` for a non-negative integer number.
#[verifier::external_body]
pub fn pos_int_text(n: u64) -> (r: String)
    ensures
        r@ == decimal(n as nat),
{
    serde_json::Number::from(n).to_string()
}

/// serde_json's `Display` for a negative integer number.
#[verifier::external_body]
pub fn neg_int_text(n: i64) -> (r: String)
    ensures
        r@ == signed_decimal(n as int),
{
    serde_json::Number::from(n).to_string()
}

impl JsonNumber {
    /// The text of the number, as serde_json writes it.
    pub fn text(&self) -> (r: String)
        ensures
            r@ == number_text(self@),
    {
        match self {
            JsonNumber::PosInt(n) => pos_int_text(*n),
            JsonNumber::NegInt(n) => neg_int_text(*n),
            JsonNumber::Float { text, .. } => text.clone(),
        }
    }
}

impl Json {
    /// The compact JSON text of the value, as serde_json's `Display` writes it.
    pub fn text(&self) -> (r: String)
        ensures
            r@ == json_text(self@),
        decreases self,
    {
        match self {
            Json::Null => String::from_str("null"),
            Json::Bool(b) => if *b {
                String::from_str("true")
            } else {
                String::from_str("false")
            },
            Json::Number(n) => n.text(),
            Json::String(s) => quoted(s.as_str()),
            Json::Array(a) => {
                proof {
                    lemma_array_view(*self);
                }
                let ghost vs = views(a@);
                let mut out = String::from_str("[");
                let mut i: usize = 0;
                while i < a.len()
                    invariant
                        0 <= i <= a.len(),
                        *self == Json::Array(*a),
                        vs == views(a@),
                        self@ == JsonV::Array(vs),
                        out@ == "["@ + elements_text(vs.take(i as int)),
                    decreases a.len() - i,
                {
                    proof {
                        assert(decreases_to!(*a => a[i as int]));
                    }
                    let t = a[i].text();
                    if i > 0 {
                        out.append(",");
                    }
                    out.append(t.as_str());
                    proof {
                        assert(vs.take(i + 1).drop_last() =~= vs.take(i as int));
                        if i == 0 {
                            assert(vs.take(i as int) =~= Seq::<JsonV>::empty());
                        }
                    }
                    i += 1;
                }
                out.append("]");
                assert(vs.take(i as int) =~= vs);
                out
            },
            Json::Object(m) => {
                proof {
                    lemma_object_view(*self);
                }
                let ghost ms = member_views(m@);
                let mut out = String::from_str("{");
                let mut i: usize = 0;
                while i < m.len()
                    invariant
                        0 <= i <= m.len(),
                        *self == Json::Object(*m),
                        ms == member_views(m@),
                        self@ == JsonV::Object(ms),
                        out@ == "{"@ + members_text(ms.take(i as int)),
                    decreases m.len() - i,
                {
                    proof {
                        assert(decreases_to!(*m => m[i as int]));
                        assert(decreases_to!(m[i as int] => m[i as int].1));
                    }
                    let k = quoted(m[i].0.as_str());
                    let t = m[i].1.text();
                    if i > 0 {
                        out.append(",");
                    }
                    out.append(k.as_str());
                    out.append(":");
                    out.append(t.as_str());
                    proof {
                        assert(ms.take(i + 1).drop_last() =~= ms.take(i as int));
                        if i == 0 {
                            assert(ms.take(i as int) =~= Seq::<(Seq<char>, JsonV)>::empty());
                        }
                    }
                    i += 1;
                }
                out.append("}");
                assert(ms.take(i as int) =~= ms);
                out
            },
        }
    }
}

} // verus!
