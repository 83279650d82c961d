//! JSON values as plain data.
//!
//! Reading and writing JSON text is `serde_json`'s work; the rest of the
//! library works on [`Json`].
use vstd::prelude::*;
use vstd::string::*;
#[allow(unused_imports)]
use vstd::utf8::*;

#[allow(unused_imports)]
use crate::digest::{hex_digit_value, nibble};
use crate::text::same;
#[allow(unused_imports)]
use crate::text::text_le;

verus! {

/// A JSON value.
#[derive(Debug)]
pub enum Json {
    Null,
    Bool(bool),
    /// A number that is a `u64`.
    Unsigned(u64),
    /// A negative number that is an `i64`.
    Negative(i64),
    /// Any other number, as its text.
    Decimal(String),
    Text(String),
    List(Vec<Json>),
    Object(Vec<(String, Json)>),
}

/// What a JSON value holds.
#[verifier::ext_equal]
pub enum JsonModel {
    Null,
    Bool(bool),
    Unsigned(u64),
    Negative(i64),
    Decimal(Seq<char>),
    Text(Seq<char>),
    List(Seq<JsonModel>),
    Object(Seq<(Seq<char>, JsonModel)>),
}

impl Json {
    /// What the value holds.
    pub open spec fn model(self) -> JsonModel
        decreases self,
    {
        match self {
            Json::Null => JsonModel::Null,
            Json::Bool(b) => JsonModel::Bool(b),
            Json::Unsigned(n) => JsonModel::Unsigned(n),
            Json::Negative(n) => JsonModel::Negative(n),
            Json::Decimal(s) => JsonModel::Decimal(s@),
            Json::Text(s) => JsonModel::Text(s@),
            Json::List(v) => JsonModel::List(
                Seq::new(
                    v@.len(),
                    |i: int|
                        if 0 <= i < v@.len() {
                            v@[i].model()
                        } else {
                            JsonModel::Null
                        },
                ),
            ),
            Json::Object(v) => JsonModel::Object(
                Seq::new(
                    v@.len(),
                    |i: int|
                        if 0 <= i < v@.len() {
                            (v@[i].0@, v@[i].1.model())
                        } else {
                            (Seq::<char>::empty(), JsonModel::Null)
                        },
                ),
            ),
        }
    }
}

/// What a list of values holds.
pub open spec fn items(v: Seq<Json>) -> Seq<JsonModel> {
    Seq::new(v.len(), |i: int| v[i].model())
}

/// What the members of an object hold.
pub open spec fn members(v: Seq<(String, Json)>) -> Seq<(Seq<char>, JsonModel)> {
    Seq::new(v.len(), |i: int| (v[i].0@, v[i].1.model()))
}

pub broadcast proof fn list_model(v: Vec<Json>)
    ensures
        #[trigger] Json::List(v).model() == JsonModel::List(items(v@)),
{
    assert(Json::List(v).model()->List_0 =~= items(v@));
}

pub broadcast proof fn object_model(v: Vec<(String, Json)>)
    ensures
        #[trigger] Json::Object(v).model() == JsonModel::Object(members(v@)),
{
    assert(Json::Object(v).model()->Object_0 =~= members(v@));
}

/// `serde_json::Value`, an opaque value that is converted on the way in and out.
#[verifier::external_type_specification]
#[verifier::external_body]
pub struct ExValue(serde_json::Value);

/// What `serde_json` reads from a text, or why it refuses the text.
pub uninterp spec fn json_reading(text: Seq<char>) -> Result<JsonModel, Seq<char>>;

/// The compact text that `serde_json` writes for a value.
pub uninterp spec fn json_writing(value: JsonModel) -> Seq<char>;

/// Whether a value is written in the one way in which it is read: whole numbers,
/// members that stand in the order of their keys with no key twice, and no more than
/// `depth` values inside one another.
pub open spec fn plain_json(value: JsonModel, depth: nat) -> bool
    decreases value,
{
    match value {
        JsonModel::Negative(n) => n < 0,
        JsonModel::Decimal(_) => false,
        JsonModel::List(v) => depth > 0 && forall|i: int|
            0 <= i < v.len() ==> plain_json(#[trigger] v[i], (depth - 1) as nat),
        JsonModel::Object(v) => depth > 0 && keys_ascend(v) && forall|i: int|
            0 <= i < v.len() ==> plain_json((#[trigger] v[i]).1, (depth - 1) as nat),
        _ => true,
    }
}

/// Whether members stand in the order of their keys, with no key twice.
pub open spec fn keys_ascend(v: Seq<(Seq<char>, JsonModel)>) -> bool {
    forall|i: int, j: int|
        0 <= i < j < v.len() ==> (#[trigger] v[i]).0 != (#[trigger] v[j]).0 && text_le(
            v[i].0,
            v[j].0,
        )
}

/// Whether a text is read as a value.
pub open spec fn is_read_as(text: Seq<char>, value: JsonModel) -> bool {
    json_reading(text) == Ok::<JsonModel, Seq<char>>(value)
}

/// How many values `serde_json` reads inside one another.
pub const MAX_JSON_DEPTH: usize = 127;

/// A `serde_json::Value` taken apart, one arm for each variant. A number is
/// kept as a `u64` or an `i64` where it is one, and as its text otherwise.
#[verifier::external_body]
fn json_of(value: serde_json::Value) -> Json {
    match value {
        serde_json::Value::Null => Json::Null,
        serde_json::Value::Bool(b) => Json::Bool(b),
        serde_json::Value::Number(n) => match (n.as_u64(), n.as_i64()) {
            (Some(u), _) => Json::Unsigned(u),
            (None, Some(i)) => Json::Negative(i),
            (None, None) => Json::Decimal(n.to_string()),
        },
        serde_json::Value::String(s) => Json::Text(s),
        serde_json::Value::Array(a) => Json::List(a.into_iter().map(json_of).collect()),
        serde_json::Value::Object(m) => {
            Json::Object(m.into_iter().map(|(k, v)| (k, json_of(v))).collect())
        },
    }
}

/// The `serde_json::Value` of a value, one arm for each variant.
#[verifier::external_body]
fn value_of(json: &Json) -> serde_json::Value {
    match json {
        Json::Null => serde_json::Value::Null,
        Json::Bool(b) => serde_json::Value::from(*b),
        Json::Unsigned(n) => serde_json::Value::from(*n),
        Json::Negative(n) => serde_json::Value::from(*n),
        Json::Decimal(s) => serde_json::from_str(s).unwrap_or_default(),
        Json::Text(s) => serde_json::Value::from(s.as_str()),
        Json::List(v) => serde_json::Value::Array(v.iter().map(value_of).collect()),
        Json::Object(v) => serde_json::Value::Object(
            v.iter().map(|(k, j)| (k.clone(), value_of(j))).collect(),
        ),
    }
}

/// `serde_json::from_str`: what it reads, and why it refuses, depend on the
/// text alone.
#[verifier::external_body]
pub(crate) fn read_json(text: &str) -> (r: Result<Json, String>)
    ensures
        match r {
            Ok(j) => json_reading(text@) == Ok::<JsonModel, Seq<char>>(j.model()),
            Err(m) => json_reading(text@) == Err::<JsonModel, Seq<char>>(m@),
        },
{
    match serde_json::from_str::<serde_json::Value>(text) {
        Ok(value) => Ok(json_of(value)),
        Err(error) => Err(error.to_string()),
    }
}

/// What `serde_json` reads from bytes, or why it refuses the bytes.
pub uninterp spec fn json_bytes_reading(bytes: Seq<u8>) -> Result<JsonModel, Seq<char>>;

/// `serde_json::from_slice`: what it reads, and why it refuses, depend on the
/// bytes alone. The UTF-8 of a text is read as the text is.
#[verifier::external_body]
pub(crate) fn read_json_bytes(bytes: &[u8]) -> (r: Result<Json, String>)
    ensures
        match r {
            Ok(j) => json_bytes_reading(bytes@) == Ok::<JsonModel, Seq<char>>(j.model()) && (
            valid_utf8(bytes@) ==> json_reading(decode_utf8(bytes@)) == Ok::<JsonModel, Seq<char>>(
                j.model(),
            )),
            Err(m) => json_bytes_reading(bytes@) == Err::<JsonModel, Seq<char>>(m@) && (valid_utf8(
                bytes@,
            ) ==> json_reading(decode_utf8(bytes@)) == Err::<JsonModel, Seq<char>>(m@)),
        },
{
    match serde_json::from_slice::<serde_json::Value>(bytes) {
        Ok(value) => Ok(json_of(value)),
        Err(error) => Err(error.to_string()),
    }
}

/// `serde_json::Value`'s `Display`: the compact text depends on the value alone.
/// It holds no line break, and that of an object stands in braces. A plain value is
/// what `serde_json::from_str` reads from it.
#[verifier::external_body]
pub(crate) fn write_json(json: &Json) -> (s: String)
    ensures
        s@ == json_writing(json.model()),
        !s@.contains('\n'),
        json.model() is Object ==> s@.len() >= 2 && s@[0] == '{' && s@.last() == '}',
        plain_json(json.model(), MAX_JSON_DEPTH as nat) ==> is_read_as(s@, json.model()),
{
    value_of(json).to_string()
}

/// The indented text that `serde_json` writes for a value.
pub uninterp spec fn json_pretty(value: JsonModel) -> Seq<char>;

/// `serde_json::to_string_pretty` on a value: the indented text depends on the
/// value alone.
#[verifier::external_body]
pub(crate) fn write_json_pretty(json: &Json) -> (s: String)
    ensures
        s@ == json_pretty(json.model()),
{
    serde_json::to_string_pretty(&value_of(json)).unwrap_or_default()
}

/// How a character stands in a string literal: a quote, a backslash and the control
/// characters are escaped, every other character stands for itself.
pub open spec fn json_escaped(c: char) -> Seq<char> {
    let n = c as int;
    if c == '"' || c == '\\' {
        seq!['\\', c]
    } else if n == 8 {
        seq!['\\', 'b']
    } else if n == 9 {
        seq!['\\', 't']
    } else if n == 10 {
        seq!['\\', 'n']
    } else if n == 12 {
        seq!['\\', 'f']
    } else if n == 13 {
        seq!['\\', 'r']
    } else if n < 32 {
        seq!['\\', 'u', '0', '0', nibble(n / 16), nibble(n % 16)]
    } else {
        seq![c]
    }
}

/// The characters of a text, each as it stands in a string literal.
pub open spec fn json_escapes(text: Seq<char>) -> Seq<char>
    decreases text.len(),
{
    if text.len() == 0 {
        Seq::empty()
    } else {
        json_escaped(text[0]) + json_escapes(text.drop_first())
    }
}

/// The JSON string literal of a text.
#[verifier::opaque]
pub open spec fn json_quoted(text: Seq<char>) -> Seq<char> {
    seq!['"'] + json_escapes(text) + seq!['"']
}

proof fn escaped_cancels(a: char, x: Seq<char>, b: char, y: Seq<char>)
    requires
        json_escaped(a) + x == json_escaped(b) + y,
    ensures
        a == b,
        x == y,
{
    let s = json_escaped(a) + x;
    let ea = json_escaped(a);
    let eb = json_escaped(b);
    assert(s[0] == ea[0]);
    assert(s[0] == eb[0]);
    if s[0] == '\\' {
        assert(s[1] == ea[1]);
        assert(s[1] == eb[1]);
        if s[1] == 'u' {
            assert(s[4] == ea[4] && s[5] == ea[5]);
            assert(s[4] == eb[4] && s[5] == eb[5]);
            assert(a as int / 16 == b as int / 16 && a as int % 16 == b as int % 16);
            assert(a as int == b as int);
        }
    }
    assert(x =~= s.skip(ea.len() as int));
    assert(y =~= s.skip(ea.len() as int));
}

proof fn escapes_cancel(a: Seq<char>, x: Seq<char>, b: Seq<char>, y: Seq<char>)
    requires
        json_escapes(a) + (seq!['"'] + x) == json_escapes(b) + (seq!['"'] + y),
    ensures
        a == b,
        x == y,
    decreases a.len(),
{
    let s = json_escapes(a) + (seq!['"'] + x);
    let t = json_escapes(b) + (seq!['"'] + y);
    if a.len() > 0 && b.len() > 0 {
        let ra = json_escapes(a.drop_first()) + (seq!['"'] + x);
        let rb = json_escapes(b.drop_first()) + (seq!['"'] + y);
        assert(s =~= json_escaped(a[0]) + ra);
        assert(t =~= json_escaped(b[0]) + rb);
        escaped_cancels(a[0], ra, b[0], rb);
        escapes_cancel(a.drop_first(), x, b.drop_first(), y);
        assert(a =~= seq![a[0]] + a.drop_first());
        assert(b =~= seq![b[0]] + b.drop_first());
    } else if a.len() == 0 && b.len() == 0 {
        assert(x =~= s.skip(1));
        assert(y =~= t.skip(1));
        assert(a =~= b);
    } else if a.len() == 0 {
        assert(s[0] == '"');
        assert(t[0] == json_escaped(b[0])[0]);
    } else {
        assert(t[0] == '"');
        assert(s[0] == json_escaped(a[0])[0]);
    }
}

/// A string literal says where it ends, and which text it is of.
pub proof fn quoted_cancels(a: Seq<char>, x: Seq<char>, b: Seq<char>, y: Seq<char>)
    requires
        json_quoted(a) + x == json_quoted(b) + y,
    ensures
        a == b,
        x == y,
{
    reveal(json_quoted);
    let s = json_quoted(a) + x;
    assert(s.skip(1) =~= json_escapes(a) + (seq!['"'] + x));
    assert(s.skip(1) =~= json_escapes(b) + (seq!['"'] + y));
    escapes_cancel(a, x, b, y);
}

/// `serde_json::to_string` on a text: a quote, the text with a quote, a backslash and
/// the control characters escaped, and a quote. Control characters other than
/// backspace, tab, line feed, form feed and carriage return are written as `\u00`
/// and two lower-case hexadecimal digits.
#[verifier::external_body]
pub(crate) fn quote_json(text: &str) -> (s: String)
    ensures
        s@ == json_quoted(text@),
{
    serde_json::to_string(text).unwrap_or_default()
}

/// The value of the first member with the given key, from index `i` on.
pub open spec fn member_from(m: Seq<(Seq<char>, JsonModel)>, key: Seq<char>, i: int) -> Option<
    JsonModel,
>
    decreases m.len() - i,
{
    if i < 0 || i >= m.len() {
        None
    } else if m[i].0 == key {
        Some(m[i].1)
    } else {
        member_from(m, key, i + 1)
    }
}

/// The member of an object with the given key.
pub open spec fn member(j: JsonModel, key: Seq<char>) -> Option<JsonModel> {
    match j {
        JsonModel::Object(m) => member_from(m, key, 0),
        _ => None,
    }
}

/// A member of a member.
pub open spec fn nested(j: JsonModel, outer: Seq<char>, inner: Seq<char>) -> Option<JsonModel> {
    match member(j, outer) {
        Some(o) => member(o, inner),
        None => None,
    }
}

/// The text of a string value.
pub open spec fn as_text(j: Option<JsonModel>) -> Option<Seq<char>> {
    match j {
        Some(JsonModel::Text(s)) => Some(s),
        _ => None,
    }
}

/// The text of a string value, or `default` where it is not one.
pub open spec fn text_or(j: Option<JsonModel>, default: Seq<char>) -> Seq<char> {
    match as_text(j) {
        Some(s) => s,
        None => default,
    }
}

/// The number of a value that is a `u64`.
pub open spec fn as_unsigned(j: Option<JsonModel>) -> Option<u64> {
    match j {
        Some(JsonModel::Unsigned(n)) => Some(n),
        _ => None,
    }
}

/// The items of a list value.
pub open spec fn as_items(j: Option<JsonModel>) -> Option<Seq<JsonModel>> {
    match j {
        Some(JsonModel::List(v)) => Some(v),
        _ => None,
    }
}

/// The value of an optional reference.
pub open spec fn opt_model(j: Option<&Json>) -> Option<JsonModel> {
    match j {
        Some(v) => Some(v.model()),
        None => None,
    }
}

impl Json {
    /// The member of an object with the given key.
    pub fn get(&self, key: &str) -> (r: Option<&Json>)
        ensures
            opt_model(r) == member(self.model(), key@),
    {
        broadcast use object_model;

        match self {
            Json::Object(v) => {
                let mut i: usize = 0;
                assert(self.model() == JsonModel::Object(members(v@)));
                while i < v.len()
                    invariant
                        i <= v@.len(),
                        self.model() == JsonModel::Object(members(v@)),
                        member_from(members(v@), key@, 0) == member_from(
                            members(v@),
                            key@,
                            i as int,
                        ),
                    decreases v@.len() - i,
                {
                    if same(v[i].0.as_str(), key) {
                        let found = &v[i].1;
                        assert(members(v@)[i as int] == (v@[i as int].0@, found.model()));
                        return Some(found);
                    }
                    i = i + 1;
                }
                None
            },
            _ => None,
        }
    }

    /// A member of a member.
    pub fn get_nested(&self, outer: &str, inner: &str) -> (r: Option<&Json>)
        ensures
            opt_model(r) == nested(self.model(), outer@, inner@),
    {
        match self.get(outer) {
            Some(o) => o.get(inner),
            None => None,
        }
    }

    /// The text of a string value.
    pub fn as_str(&self) -> (r: Option<&str>)
        ensures
            match r {
                Some(s) => self.model() == JsonModel::Text(s@),
                None => !(self.model() is Text),
            },
    {
        match self {
            Json::Text(s) => Some(s.as_str()),
            _ => None,
        }
    }

    /// The number of a value that is a `u64`.
    pub fn as_u64(&self) -> (r: Option<u64>)
        ensures
            r == as_unsigned(Some(self.model())),
    {
        match self {
            Json::Unsigned(n) => Some(*n),
            _ => None,
        }
    }

    /// Whether the value is `true`.
    pub fn is_true(&self) -> (r: bool)
        ensures
            r == (self.model() == JsonModel::Bool(true)),
    {
        match self {
            Json::Bool(b) => *b,
            _ => false,
        }
    }

    /// The items of a list value.
    pub fn as_list(&self) -> (r: Option<&Vec<Json>>)
        ensures
            match r {
                Some(v) => self.model() == JsonModel::List(items(v@)) && *self == Json::List(*v),
                None => !(self.model() is List),
            },
    {
        broadcast use list_model;

        match self {
            Json::List(v) => Some(v),
            _ => None,
        }
    }

    /// The text of a string member, or `default` where there is none.
    pub fn text_at(&self, key: &str, default: &str) -> (s: String)
        ensures
            s@ == text_or(member(self.model(), key@), default@),
    {
        match self.get(key) {
            Some(j) => match j.as_str() {
                Some(s) => s.to_owned(),
                None => default.to_owned(),
            },
            None => default.to_owned(),
        }
    }

    /// The text of a string member of a member, or `default` where there is none.
    pub fn nested_text(&self, outer: &str, inner: &str, default: &str) -> (s: String)
        ensures
            s@ == text_or(nested(self.model(), outer@, inner@), default@),
    {
        match self.get_nested(outer, inner) {
            Some(j) => match j.as_str() {
                Some(s) => s.to_owned(),
                None => default.to_owned(),
            },
            None => default.to_owned(),
        }
    }

    /// A string value.
    pub fn string(s: &str) -> (j: Json)
        ensures
            j.model() == JsonModel::Text(s@),
    {
        Json::Text(s.to_owned())
    }

    /// A list value.
    pub fn list(v: Vec<Json>) -> (j: Json)
        ensures
            j.model() == JsonModel::List(items(v@)),
    {
        broadcast use list_model;

        Json::List(v)
    }

    /// An object value.
    pub fn object(v: Vec<(String, Json)>) -> (j: Json)
        ensures
            j.model() == JsonModel::Object(members(v@)),
    {
        broadcast use object_model;

        Json::Object(v)
    }

    /// The same value again.
    pub fn duplicate(&self) -> (j: Json)
        ensures
            j.model() == self.model(),
        decreases *self,
    {
        broadcast use {list_model, object_model};

        match self {
            Json::Null => Json::Null,
            Json::Bool(b) => Json::Bool(*b),
            Json::Unsigned(n) => Json::Unsigned(*n),
            Json::Negative(n) => Json::Negative(*n),
            Json::Decimal(s) => Json::Decimal(s.clone()),
            Json::Text(s) => Json::Text(s.clone()),
            Json::List(v) => {
                let mut out: Vec<Json> = Vec::new();
                let mut i: usize = 0;
                while i < v.len()
                    invariant
                        i <= v@.len(),
                        *self == Json::List(*v),
                        items(out@) =~= items(v@).take(i as int),
                    decreases v@.len() - i,
                {
                    assert(decreases_to!(*self => (*self)->List_0@[i as int]));
                    let item = v[i].duplicate();
                    let ghost before = out@;
                    out.push(item);
                    i = i + 1;
                    assert(items(out@) =~= items(before).push(item.model()));
                    assert(items(v@).take(i as int) =~= items(v@).take(i - 1).push(
                        items(v@)[i - 1],
                    ));
                }
                assert(items(v@).take(v@.len() as int) =~= items(v@));
                Json::List(out)
            },
            Json::Object(v) => {
                let mut out: Vec<(String, Json)> = Vec::new();
                let mut i: usize = 0;
                while i < v.len()
                    invariant
                        i <= v@.len(),
                        *self == Json::Object(*v),
                        members(out@) =~= members(v@).take(i as int),
                    decreases v@.len() - i,
                {
                    assert(decreases_to!(*self => (*self)->Object_0@[i as int]));
                    assert(decreases_to!(v@[i as int] => v@[i as int].1));
                    let pair = (v[i].0.clone(), v[i].1.duplicate());
                    let ghost before = out@;
                    out.push(pair);
                    i = i + 1;
                    assert(members(out@) =~= members(before).push((pair.0@, pair.1.model())));
                    assert(members(v@).take(i as int) =~= members(v@).take(i - 1).push(
                        members(v@)[i - 1],
                    ));
                }
                assert(members(v@).take(v@.len() as int) =~= members(v@));
                Json::Object(out)
            },
        }
    }
}

/// Appends a member to an object that is being built.
pub fn put(v: &mut Vec<(String, Json)>, key: &str, value: Json)
    ensures
        members(final(v)@) == members(old(v)@).push((key@, value.model())),
{
    v.push((key.to_owned(), value));
    assert(members(v@) =~= members(old(v)@).push((key@, value.model())));
}

/// Appends a string member to an object that is being built.
pub fn put_text(v: &mut Vec<(String, Json)>, key: &str, value: &str)
    ensures
        members(final(v)@) == members(old(v)@).push((key@, JsonModel::Text(value@))),
{
    put(v, key, Json::string(value));
}

/// Appends a value to a list that is being built.
pub fn add_item(v: &mut Vec<Json>, value: Json)
    ensures
        items(final(v)@) == items(old(v)@).push(value.model()),
{
    v.push(value);
    assert(items(v@) =~= items(old(v)@).push(value.model()));
}

/// A member is the value of the first entry with its key; without such an entry there is
/// none.
pub proof fn member_is_the_first_of_its_key(m: Seq<(Seq<char>, JsonModel)>, key: Seq<char>, at: int)
    requires
        0 <= at <= m.len(),
        forall|j: int| 0 <= j < at ==> (#[trigger] m[j]).0 != key,
    ensures
        at < m.len() && m[at].0 == key ==> member(JsonModel::Object(m), key) == Some(m[at].1),
        at == m.len() ==> member(JsonModel::Object(m), key) is None,
{
    members_before_do_not_count(m, key, 0, at);
}

proof fn members_before_do_not_count(
    m: Seq<(Seq<char>, JsonModel)>,
    key: Seq<char>,
    i: int,
    at: int,
)
    requires
        0 <= i <= at <= m.len(),
        forall|j: int| i <= j < at ==> (#[trigger] m[j]).0 != key,
    ensures
        member_from(m, key, i) == member_from(m, key, at),
    decreases at - i,
{
    if i < at {
        members_before_do_not_count(m, key, i + 1, at);
    }
}

/// Texts are escaped character by character: two texts one after the other are escaped one
/// after the other.
pub proof fn escapes_add(a: Seq<char>, b: Seq<char>)
    ensures
        json_escapes(a + b) == json_escapes(a) + json_escapes(b),
    decreases a.len(),
{
    if a.len() == 0 {
        assert(a + b =~= b);
        assert(json_escapes(a) + json_escapes(b) =~= json_escapes(b));
    } else {
        escapes_add(a.drop_first(), b);
        assert((a + b).drop_first() =~= a.drop_first() + b);
        assert((a + b)[0] == a[0]);
        assert(json_escapes(a + b) =~= json_escapes(a) + json_escapes(b));
    }
}

/// A character that JSON takes as it is stands for itself; a quote, a backslash and each
/// control character is written as an escape, those with a letter of their own by it.
pub proof fn only_special_characters_are_escaped(c: char)
    ensures
        c as int >= 32 && c != '"' && c != '\\' ==> json_escaped(c) == seq![c],
        c == '"' || c == '\\' ==> json_escaped(c) == seq!['\\', c],
        c == '\n' ==> json_escaped(c) == seq!['\\', 'n'],
        c == '\r' ==> json_escaped(c) == seq!['\\', 'r'],
        c == '\t' ==> json_escaped(c) == seq!['\\', 't'],
        c as int == 8 ==> json_escaped(c) == seq!['\\', 'b'],
        c as int == 12 ==> json_escaped(c) == seq!['\\', 'f'],
        (c as int) < 32 && c != '\n' && c != '\r' && c != '\t' && c as int != 8 && c as int != 12
            ==> json_escaped(c).len() == 6 && json_escaped(c).take(4) == seq!['\\', 'u', '0', '0']
            && 16 * hex_digit_value(json_escaped(c)[4]) + hex_digit_value(json_escaped(c)[5]) == c as int,
{
    if (c as int) < 32 && c != '\n' && c != '\r' && c != '\t' && c as int != 8 && c as int != 12 {
        assert(json_escaped(c).take(4) =~= seq!['\\', 'u', '0', '0']);
    }
}

/// A text without special characters is quoted as it is.
pub proof fn plain_text_is_quoted_as_it_is(s: Seq<char>)
    requires
        forall|i: int| 0 <= i < s.len() ==> #[trigger] s[i] as int >= 32 && s[i] != '"' && s[i]
            != '\\',
    ensures
        json_quoted(s) == seq!['"'] + s + seq!['"'],
{
    reveal(json_quoted);
    plain_text_has_no_escapes(s);
}

proof fn plain_text_has_no_escapes(s: Seq<char>)
    requires
        forall|i: int| 0 <= i < s.len() ==> #[trigger] s[i] as int >= 32 && s[i] != '"' && s[i]
            != '\\',
    ensures
        json_escapes(s) == s,
    decreases s.len(),
{
    if s.len() > 0 {
        let rest = s.drop_first();
        assert forall|i: int| 0 <= i < rest.len() implies #[trigger] rest[i] as int >= 32 && rest[i]
            != '"' && rest[i] != '\\' by {
            assert(rest[i] == s[i + 1]);
        }
        plain_text_has_no_escapes(rest);
        assert(s[0] as int >= 32);
        assert(seq![s[0]] + rest =~= s);
    }
}

} // verus!
