//! JSON values: a plain data type, its model, and its text form.
use serde_json::Value;
use vstd::prelude::*;
use crate::text;

verus! {

/// A JSON value. Object members keep their order; integers are exact, other numbers are kept in
/// their decimal notation.
pub enum Json {
    Null,
    Bool(bool),
    Unsigned(u64),
    Negative(i64),
    Decimal(String),
    Text(String),
    Array(Vec<Json>),
    Object(Vec<(String, Json)>),
}

/// The model of a JSON value.
#[verifier::ext_equal]
pub enum JsonView {
    Null,
    Bool(bool),
    Unsigned(u64),
    Negative(i64),
    Decimal(Seq<char>),
    Text(Seq<char>),
    Array(Seq<JsonView>),
    Object(Seq<(Seq<char>, JsonView)>),
}

impl Json {
    /// The model of a value.
    pub open spec fn model(self) -> JsonView
        decreases self,
    {
        match self {
            Json::Null => JsonView::Null,
            Json::Bool(b) => JsonView::Bool(b),
            Json::Unsigned(n) => JsonView::Unsigned(n),
            Json::Negative(n) => JsonView::Negative(n),
            Json::Decimal(s) => JsonView::Decimal(s@),
            Json::Text(s) => JsonView::Text(s@),
            Json::Array(items) => JsonView::Array(
                Seq::new(
                    items@.len(),
                    |i: int|
                        if 0 <= i < items@.len() {
                            items@[i].model()
                        } else {
                            JsonView::Null
                        },
                ),
            ),
            Json::Object(members) => JsonView::Object(
                Seq::new(
                    members@.len(),
                    |i: int|
                        if 0 <= i < members@.len() {
                            (members@[i].0@, members@[i].1.model())
                        } else {
                            (Seq::empty(), JsonView::Null)
                        },
                ),
            ),
        }
    }
}

impl DeepView for Json {
    type V = JsonView;

    open spec fn deep_view(&self) -> JsonView {
        self.model()
    }
}

/// The value of the first member called `key`.
pub open spec fn member(members: Seq<(Seq<char>, JsonView)>, key: Seq<char>) -> Option<JsonView>
    decreases members.len(),
{
    if members.len() == 0 {
        None
    } else if members[0].0 == key {
        Some(members[0].1)
    } else {
        member(members.drop_first(), key)
    }
}

impl JsonView {
    /// The member called `key`, where the value is an object that has it.
    pub open spec fn get(self, key: Seq<char>) -> Option<JsonView> {
        match self {
            JsonView::Object(members) => member(members, key),
            _ => None,
        }
    }

    /// The member called `key`, or null.
    pub open spec fn at(self, key: Seq<char>) -> JsonView {
        match self.get(key) {
            Some(v) => v,
            None => JsonView::Null,
        }
    }

    /// The text of a text value.
    pub open spec fn as_text(self) -> Option<Seq<char>> {
        match self {
            JsonView::Text(s) => Some(s),
            _ => None,
        }
    }

    /// The integer of a number that fits a signed 64-bit integer.
    pub open spec fn as_i64(self) -> Option<i64> {
        match self {
            JsonView::Unsigned(n) => if n <= i64::MAX {
                Some(n as i64)
            } else {
                None
            },
            JsonView::Negative(n) => Some(n),
            _ => None,
        }
    }

    /// The integer of a number that is not negative.
    pub open spec fn as_u64(self) -> Option<u64> {
        match self {
            JsonView::Unsigned(n) => Some(n),
            _ => None,
        }
    }

    /// The items of an array value.
    pub open spec fn as_array(self) -> Option<Seq<JsonView>> {
        match self {
            JsonView::Array(items) => Some(items),
            _ => None,
        }
    }
}

/// The number value of a signed integer.
pub open spec fn integer(n: int) -> JsonView {
    if n < 0 {
        JsonView::Negative(n as i64)
    } else {
        JsonView::Unsigned(n as u64)
    }
}

/// The value of an optional text: the text, or null.
pub open spec fn optional_text(s: Option<Seq<char>>) -> JsonView {
    match s {
        Some(t) => JsonView::Text(t),
        None => JsonView::Null,
    }
}

proof fn lemma_member_at(members: Seq<(Seq<char>, JsonView)>, key: Seq<char>, i: int)
    requires
        0 <= i <= members.len(),
        i < members.len() ==> members[i].0 == key,
        forall|j: int| 0 <= j < i ==> (#[trigger] members[j]).0 != key,
    ensures
        member(members, key) == (if i < members.len() {
            Some(members[i].1)
        } else {
            None
        }),
    decreases i,
{
    if i > 0 {
        let rest = members.drop_first();
        assert(members[0].0 != key);
        assert forall|j: int| 0 <= j < i - 1 implies (#[trigger] rest[j]).0 != key by {
            assert(rest[j] == members[j + 1]);
        }
        lemma_member_at(rest, key, i - 1);
    }
}

impl Clone for Json {
    fn clone(&self) -> (res: Self)
        ensures
            res.deep_view() == self.deep_view(),
        decreases self,
    {
        match self {
            Json::Null => Json::Null,
            Json::Bool(b) => Json::Bool(*b),
            Json::Unsigned(n) => Json::Unsigned(*n),
            Json::Negative(n) => Json::Negative(*n),
            Json::Decimal(s) => Json::Decimal(text::copy(s.as_str())),
            Json::Text(s) => Json::Text(text::copy(s.as_str())),
            Json::Array(items) => {
                let mut out: Vec<Json> = Vec::new();
                let mut i: usize = 0;
                while i < items.len()
                    invariant
                        i <= items@.len(),
                        out@.len() == i,
                        *self matches Json::Array(own) && own == *items,
                        forall|j: int| 0 <= j < i ==> out@[j].model() == items@[j].model(),
                    decreases items@.len() - i,
                {
                    let item = &items[i];
                    assert(decreases_to!(self => items@[i as int]));
                    let c = item.clone();
                    out.push(c);
                    i += 1;
                }
                let res = Json::Array(out);
                assert(res.model()->Array_0 =~= self.model()->Array_0);
                res
            },
            Json::Object(members) => {
                let mut out: Vec<(String, Json)> = Vec::new();
                let mut i: usize = 0;
                while i < members.len()
                    invariant
                        i <= members@.len(),
                        out@.len() == i,
                        *self matches Json::Object(own) && own == *members,
                        forall|j: int|
                            0 <= j < i ==> (#[trigger] out@[j]).0@ == members@[j].0@
                                && out@[j].1.model() == members@[j].1.model(),
                    decreases members@.len() - i,
                {
                    let entry = &members[i];
                    assert(decreases_to!(self => members@[i as int].1));
                    let c = entry.1.clone();
                    out.push((text::copy(entry.0.as_str()), c));
                    i += 1;
                }
                let res = Json::Object(out);
                assert(res.model()->Object_0 =~= self.model()->Object_0);
                res
            },
        }
    }
}

impl Json {
    /// A text value.
    pub fn text(s: &str) -> (res: Json)
        ensures
            res.deep_view() == JsonView::Text(s@),
    {
        Json::Text(text::copy(s))
    }

    /// A text value that takes over a text.
    pub fn owned_text(s: String) -> (res: Json)
        ensures
            res.deep_view() == JsonView::Text(s@),
    {
        Json::Text(s)
    }

    /// A truth value.
    pub fn boolean(b: bool) -> (res: Json)
        ensures
            res.deep_view() == JsonView::Bool(b),
    {
        Json::Bool(b)
    }

    /// The null value.
    pub fn null() -> (res: Json)
        ensures
            res.deep_view() == JsonView::Null,
    {
        Json::Null
    }

    /// The number value of an unsigned integer.
    pub fn unsigned(n: u64) -> (res: Json)
        ensures
            res.deep_view() == JsonView::Unsigned(n),
    {
        Json::Unsigned(n)
    }

    /// The text of an option, or null.
    pub fn optional(s: &Option<String>) -> (res: Json)
        ensures
            res.deep_view() == optional_text(s.deep_view()),
    {
        match s {
            Some(t) => Json::Text(text::copy(t.as_str())),
            None => Json::Null,
        }
    }

    /// The number value of a signed integer.
    pub fn integer(n: i64) -> (res: Json)
        ensures
            res.deep_view() == integer(n as int),
    {
        if n < 0 {
            Json::Negative(n)
        } else {
            Json::Unsigned(n as u64)
        }
    }

    /// The member called `key`, where the value is an object that has it.
    pub fn get(&self, key: &str) -> (res: Option<&Json>)
        ensures
            match res {
                Some(v) => self.deep_view().get(key@) == Some(v.deep_view()),
                None => self.deep_view().get(key@) is None,
            },
    {
        match self {
            Json::Object(members) => {
                let ghost all = self.model()->Object_0;
                let mut i: usize = 0;
                while i < members.len()
                    invariant
                        i <= members@.len(),
                        *self matches Json::Object(own) && own == *members,
                        all == self.model()->Object_0,
                        all.len() == members@.len(),
                        forall|j: int| 0 <= j < i ==> (#[trigger] all[j]).0 != key@,
                    decreases members@.len() - i,
                {
                    let entry = &members[i];
                    assert(all[i as int] == (entry.0@, entry.1.model()));
                    if text::same(entry.0.as_str(), key) {
                        proof {
                            lemma_member_at(all, key@, i as int);
                        }
                        return Some(&entry.1);
                    }
                    i += 1;
                }
                proof {
                    lemma_member_at(all, key@, i as int);
                }
                None
            },
            _ => None,
        }
    }

    /// A copy of the member called `key`, or null.
    pub fn at(&self, key: &str) -> (res: Json)
        ensures
            res.deep_view() == self.deep_view().at(key@),
    {
        match self.get(key) {
            Some(v) => v.clone(),
            None => Json::Null,
        }
    }

    /// The text of a text value.
    pub fn as_text(&self) -> (res: Option<&str>)
        ensures
            match res {
                Some(s) => self.deep_view().as_text() == Some(s@),
                None => self.deep_view().as_text() is None,
            },
    {
        match self {
            Json::Text(s) => Some(s.as_str()),
            _ => None,
        }
    }

    /// The integer of a number that fits a signed 64-bit integer.
    pub fn as_i64(&self) -> (res: Option<i64>)
        ensures
            res == self.deep_view().as_i64(),
    {
        match self {
            Json::Unsigned(n) => if *n <= i64::MAX as u64 {
                Some(*n as i64)
            } else {
                None
            },
            Json::Negative(n) => Some(*n),
            _ => None,
        }
    }

    /// The integer of a number that is not negative.
    pub fn as_u64(&self) -> (res: Option<u64>)
        ensures
            res == self.deep_view().as_u64(),
    {
        match self {
            Json::Unsigned(n) => Some(*n),
            _ => None,
        }
    }

    /// The items of an array value.
    pub fn as_array(&self) -> (res: Option<&Vec<Json>>)
        ensures
            match res {
                Some(items) => self.deep_view().as_array() == Some(items.deep_view()),
                None => self.deep_view().as_array() is None,
            },
    {
        match self {
            Json::Array(items) => {
                assert(self.model()->Array_0 =~= items.deep_view());
                Some(items)
            },
            _ => None,
        }
    }
}

/// The number of arrays and objects that may stand within each other in a text that is read.
pub const NESTING_LIMIT: usize = 127;

/// Whether the members of an object have different names.
pub open spec fn has_distinct_names(members: Seq<(Seq<char>, JsonView)>) -> bool {
    forall|i: int, j: int|
        #![trigger members[i], members[j]]
        0 <= i < j < members.len() ==> members[i].0 != members[j].0
}

impl JsonView {
    /// Whether a value is in plain form: numbers are integers, those without a sign are kept as
    /// such, and the members of an object have different names.
    pub open spec fn is_plain(self) -> bool
        decreases self,
    {
        match self {
            JsonView::Negative(n) => n < 0,
            JsonView::Decimal(_) => false,
            JsonView::Array(items) => forall|i: int|
                0 <= i < items.len() ==> (#[trigger] items[i]).is_plain(),
            JsonView::Object(members) => has_distinct_names(members) && forall|i: int|
                0 <= i < members.len() ==> (#[trigger] members[i]).1.is_plain(),
            _ => true,
        }
    }

    /// Whether a value holds integers only, and not more than `depth` arrays and objects within
    /// each other.
    pub open spec fn is_within(self, depth: int) -> bool
        decreases self,
    {
        match self {
            JsonView::Decimal(_) => false,
            JsonView::Array(items) => depth > 0 && forall|i: int|
                0 <= i < items.len() ==> (#[trigger] items[i]).is_within(depth - 1),
            JsonView::Object(members) => depth > 0 && forall|i: int|
                0 <= i < members.len() ==> (#[trigger] members[i]).1.is_within(depth - 1),
            _ => true,
        }
    }

    /// Whether two values are the same but for the order of the members of objects.
    pub open spec fn same_as(self, other: JsonView) -> bool
        decreases self,
    {
        match (self, other) {
            (JsonView::Array(x), JsonView::Array(y)) => x.len() == y.len() && forall|i: int|
                0 <= i < x.len() ==> (#[trigger] x[i]).same_as(y[i]),
            (JsonView::Object(x), JsonView::Object(y)) => x.len() == y.len() && has_distinct_names(x)
                && forall|i: int|
                0 <= i < x.len() ==> (member(y, (#[trigger] x[i]).0) matches Some(v)
                    && x[i].1.same_as(v)),
            (a, b) => a == b,
        }
    }
}

#[verifier::external_type_specification]
#[verifier::external_body]
pub struct ExValue(serde_json::Value);

#[verifier::external_type_specification]
#[verifier::external_body]
pub struct ExJsonError(serde_json::Error);

/// The `serde_json` value built from a JSON value.
pub uninterp spec fn serde_value(json: JsonView) -> Value;

/// The text that `serde_json` writes for a value.
pub uninterp spec fn serde_text(value: Value) -> Seq<char>;

/// The value that `serde_json` reads from a text, if it is valid JSON.
pub uninterp spec fn serde_parsed(s: Seq<char>) -> Option<Value>;

/// The reason that `serde_json` gives for a text that is no valid JSON.
pub uninterp spec fn serde_refusal(s: Seq<char>) -> Seq<char>;

/// The contents of a `serde_json` value.
pub uninterp spec fn serde_contents(value: Value) -> JsonView;

/// Builds the `serde_json` value with the same contents. Members go into the crate's own map, which
/// orders them and keeps one of each name; a decimal number is read by the crate's number parser,
/// and what it does not read becomes null. So a value in plain form keeps its contents but for the
/// order of members.
#[verifier::external_body]
fn to_value(json: &Json) -> (res: Value)
    ensures
        res == serde_value(json.deep_view()),
        json.deep_view().is_plain() ==> serde_contents(res).same_as(json.deep_view()),
{
    match json {
        Json::Null => Value::Null,
        Json::Bool(b) => Value::from(*b),
        Json::Unsigned(n) => Value::from(*n),
        Json::Negative(n) => Value::from(*n),
        Json::Decimal(s) => serde_json::from_str(s).unwrap_or(Value::Null),
        Json::Text(s) => Value::from(s.as_str()),
        Json::Array(items) => items.iter().map(to_value).collect(),
        Json::Object(m) => m.iter().map(|e| (e.0.clone(), to_value(&e.1))).collect(),
    }
}

/// Reads the contents of a `serde_json` value; a number that is no integer is taken as the text
/// that the crate writes for it.
#[verifier::external_body]
fn from_value(value: &Value) -> (res: Json)
    ensures
        res.deep_view() == serde_contents(*value),
{
    match value {
        Value::Null => Json::Null,
        Value::Bool(b) => Json::Bool(*b),
        Value::Number(n) if n.is_u64() => Json::Unsigned(n.as_u64().unwrap_or(0)),
        Value::Number(n) if n.is_i64() => Json::Negative(n.as_i64().unwrap_or(0)),
        Value::Number(n) => Json::Decimal(n.to_string()),
        Value::String(s) => Json::Text(s.clone()),
        Value::Array(items) => Json::Array(items.iter().map(from_value).collect()),
        Value::Object(map) => {
            Json::Object(map.iter().map(|e| (e.0.clone(), from_value(e.1))).collect())
        },
    }
}

/// `serde_json::to_string` on a value. It succeeds: a value has only text keys and writing to
/// memory does not fail. The text is compact and escapes control characters, so it is one line, and
/// it is never empty. `serde_json::from_str` reads it back, where no number in it is a decimal one
/// and no more arrays and objects stand within each other than it reads.
#[verifier::external_body]
fn value_text(value: &Value) -> (res: Result<String, serde_json::Error>)
    ensures
        res is Ok,
        res matches Ok(s) ==> s@ == serde_text(*value) && s@.len() > 0 && !s@.contains('\n'),
        res matches Ok(s) ==> serde_contents(*value).is_within(NESTING_LIMIT as int)
            ==> serde_parsed(s@) == Some(*value),
{
    serde_json::to_string(value)
}

/// `serde_json::from_str` into a value; the text of its error where it fails.
#[verifier::external_body]
fn parse_value(s: &str) -> (res: Result<Value, String>)
    ensures
        match res {
            Ok(v) => serde_parsed(s@) == Some(v),
            Err(e) => serde_parsed(s@) is None && e@ == serde_refusal(s@),
        },
{
    serde_json::from_str(s).map_err(|e: serde_json::Error| e.to_string())
}

/// The text that `serde_json` writes for an object with these members, in this order.
pub uninterp spec fn serde_object_text(members: Seq<(Seq<char>, Value)>) -> Seq<char>;

/// Members with their names as texts.
pub open spec fn named_values(members: Seq<(String, Value)>) -> Seq<(Seq<char>, Value)> {
    members.map_values(|m: (String, Value)| (m.0@, m.1))
}

/// The object with these members.
pub open spec fn object_contents(members: Seq<(String, Value)>) -> JsonView {
    JsonView::Object(members.map_values(|m: (String, Value)| (m.0@, serde_contents(m.1))))
}

/// `collect_map` of a `serde_json::Serializer` into memory, which writes members in the order in
/// which they come, as it writes the fields of a structure. It succeeds: all keys are text and
/// writing to memory does not fail. The text is compact and escapes control characters, so it is one
/// line, and it ends in a brace. `serde_json::from_str` reads it back, but for the order of members,
/// where the names differ, no number in it is a decimal one and no more arrays and objects stand
/// within each other than it reads.
#[verifier::external_body]
fn object_text(members: &Vec<(String, Value)>) -> (res: Result<String, String>)
    ensures
        res is Ok,
        res matches Ok(s) ==> s@ == serde_object_text(named_values(members@)) && s@.len() > 0
            && s@.last() == '}' && !s@.contains('\n'),
        res matches Ok(s) ==> has_distinct_names(object_contents(members@)->Object_0)
            && object_contents(members@).is_within(NESTING_LIMIT as int) ==> (serde_parsed(
            s@,
        ) matches Some(v) && serde_contents(v).same_as(object_contents(members@))),
{
    let mut out: Vec<u8> = Vec::new();
    let mut writer = serde_json::Serializer::new(&mut out);
    serde::Serializer::collect_map(&mut writer, members.iter().map(|m| (&m.0, &m.1)))
        .map_err(|e: serde_json::Error| e.to_string())?;
    String::from_utf8(out).map_err(|e| e.to_string())
}

/// The text form of a JSON value.
pub open spec fn json_text(json: JsonView) -> Seq<char> {
    serde_text(serde_value(json))
}

/// The JSON value in a text, if it is valid.
pub open spec fn parsed_json(s: Seq<char>) -> Option<JsonView> {
    match serde_parsed(s) {
        Some(v) => Some(serde_contents(v)),
        None => None,
    }
}

/// Whether reading the text form of a value gives the value back, but for the order of members.
pub open spec fn is_read_back(json: JsonView) -> bool {
    parsed_json(json_text(json)) matches Some(v) && v.same_as(json)
}

spec fn member_place(members: Seq<(Seq<char>, JsonView)>, key: Seq<char>) -> int
    decreases members.len(),
{
    if members.len() == 0 || members[0].0 == key {
        0
    } else {
        1 + member_place(members.drop_first(), key)
    }
}

proof fn lemma_member_place(members: Seq<(Seq<char>, JsonView)>, key: Seq<char>)
    requires
        member(members, key) is Some,
    ensures
        0 <= member_place(members, key) < members.len(),
        members[member_place(members, key)].0 == key,
        member(members, key) == Some(members[member_place(members, key)].1),
    decreases members.len(),
{
    if members[0].0 != key {
        let rest = members.drop_first();
        lemma_member_place(rest, key);
        assert(members[member_place(members, key)] == rest[member_place(rest, key)]);
    }
}

proof fn lemma_same_is_within(a: JsonView, b: JsonView, depth: int)
    requires
        a.same_as(b),
        b.is_within(depth),
    ensures
        a.is_within(depth),
    decreases a,
{
    match (a, b) {
        (JsonView::Array(x), JsonView::Array(y)) => {
            assert forall|i: int| 0 <= i < x.len() implies (#[trigger] x[i]).is_within(depth - 1) by {
                assert(y[i].is_within(depth - 1));
                lemma_same_is_within(x[i], y[i], depth - 1);
            }
        },
        (JsonView::Object(x), JsonView::Object(y)) => {
            assert forall|i: int| 0 <= i < x.len() implies (#[trigger] x[i]).1.is_within(
                depth - 1,
            ) by {
                lemma_member_place(y, x[i].0);
                let j = member_place(y, x[i].0);
                lemma_same_is_within(x[i].1, y[j].1, depth - 1);
            }
        },
        _ => {},
    }
}

/// A member is found by its name.
pub proof fn lemma_named_member(members: Seq<(Seq<char>, JsonView)>, i: int)
    requires
        has_distinct_names(members),
        0 <= i < members.len(),
    ensures
        member(members, members[i].0) == Some(members[i].1),
{
    assert forall|j: int| 0 <= j < i implies (#[trigger] members[j]).0 != members[i].0 by {}
    lemma_member_at(members, members[i].0, i);
}

spec fn names(members: Seq<(Seq<char>, JsonView)>) -> Seq<Seq<char>> {
    members.map_values(|m: (Seq<char>, JsonView)| m.0)
}

spec fn has_name(members: Seq<(Seq<char>, JsonView)>, key: Seq<char>) -> bool {
    exists|i: int| 0 <= i < members.len() && (#[trigger] members[i]).0 == key
}

proof fn lemma_same_names(
    x: Seq<(Seq<char>, JsonView)>,
    y: Seq<(Seq<char>, JsonView)>,
    key: Seq<char>,
)
    requires
        has_distinct_names(x),
        has_distinct_names(y),
        x.len() == y.len(),
        forall|i: int| 0 <= i < x.len() ==> has_name(y, (#[trigger] x[i]).0),
        has_name(y, key),
    ensures
        has_name(x, key),
{
    let (a, b) = (names(x), names(y));
    assert forall|i: int, j: int| 0 <= i < a.len() && 0 <= j < a.len() && i != j implies a[i]
        != a[j] by {
        assert(x[i].0 == a[i] && x[j].0 == a[j]);
    }
    assert forall|i: int, j: int| 0 <= i < b.len() && 0 <= j < b.len() && i != j implies b[i]
        != b[j] by {
        assert(y[i].0 == b[i] && y[j].0 == b[j]);
    }
    a.unique_seq_to_set();
    b.unique_seq_to_set();
    assert forall|k: Seq<char>| a.to_set().contains(k) implies b.to_set().contains(k) by {
        let i = choose|i: int| 0 <= i < a.len() && a[i] == k;
        assert(x[i].0 == k);
        let j = choose|j: int| 0 <= j < y.len() && (#[trigger] y[j]).0 == x[i].0;
        assert(b[j] == k);
    }
    vstd::set_lib::lemma_subset_equality(a.to_set(), b.to_set());
    let j = choose|j: int| 0 <= j < y.len() && (#[trigger] y[j]).0 == key;
    assert(b[j] == key);
    assert(a.to_set().contains(key));
    let i = choose|i: int| 0 <= i < a.len() && a[i] == key;
    assert(x[i].0 == key);
}

/// Values that are the same but for the order of members have the same members.
pub proof fn law_same_values_have_the_same_members(a: JsonView, b: JsonView, key: Seq<char>)
    requires
        a.same_as(b),
        b.is_plain(),
    ensures
        a.get(key) is Some <==> b.get(key) is Some,
        a.get(key) is Some ==> a.get(key)->0.same_as(b.get(key)->0),
{
    match (a, b) {
        (JsonView::Object(x), JsonView::Object(y)) => {
            assert forall|i: int| 0 <= i < x.len() implies has_name(y, (#[trigger] x[i]).0) by {
                lemma_member_place(y, x[i].0);
                assert(y[member_place(y, x[i].0)].0 == x[i].0);
            }
            if a.get(key) is Some {
                lemma_member_place(x, key);
                assert(x[member_place(x, key)].0 == key);
            }
            if b.get(key) is Some {
                lemma_member_place(y, key);
                assert(y[member_place(y, key)].0 == key);
                lemma_same_names(x, y, key);
                let i = choose|i: int| 0 <= i < x.len() && (#[trigger] x[i]).0 == key;
                lemma_named_member(x, i);
            }
        },
        _ => {},
    }
}

/// Writes a JSON value as one line of text. Reading the text gives the value back.
pub fn write_json(json: &Json) -> (res: String)
    ensures
        res@ == json_text(json.deep_view()),
        res@.len() > 0,
        !res@.contains('\n'),
        json.deep_view().is_plain() && json.deep_view().is_within(NESTING_LIMIT as int)
            ==> is_read_back(json.deep_view()),
{
    let value = to_value(json);
    proof {
        let j = json.deep_view();
        if j.is_plain() && j.is_within(NESTING_LIMIT as int) {
            lemma_same_is_within(serde_contents(value), j, NESTING_LIMIT as int);
        }
    }
    match value_text(&value) {
        Ok(s) => s,
        Err(_) => String::new(),
    }
}

proof fn lemma_same_is_transitive(a: JsonView, b: JsonView, c: JsonView)
    requires
        a.same_as(b),
        b.same_as(c),
    ensures
        a.same_as(c),
    decreases a,
{
    match (a, b, c) {
        (JsonView::Array(x), JsonView::Array(y), JsonView::Array(z)) => {
            assert forall|i: int| 0 <= i < x.len() implies (#[trigger] x[i]).same_as(z[i]) by {
                assert(y[i].same_as(z[i]));
                lemma_same_is_transitive(x[i], y[i], z[i]);
            }
        },
        (JsonView::Object(x), JsonView::Object(y), JsonView::Object(z)) => {
            assert forall|i: int| 0 <= i < x.len() implies (member(
                z,
                (#[trigger] x[i]).0,
            ) matches Some(v) && x[i].1.same_as(v)) by {
                lemma_member_place(y, x[i].0);
                let j = member_place(y, x[i].0);
                assert(member(z, y[j].0) is Some);
                lemma_same_is_transitive(x[i].1, y[j].1, member(z, y[j].0)->0);
            }
        },
        _ => {},
    }
}

/// The text of an object with members in their order.
pub open spec fn record_text(members: Seq<(Seq<char>, JsonView)>) -> Seq<char> {
    serde_object_text(
        members.map_values(|m: (Seq<char>, JsonView)| (m.0, serde_value(m.1))),
    )
}

/// Writes an object as one line of text, its members in their order. Reading the text gives the
/// object back, but for the order of members.
pub fn write_record(members: &Vec<(String, Json)>) -> (res: String)
    ensures
        res@ == record_text(members.deep_view()),
        res@.len() > 0,
        res@.last() == '}',
        !res@.contains('\n'),
        JsonView::Object(members.deep_view()).is_plain() && JsonView::Object(
            members.deep_view(),
        ).is_within(NESTING_LIMIT as int) ==> (parsed_json(res@) matches Some(v) && v.same_as(
            JsonView::Object(members.deep_view()),
        )),
{
    let ghost all = members.deep_view();
    let ghost object = JsonView::Object(all);
    let mut values: Vec<(String, Value)> = Vec::new();
    let mut i: usize = 0;
    while i < members.len()
        invariant
            i <= members@.len(),
            values@.len() == i,
            all == members.deep_view(),
            forall|j: int|
                0 <= j < i ==> (#[trigger] values@[j]).0@ == all[j].0 && values@[j].1
                    == serde_value(all[j].1) && (all[j].1.is_plain() ==> serde_contents(
                    values@[j].1,
                ).same_as(all[j].1)),
        decreases members@.len() - i,
    {
        assert(all[i as int] == (members@[i as int].0@, members@[i as int].1.deep_view()));
        values.push((text::copy(members[i].0.as_str()), to_value(&members[i].1)));
        i += 1;
    }
    proof {
        assert(named_values(values@) =~= all.map_values(
            |m: (Seq<char>, JsonView)| (m.0, serde_value(m.1)),
        ));
        if object.is_plain() && object.is_within(NESTING_LIMIT as int) {
            let x = object_contents(values@)->Object_0;
            assert forall|j: int| 0 <= j < x.len() implies (#[trigger] x[j]).0 == all[j].0
                && x[j].1.same_as(all[j].1) && x[j].1.is_within(NESTING_LIMIT - 1) by {
                assert(x[j] == (values@[j].0@, serde_contents(values@[j].1)));
                assert(all[j].1.is_plain());
                assert(all[j].1.is_within(NESTING_LIMIT - 1));
                lemma_same_is_within(x[j].1, all[j].1, NESTING_LIMIT - 1);
            }
            assert forall|a: int, b: int|
                #![trigger x[a], x[b]]
                0 <= a < b < x.len() implies x[a].0 != x[b].0 by {
                assert(all[a].0 != all[b].0);
            }
            assert(has_distinct_names(x));
            assert(object_contents(values@).is_within(NESTING_LIMIT as int));
            assert forall|j: int| 0 <= j < x.len() implies (member(
                all,
                (#[trigger] x[j]).0,
            ) matches Some(v) && x[j].1.same_as(v)) by {
                lemma_named_member(all, j);
            }
            assert(object_contents(values@).same_as(object));
        }
    }
    match object_text(&values) {
        Ok(s) => {
            proof {
                if object.is_plain() && object.is_within(NESTING_LIMIT as int) {
                    lemma_same_is_transitive(
                        parsed_json(s@)->0,
                        object_contents(values@),
                        object,
                    );
                }
            }
            s
        },
        Err(_) => String::new(),
    }
}

/// Reads a JSON value from text, or says why it cannot.
pub fn read_json(s: &str) -> (res: Result<Json, String>)
    ensures
        match parsed_json(s@) {
            Some(v) => res matches Ok(json) && json.deep_view() == v,
            None => res matches Err(e) && e@ == serde_refusal(s@),
        },
{
    match parse_value(s) {
        Ok(v) => Ok(from_value(&v)),
        Err(e) => Err(e),
    }
}

/// A member is found by its name: the first of that name, and none where no member has it.
pub proof fn law_members_are_found_by_name(
    before: Seq<(Seq<char>, JsonView)>,
    key: Seq<char>,
    value: JsonView,
    after: Seq<(Seq<char>, JsonView)>,
)
    requires
        forall|i: int| 0 <= i < before.len() ==> (#[trigger] before[i]).0 != key,
    ensures
        JsonView::Object(before).get(key) is None,
        JsonView::Object(before).at(key) == JsonView::Null,
        JsonView::Object(before + seq![(key, value)] + after).get(key) == Some(value),
        JsonView::Object(before + seq![(key, value)] + after).at(key) == value,
{
    let all = before + seq![(key, value)] + after;
    assert forall|j: int| 0 <= j < before.len() implies (#[trigger] all[j]).0 != key by {
        assert(all[j] == before[j]);
    }
    lemma_member_at(all, key, before.len() as int);
    lemma_member_at(before, key, before.len() as int);
}

/// An integer is read back as itself, as signed where it fits and as unsigned where it is not
/// negative, and never as a text; a text is read as itself and never as a number.
pub proof fn law_values_are_read_as_what_they_are(n: int, s: Seq<char>)
    requires
        i64::MIN <= n <= u64::MAX,
    ensures
        n <= i64::MAX ==> integer(n).as_i64() == Some(n as i64),
        n > i64::MAX ==> integer(n).as_i64() is None,
        n >= 0 ==> integer(n).as_u64() == Some(n as u64),
        n < 0 ==> integer(n).as_u64() is None,
        integer(n).as_text() is None,
        JsonView::Text(s).as_text() == Some(s),
        JsonView::Text(s).as_i64() is None,
        JsonView::Text(s).as_u64() is None,
        optional_text(Some(s)).as_text() == Some(s),
        optional_text(None) == JsonView::Null,
{
}

} // verus!
