//! JSON values.
//!
//! [`Json`] holds as plain values what `serde_json::Value` holds. Parsing, printing and the
//! conversion between the two go through `serde_json`.

use serde_json::{Number, Value};
use vstd::prelude::*;

use crate::text::same_text;

verus! {

/// The numbers of `serde_json`, carried through as they are.
#[verifier::external_type_specification]
#[verifier::external_body]
pub struct ExNumber(serde_json::Number);

/// The values of `serde_json`, which [`Json`] is converted from and to.
#[verifier::external_type_specification]
#[verifier::external_body]
pub struct ExValue(serde_json::Value);

/// The errors of `serde_json`.
#[verifier::external_type_specification]
#[verifier::external_body]
pub struct ExJsonError(serde_json::Error);

/// What a JSON value is. An object is its members in their order, each key once.
pub enum JsonView {
    Null,
    Bool(bool),
    Number(Number),
    String(Seq<char>),
    Array(Seq<JsonView>),
    Object(Seq<(Seq<char>, JsonView)>),
}

/// A JSON value. Where an object lists a key more than once, the last value holds, in the place
/// of the first.
pub enum Json {
    Null,
    Bool(bool),
    Number(Number),
    String(String),
    Array(Vec<Json>),
    Object(Vec<(String, Json)>),
}

/// One level of a `serde_json` value.
pub enum Parts {
    Null,
    Bool(bool),
    Number(Number),
    String(String),
    Array(Vec<Value>),
    Object(Vec<(String, Value)>),
}

/// What a `serde_json` value holds.
pub uninterp spec fn value_view(value: Value) -> JsonView;

/// What `serde_json::from_slice` reads from a text: a value, or the message of its error.
pub uninterp spec fn json_parsed(text: Seq<u8>) -> Result<JsonView, Seq<char>>;

/// What `serde_json::to_vec` writes for a value: the text, or the message of its error.
pub uninterp spec fn json_written(value: JsonView) -> Result<Seq<u8>, Seq<char>>;

/// What `serde_json::to_string_pretty` writes for a value, where it succeeds.
pub uninterp spec fn json_pretty(value: JsonView) -> Option<Seq<char>>;

/// What the `Display` impl of `serde_json::Value` writes for a value.
pub uninterp spec fn json_display(value: JsonView) -> Seq<char>;

/// What `serde_json::Number::as_i64` gives.
pub uninterp spec fn number_i64(number: Number) -> Option<i64>;

/// What `serde_json::Number::as_u64` gives.
pub uninterp spec fn number_u64(number: Number) -> Option<u64>;

/// What the `From<i64>` impl of `serde_json::Number` gives.
pub uninterp spec fn number_from(n: i64) -> Number;

/// The message of a `serde_json` error.
pub uninterp spec fn error_message(error: serde_json::Error) -> Seq<char>;

/// `members` with `value` under `key`: in place where the key occurs, else at the end.
pub open spec fn with_member(
    members: Seq<(Seq<char>, JsonView)>,
    key: Seq<char>,
    value: JsonView,
) -> Seq<(Seq<char>, JsonView)>
    decreases members.len(),
{
    if members.len() == 0 {
        seq![(key, value)]
    } else if members[0].0 == key {
        seq![(key, value)] + members.drop_first()
    } else {
        seq![members[0]] + with_member(members.drop_first(), key, value)
    }
}

/// The value under `key`.
pub open spec fn lookup(members: Seq<(Seq<char>, JsonView)>, key: Seq<char>) -> Option<JsonView>
    decreases members.len(),
{
    if members.len() == 0 {
        None
    } else if members[0].0 == key {
        Some(members[0].1)
    } else {
        lookup(members.drop_first(), key)
    }
}

/// The members that are left when all of `listed` are entered one after the other.
pub open spec fn gathered(listed: Seq<(Seq<char>, JsonView)>) -> Seq<(Seq<char>, JsonView)>
    decreases listed.len(),
{
    if listed.len() == 0 {
        Seq::empty()
    } else {
        with_member(gathered(listed.drop_last()), listed.last().0, listed.last().1)
    }
}

/// Whether no key occurs twice.
pub open spec fn distinct_keys(members: Seq<(Seq<char>, JsonView)>) -> bool {
    forall|i: int, j: int|
        0 <= i < j < members.len() ==> #[trigger] members[i].0 != #[trigger] members[j].0
}

/// What a JSON value is.
pub open spec fn json_view(value: Json) -> JsonView
    decreases value,
{
    match value {
        Json::Null => JsonView::Null,
        Json::Bool(b) => JsonView::Bool(b),
        Json::Number(n) => JsonView::Number(n),
        Json::String(s) => JsonView::String(s@),
        Json::Array(items) => JsonView::Array(items_view(items@)),
        Json::Object(members) => JsonView::Object(members_view(members@)),
    }
}

/// What the items of an array are.
pub open spec fn items_view(items: Seq<Json>) -> Seq<JsonView>
    decreases items,
{
    if items.len() == 0 {
        Seq::empty()
    } else {
        items_view(items.drop_last()).push(json_view(items.last()))
    }
}

/// What the members of an object are, entered one after the other.
pub open spec fn members_view(members: Seq<(String, Json)>) -> Seq<(Seq<char>, JsonView)>
    decreases members,
{
    if members.len() == 0 {
        Seq::empty()
    } else {
        with_member(members_view(members.drop_last()), members.last().0@, json_view(members.last().1))
    }
}

/// The view of an optional JSON value.
pub open spec fn opt_json(value: Option<&Json>) -> Option<JsonView> {
    match value {
        Some(value) => Some(value@),
        None => None,
    }
}

/// A string, `null` for `None`.
pub open spec fn opt_string_view(s: Option<Seq<char>>) -> JsonView {
    match s {
        Some(s) => JsonView::String(s),
        None => JsonView::Null,
    }
}

/// What `serde_json` members hold, as they are listed.
pub open spec fn listed_view(members: Seq<(String, Value)>) -> Seq<(Seq<char>, JsonView)> {
    members.map_values(|m: (String, Value)| (m.0@, value_view(m.1)))
}

/// The value that is made of the parts.
pub open spec fn parts_view(parts: Parts) -> JsonView {
    match parts {
        Parts::Null => JsonView::Null,
        Parts::Bool(b) => JsonView::Bool(b),
        Parts::Number(n) => JsonView::Number(n),
        Parts::String(s) => JsonView::String(s@),
        Parts::Array(items) => JsonView::Array(items@.map_values(|v: Value| value_view(v))),
        Parts::Object(members) => JsonView::Object(gathered(listed_view(members@))),
    }
}

impl JsonView {
    /// The object without members.
    pub open spec fn object() -> JsonView {
        JsonView::Object(Seq::empty())
    }

    /// An object with `value` under `key`.
    pub open spec fn with(self, key: Seq<char>, value: JsonView) -> JsonView {
        match self {
            JsonView::Object(members) => JsonView::Object(with_member(members, key, value)),
            _ => JsonView::Object(seq![(key, value)]),
        }
    }

    /// The value under `key`, where this is an object that has it.
    pub open spec fn get(self, key: Seq<char>) -> Option<JsonView> {
        match self {
            JsonView::Object(members) => lookup(members, key),
            _ => None,
        }
    }

    /// The value under `key`, `null` where there is none.
    pub open spec fn get_or_null(self, key: Seq<char>) -> JsonView {
        match self.get(key) {
            Some(value) => value,
            None => JsonView::Null,
        }
    }

    /// The value under `inner` of the value under `outer`.
    pub open spec fn get_in(self, outer: Seq<char>, inner: Seq<char>) -> Option<JsonView> {
        match self.get(outer) {
            Some(value) => value.get(inner),
            None => None,
        }
    }

    pub open spec fn as_str(self) -> Option<Seq<char>> {
        match self {
            JsonView::String(s) => Some(s),
            _ => None,
        }
    }

    pub open spec fn as_array(self) -> Option<Seq<JsonView>> {
        match self {
            JsonView::Array(items) => Some(items),
            _ => None,
        }
    }

    pub open spec fn as_i64(self) -> Option<i64> {
        match self {
            JsonView::Number(n) => number_i64(n),
            _ => None,
        }
    }

    pub open spec fn as_u64(self) -> Option<u64> {
        match self {
            JsonView::Number(n) => number_u64(n),
            _ => None,
        }
    }

    /// The string under `key`.
    pub open spec fn str_at(self, key: Seq<char>) -> Option<Seq<char>> {
        match self.get(key) {
            Some(value) => value.as_str(),
            None => None,
        }
    }

    /// The string under `inner` of the value under `outer`.
    pub open spec fn str_in(self, outer: Seq<char>, inner: Seq<char>) -> Option<Seq<char>> {
        match self.get_in(outer, inner) {
            Some(value) => value.as_str(),
            None => None,
        }
    }

    /// Whether `key` holds `true`.
    pub open spec fn is_true(self, key: Seq<char>) -> bool {
        self.get(key) == Some(JsonView::Bool(true))
    }

    /// How many members an object has.
    pub open spec fn size(self) -> nat {
        match self {
            JsonView::Object(members) => members.len(),
            _ => 0,
        }
    }

    /// The items of the array under `key`, none where there is no array.
    pub open spec fn items_at(self, key: Seq<char>) -> Seq<JsonView> {
        match self.get(key) {
            Some(JsonView::Array(items)) => items,
            _ => Seq::empty(),
        }
    }
}

/// What was entered under a key is found under it, and nothing else changes.
pub proof fn lookup_after_with(
    members: Seq<(Seq<char>, JsonView)>,
    key: Seq<char>,
    value: JsonView,
    other: Seq<char>,
)
    ensures
        lookup(with_member(members, key, value), other) == (if other == key {
            Some(value)
        } else {
            lookup(members, other)
        }),
    decreases members.len(),
{
    reveal_with_fuel(lookup, 2);
    if members.len() == 0 {
        assert(with_member(members, key, value).drop_first() =~= Seq::empty());
    } else if members[0].0 == key {
        assert(with_member(members, key, value).drop_first() =~= members.drop_first());
    } else {
        lookup_after_with(members.drop_first(), key, value, other);
        assert(with_member(members, key, value).drop_first() =~= with_member(
            members.drop_first(),
            key,
            value,
        ));
    }
}

/// What is put under a key of an object is found there, and what stands under other keys stays.
pub broadcast proof fn member_reads_back(
    object: JsonView,
    key: Seq<char>,
    value: JsonView,
    other: Seq<char>,
)
    ensures
        #[trigger] object.with(key, value).get(other) == (if other == key {
            Some(value)
        } else {
            object.get(other)
        }),
{
    match object {
        JsonView::Object(members) => lookup_after_with(members, key, value, other),
        _ => {
            assert(with_member(Seq::empty(), key, value) =~= seq![(key, value)]);
            lookup_after_with(Seq::empty(), key, value, other);
        },
    }
}

/// An object has one member more when something is put under a new key, and as many as before
/// when something is put under a key that it has.
pub broadcast proof fn member_is_counted_once(object: JsonView, key: Seq<char>, value: JsonView)
    ensures
        #[trigger] object.with(key, value).size() == object.size() + (if object.get(key) is None {
            1nat
        } else {
            0nat
        }),
{
    if let JsonView::Object(members) = object {
        lemma_size_with(members, key, value);
    }
}

/// How many members there are when something is put under a key.
proof fn lemma_size_with(members: Seq<(Seq<char>, JsonView)>, key: Seq<char>, value: JsonView)
    ensures
        with_member(members, key, value).len() == members.len() + (if lookup(
            members,
            key,
        ) is None {
            1nat
        } else {
            0nat
        }),
    decreases members.len(),
{
    if members.len() > 0 && members[0].0 != key {
        lemma_size_with(members.drop_first(), key, value);
    }
}

/// What stands under a key of an object that has no key twice is the value listed with it.
pub proof fn member_is_found(members: Seq<(Seq<char>, JsonView)>, i: int)
    requires
        distinct_keys(members),
        0 <= i < members.len(),
    ensures
        JsonView::Object(members).get(members[i].0) == Some(members[i].1),
    decreases members.len(),
{
    if i > 0 {
        let rest = members.drop_first();
        assert(members[0].0 != members[i].0);
        assert forall|a: int, b: int| 0 <= a < b < rest.len() implies #[trigger] rest[a].0
            != #[trigger] rest[b].0 by {
            assert(members[a + 1].0 != members[b + 1].0);
        }
        member_is_found(rest, i - 1);
    }
}

/// Only what an object lists is found in it, and nothing in what is no object.
pub proof fn only_members_are_found(value: JsonView, key: Seq<char>)
    ensures
        value.get(key) matches Some(found) ==> value matches JsonView::Object(members)
            && members.contains((key, found)),
{
    if let JsonView::Object(members) = value {
        lemma_lookup_listed(members, key);
    }
}

/// What is found under a key is listed with it.
proof fn lemma_lookup_listed(members: Seq<(Seq<char>, JsonView)>, key: Seq<char>)
    ensures
        lookup(members, key) matches Some(found) ==> members.contains((key, found)),
    decreases members.len(),
{
    if members.len() > 0 {
        if members[0].0 == key {
            assert(members[0] == (key, members[0].1));
        } else {
            lemma_lookup_listed(members.drop_first(), key);
            if let Some(found) = lookup(members, key) {
                let i = choose|i: int|
                    0 <= i < members.drop_first().len() && members.drop_first()[i] == (key, found);
                assert(members[i + 1] == (key, found));
            }
        }
    }
}

/// A new key goes to the end.
proof fn lemma_with_new_member(members: Seq<(Seq<char>, JsonView)>, key: Seq<char>, value: JsonView)
    requires
        forall|i: int| 0 <= i < members.len() ==> #[trigger] members[i].0 != key,
    ensures
        with_member(members, key, value) == members.push((key, value)),
    decreases members.len(),
{
    if members.len() > 0 {
        let rest = members.drop_first();
        assert forall|i: int| 0 <= i < rest.len() implies #[trigger] rest[i].0 != key by {
            assert(rest[i] == members[i + 1]);
        }
        lemma_with_new_member(rest, key, value);
    }
    assert(with_member(members, key, value) =~= members.push((key, value)));
}

/// Members without a repeated key are gathered as they stand.
proof fn lemma_gathered_distinct(members: Seq<(Seq<char>, JsonView)>)
    requires
        distinct_keys(members),
    ensures
        gathered(members) == members,
    decreases members.len(),
{
    if members.len() > 0 {
        let front = members.drop_last();
        assert forall|i: int, j: int| 0 <= i < j < front.len() implies #[trigger] front[i].0
            != #[trigger] front[j].0 by {
            assert(members[i].0 != members[j].0);
        }
        lemma_gathered_distinct(front);
        let last = members.last();
        assert forall|i: int| 0 <= i < front.len() implies #[trigger] front[i].0 != last.0 by {
            assert(members[i].0 != members[members.len() - 1].0);
        }
        lemma_with_new_member(front, last.0, last.1);
        assert(front.push(last) =~= members);
    } else {
        assert(gathered(members) =~= members);
    }
}

/// The items' views, one by one.
pub proof fn lemma_items_view(items: Seq<Json>)
    ensures
        items_view(items).len() == items.len(),
        forall|i: int| 0 <= i < items.len() ==> #[trigger] items_view(items)[i] == items[i]@,
    decreases items.len(),
{
    if items.len() > 0 {
        lemma_items_view(items.drop_last());
        assert forall|i: int| 0 <= i < items.len() implies #[trigger] items_view(items)[i]
            == items[i]@ by {
            if i < items.len() - 1 {
                assert(items.drop_last()[i] == items[i]);
            }
        }
    }
}

/// The members' views are gathered in their order.
proof fn lemma_members_view(members: Seq<(String, Json)>)
    ensures
        members_view(members) == gathered(
            members.map_values(|m: (String, Json)| (m.0@, json_view(m.1))),
        ),
    decreases members.len(),
{
    let listed = members.map_values(|m: (String, Json)| (m.0@, json_view(m.1)));
    if members.len() > 0 {
        lemma_members_view(members.drop_last());
        assert(listed.drop_last() =~= members.drop_last().map_values(
            |m: (String, Json)| (m.0@, json_view(m.1)),
        ));
    }
}

/// Takes a `serde_json::Value` apart by its variants: the parts are what the value held, and the
/// keys of an object are distinct.
#[verifier::external_body]
fn take_apart(value: Value) -> (r: Parts)
    ensures
        parts_view(r) == value_view(value),
        r matches Parts::Object(members) ==> distinct_keys(listed_view(members@)),
{
    match value {
        Value::Null => Parts::Null,
        Value::Bool(b) => Parts::Bool(b),
        Value::Number(n) => Parts::Number(n),
        Value::String(s) => Parts::String(s),
        Value::Array(items) => Parts::Array(items),
        Value::Object(members) => Parts::Object(members.into_iter().collect()),
    }
}

/// Makes a `serde_json::Value` of the parts. The members of an object are entered into a
/// `serde_json::Map` one after the other. With the feature `preserve_order` such a map keeps its
/// keys in the order in which they were first entered.
#[verifier::external_body]
fn put_together(parts: Parts) -> (r: Value)
    ensures
        value_view(r) == parts_view(parts),
{
    match parts {
        Parts::Null => Value::Null,
        Parts::Bool(b) => Value::Bool(b),
        Parts::Number(n) => Value::Number(n),
        Parts::String(s) => Value::String(s),
        Parts::Array(items) => Value::Array(items),
        Parts::Object(members) => Value::Object(members.into_iter().collect()),
    }
}

/// `serde_json::from_slice`: the value that the text holds, or an error.
#[verifier::external_body]
fn read_value(text: &[u8]) -> (r: Result<Value, serde_json::Error>)
    ensures
        json_parsed(text@) == (match r {
            Ok(value) => Ok::<JsonView, Seq<char>>(value_view(value)),
            Err(error) => Err(error_message(error)),
        }),
{
    serde_json::from_slice(text)
}

/// `serde_json::to_vec`: the text of a value, which is not empty and holds no control character,
/// or an error.
#[verifier::external_body]
fn write_value(value: &Value) -> (r: Result<Vec<u8>, serde_json::Error>)
    ensures
        json_written(value_view(*value)) == (match r {
            Ok(text) => Ok::<Seq<u8>, Seq<char>>(text@),
            Err(error) => Err(error_message(error)),
        }),
        r matches Ok(text) ==> text@.len() > 0 && forall|i: int|
            0 <= i < text@.len() ==> #[trigger] text@[i] >= 0x20,
{
    serde_json::to_vec(value)
}

/// `serde_json::to_string_pretty`: the text of a value on several lines, or an error.
#[verifier::external_body]
fn write_pretty(value: &Value) -> (r: Result<String, serde_json::Error>)
    ensures
        json_pretty(value_view(*value)) == (match r {
            Ok(text) => Some(text@),
            Err(_) => None::<Seq<char>>,
        }),
{
    serde_json::to_string_pretty(value)
}

/// The `Display` impl of `serde_json::Value`: the text of a value on one line.
#[verifier::external_body]
fn display_value(value: &Value) -> (r: String)
    ensures
        r@ == json_display(value_view(*value)),
{
    value.to_string()
}

/// The `Display` impl of `serde_json::Error`: its message.
#[verifier::external_body]
pub(crate) fn message_of(error: &serde_json::Error) -> (r: String)
    ensures
        r@ == error_message(*error),
{
    error.to_string()
}

/// `serde_json::Number::as_i64`: the number, where it is an integer that an `i64` can hold.
#[verifier::external_body]
fn number_as_i64(number: &Number) -> (r: Option<i64>)
    ensures
        r == number_i64(*number),
{
    number.as_i64()
}

/// `serde_json::Number::as_u64`: the number, where it is an integer that a `u64` can hold.
#[verifier::external_body]
fn number_as_u64(number: &Number) -> (r: Option<u64>)
    ensures
        r == number_u64(*number),
{
    number.as_u64()
}

/// The `From<i64>` impl of `serde_json::Number`: a number that reads back as the integer.
#[verifier::external_body]
fn number_from_i64(n: i64) -> (r: Number)
    ensures
        r == number_from(n),
        number_i64(r) == Some(n),
{
    Number::from(n)
}

/// The `Clone` impl of `serde_json::Number`: the same number.
#[verifier::external_body]
fn copy_number(number: &Number) -> (r: Number)
    ensures
        r == *number,
{
    number.clone()
}

impl View for Json {
    type V = JsonView;

    open spec fn view(&self) -> JsonView {
        json_view(*self)
    }
}

impl Json {
    /// What a `serde_json` value holds.
    pub fn from_value(value: Value) -> (r: Json)
        ensures
            r@ == value_view(value),
        decreases value_view(value),
    {
        let ghost whole = value_view(value);
        match take_apart(value) {
            Parts::Null => Json::Null,
            Parts::Bool(b) => Json::Bool(b),
            Parts::Number(n) => Json::Number(n),
            Parts::String(s) => Json::String(s),
            Parts::Array(items) => {
                let ghost all = items@;
                let mut list: Vec<Json> = Vec::new();
                for item in iter: items
                    invariant
                        iter.seq() == all,
                        whole == value_view(value),
                        whole == JsonView::Array(all.map_values(|v: Value| value_view(v))),
                        list.len() == iter.index(),
                        forall|i: int|
                            0 <= i < list.len() ==> #[trigger] list[i]@ == value_view(all[i]),
                {
                    assert(whole->Array_0[iter.index() as int] == value_view(item));
                    list.push(Json::from_value(item));
                }
                proof {
                    lemma_items_view(list@);
                    assert(items_view(list@) =~= all.map_values(|v: Value| value_view(v)));
                }
                Json::Array(list)
            },
            Parts::Object(members) => {
                let ghost all = members@;
                proof {
                    lemma_gathered_distinct(listed_view(all));
                }
                let mut list: Vec<(String, Json)> = Vec::new();
                for member in iter: members
                    invariant
                        iter.seq() == all,
                        whole == value_view(value),
                        whole == JsonView::Object(listed_view(all)),
                        list.len() == iter.index(),
                        forall|i: int|
                            0 <= i < list.len() ==> (#[trigger] list[i]).0@ == all[i].0@
                                && list[i].1@ == value_view(all[i].1),
                {
                    assert(whole->Object_0[iter.index() as int].1 == value_view(member.1));
                    list.push((member.0, Json::from_value(member.1)));
                }
                proof {
                    lemma_members_view(list@);
                    assert(list@.map_values(|m: (String, Json)| (m.0@, json_view(m.1)))
                        =~= listed_view(all));
                }
                Json::Object(list)
            },
        }
    }

    /// The `serde_json` value that holds the same.
    pub fn to_value(&self) -> (r: Value)
        ensures
            value_view(r) == self@,
        decreases self,
    {
        match self {
            Json::Null => put_together(Parts::Null),
            Json::Bool(b) => put_together(Parts::Bool(*b)),
            Json::Number(n) => put_together(Parts::Number(copy_number(n))),
            Json::String(s) => put_together(Parts::String(s.clone())),
            Json::Array(items) => {
                let mut list: Vec<Value> = Vec::new();
                let mut i: usize = 0;
                while i < items.len()
                    invariant
                        i <= items.len(),
                        self matches Json::Array(own) && own@ == items@,
                        list.len() == i,
                        forall|k: int|
                            0 <= k < list.len() ==> value_view(#[trigger] list[k]) == items[k]@,
                    decreases items.len() - i,
                {
                    list.push(items[i].to_value());
                    i = i + 1;
                }
                proof {
                    lemma_items_view(items@);
                    assert(list@.map_values(|v: Value| value_view(v)) =~= items_view(items@));
                }
                put_together(Parts::Array(list))
            },
            Json::Object(members) => {
                let mut list: Vec<(String, Value)> = Vec::new();
                let mut i: usize = 0;
                while i < members.len()
                    invariant
                        i <= members.len(),
                        self matches Json::Object(own) && own@ == members@,
                        list.len() == i,
                        forall|k: int|
                            0 <= k < list.len() ==> (#[trigger] list[k]).0@ == members[k].0@
                                && value_view(list[k].1) == members[k].1@,
                    decreases members.len() - i,
                {
                    let member = &members[i];
                    assert(decreases_to!(members@[i as int] => members@[i as int].1));
                    list.push((member.0.clone(), member.1.to_value()));
                    i = i + 1;
                }
                proof {
                    lemma_members_view(members@);
                    assert(members@.map_values(|m: (String, Json)| (m.0@, json_view(m.1)))
                        =~= listed_view(list@));
                }
                put_together(Parts::Object(list))
            },
        }
    }

    /// A copy of the value.
    pub fn copy(&self) -> (r: Json)
        ensures
            r@ == self@,
    {
        Json::from_value(self.to_value())
    }

    /// The value that a JSON text holds, or the message of the error in it.
    pub fn parse(text: &[u8]) -> (r: Result<Json, String>)
        ensures
            json_parsed(text@) == (match r {
                Ok(value) => Ok::<JsonView, Seq<char>>(value@),
                Err(message) => Err(message@),
            }),
    {
        match read_value(text) {
            Ok(value) => Ok(Json::from_value(value)),
            Err(error) => Err(message_of(&error)),
        }
    }

    /// The text of the value on one line, without control characters.
    pub fn to_bytes(&self) -> (r: Result<Vec<u8>, String>)
        ensures
            json_written(self@) == (match r {
                Ok(text) => Ok::<Seq<u8>, Seq<char>>(text@),
                Err(message) => Err(message@),
            }),
            r matches Ok(text) ==> text@.len() > 0 && forall|i: int|
                0 <= i < text@.len() ==> #[trigger] text@[i] >= 0x20,
    {
        match write_value(&self.to_value()) {
            Ok(text) => Ok(text),
            Err(error) => Err(message_of(&error)),
        }
    }

    /// The text of the value on several lines, or on one where that fails.
    pub fn to_pretty(&self) -> (r: String)
        ensures
            r@ == (match json_pretty(self@) {
                Some(text) => text,
                None => json_display(self@),
            }),
    {
        let value = self.to_value();
        match write_pretty(&value) {
            Ok(text) => text,
            Err(_) => display_value(&value),
        }
    }

    /// The text of the value on one line.
    pub fn display(&self) -> (r: String)
        ensures
            r@ == json_display(self@),
    {
        display_value(&self.to_value())
    }

    /// A string.
    pub fn text(s: &str) -> (r: Json)
        ensures
            r@ == JsonView::String(s@),
    {
        Json::String(s.to_owned())
    }

    /// A string, `null` for `None`.
    pub fn opt_text(s: Option<&str>) -> (r: Json)
        ensures
            r@ == opt_string_view(crate::text::opt_text(s)),
    {
        match s {
            Some(s) => Json::text(s),
            None => Json::Null,
        }
    }

    /// An integer.
    pub fn integer(n: i64) -> (r: Json)
        ensures
            r@ == JsonView::Number(number_from(n)),
            r@.as_i64() == Some(n),
    {
        Json::Number(number_from_i64(n))
    }

    /// The object without members.
    pub fn object() -> (r: Json)
        ensures
            r@ == JsonView::object(),
    {
        Json::Object(Vec::new())
    }

    /// The object with `value` under `key`.
    pub fn with(self, key: &str, value: Json) -> (r: Json)
        ensures
            r@ == self@.with(key@, value@),
    {
        match self {
            Json::Object(members) => {
                let mut members = members;
                let ghost before = members@;
                members.push((key.to_owned(), value));
                proof {
                    assert(members@.drop_last() =~= before);
                    assert(members_view(members@) == with_member(
                        members_view(before),
                        key@,
                        value@,
                    ));
                }
                Json::Object(members)
            },
            _ => {
                let mut members: Vec<(String, Json)> = Vec::new();
                members.push((key.to_owned(), value));
                proof {
                    reveal_with_fuel(members_view, 2);
                    assert(members@.drop_last() =~= Seq::<(String, Json)>::empty());
                    assert(members_view(members@) =~= seq![(key@, value@)]);
                }
                Json::Object(members)
            },
        }
    }

    /// The value under `key`, where this is an object that has it.
    pub fn get(&self, key: &str) -> (r: Option<&Json>)
        ensures
            opt_json(r) == self@.get(key@),
    {
        match self {
            Json::Object(members) => {
                let mut i: usize = members.len();
                assert(members@.take(i as int) =~= members@);
                while i > 0
                    invariant
                        i <= members.len(),
                        self@ == JsonView::Object(members_view(members@)),
                        lookup(members_view(members@), key@) == lookup(
                            members_view(members@.take(i as int)),
                            key@,
                        ),
                    decreases i,
                {
                    i = i - 1;
                    let ghost seen = members@.take(i + 1);
                    proof {
                        assert(seen.drop_last() =~= members@.take(i as int));
                        lookup_after_with(
                            members_view(seen.drop_last()),
                            seen.last().0@,
                            seen.last().1@,
                            key@,
                        );
                    }
                    if same_text(members[i].0.as_str(), key) {
                        return Some(&members[i].1);
                    }
                }
                assert(members@.take(0) =~= Seq::<(String, Json)>::empty());
                None
            },
            _ => None,
        }
    }

    /// A copy of the value under `key`, `null` where there is none.
    pub fn get_or_null(&self, key: &str) -> (r: Json)
        ensures
            r@ == self@.get_or_null(key@),
    {
        match self.get(key) {
            Some(value) => value.copy(),
            None => Json::Null,
        }
    }

    /// The value under `inner` of the value under `outer`.
    pub fn get_in(&self, outer: &str, inner: &str) -> (r: Option<&Json>)
        ensures
            opt_json(r) == self@.get_in(outer@, inner@),
    {
        match self.get(outer) {
            Some(value) => value.get(inner),
            None => None,
        }
    }

    pub fn as_str(&self) -> (r: Option<&str>)
        ensures
            crate::text::opt_text(r) == self@.as_str(),
    {
        match self {
            Json::String(s) => Some(s.as_str()),
            _ => None,
        }
    }

    pub fn as_array(&self) -> (r: Option<&Vec<Json>>)
        ensures
            self@.as_array() == (match r {
                Some(items) => Some(items_view(items@)),
                None => None::<Seq<JsonView>>,
            }),
    {
        match self {
            Json::Array(items) => Some(items),
            _ => None,
        }
    }

    pub fn as_i64(&self) -> (r: Option<i64>)
        ensures
            r == self@.as_i64(),
    {
        match self {
            Json::Number(n) => number_as_i64(n),
            _ => None,
        }
    }

    pub fn as_u64(&self) -> (r: Option<u64>)
        ensures
            r == self@.as_u64(),
    {
        match self {
            Json::Number(n) => number_as_u64(n),
            _ => None,
        }
    }

    /// The string under `key`.
    pub fn str_at(&self, key: &str) -> (r: Option<&str>)
        ensures
            crate::text::opt_text(r) == self@.str_at(key@),
    {
        match self.get(key) {
            Some(value) => value.as_str(),
            None => None,
        }
    }

    /// The string under `inner` of the value under `outer`.
    pub fn str_in(&self, outer: &str, inner: &str) -> (r: Option<&str>)
        ensures
            crate::text::opt_text(r) == self@.str_in(outer@, inner@),
    {
        match self.get_in(outer, inner) {
            Some(value) => value.as_str(),
            None => None,
        }
    }

    /// Whether `key` holds the string `text`.
    pub fn has_text(&self, key: &str, text: &str) -> (r: bool)
        ensures
            r == (self@.str_at(key@) == Some(text@)),
    {
        match self.str_at(key) {
            Some(s) => same_text(s, text),
            None => false,
        }
    }

    /// Whether `key` holds `true`.
    pub fn is_true(&self, key: &str) -> (r: bool)
        ensures
            r == self@.is_true(key@),
    {
        match self.get(key) {
            Some(Json::Bool(b)) => *b,
            _ => false,
        }
    }

    /// The items of the array under `key`, where there is one.
    pub fn items_at(&self, key: &str) -> (r: Option<&Vec<Json>>)
        ensures
            self@.items_at(key@) == (match r {
                Some(items) => items_view(items@),
                None => Seq::<JsonView>::empty(),
            }),
    {
        match self.get(key) {
            Some(Json::Array(items)) => Some(items),
            _ => None,
        }
    }
}

/// Whether a value was written, and is what it should be.
pub open spec fn is_written(r: Result<Value, serde_json::Error>, json: JsonView) -> bool {
    r matches Ok(value) && value_view(value) == json
}

/// A value that was written.
pub(crate) fn taken(r: Result<Value, serde_json::Error>) -> (value: Json)
    requires
        r is Ok,
    ensures
        is_written(r, value@),
{
    match r {
        Ok(value) => Json::from_value(value),
        Err(_) => Json::Null,
    }
}

/// What is read from a value is what it holds: a text where the member is a text, `true` where the
/// member is `true`, the items of a list where the member is a list, and what stands inside a
/// member where that is an object.
pub proof fn members_are_read_as_they_are(value: JsonView, key: Seq<char>, inner: Seq<char>)
    ensures
        value.str_at(key) matches Some(text) ==> value.get(key) == Some(JsonView::String(text)),
        value.get(key) matches Some(JsonView::String(text)) ==> value.str_at(key) == Some(text),
        value.is_true(key) <==> value.get(key) == Some(JsonView::Bool(true)),
        value.get(key) matches Some(JsonView::Array(items)) ==> value.items_at(key) == items,
        !(value.get(key) matches Some(JsonView::Array(_))) ==> value.items_at(key).len() == 0,
        value.get(key) matches Some(member) ==> {
            &&& value.get_in(key, inner) == member.get(inner)
            &&& value.str_in(key, inner) == member.str_at(inner)
            &&& value.get_or_null(key) == member
        },
        value.get(key) is None ==> {
            &&& value.get_in(key, inner) is None
            &&& value.str_in(key, inner) is None
            &&& value.get_or_null(key) == JsonView::Null
        },
{
}

/// A value is seen as what it holds: a truth value, a number or a text as it is, and a list item by
/// item.
pub proof fn values_are_seen_as_they_are(b: bool, n: Number, s: String, items: Vec<Json>)
    ensures
        Json::Null@ == JsonView::Null,
        Json::Bool(b)@ == JsonView::Bool(b),
        Json::Number(n)@ == JsonView::Number(n),
        Json::String(s)@ == JsonView::String(s@),
        Json::Array(items)@ matches JsonView::Array(seen) && seen.len() == items@.len() && forall|
            i: int,
        |
            0 <= i < seen.len() ==> #[trigger] seen[i] == items@[i]@,
{
    lemma_items_view(items@);
}

/// The member of an object that was listed last under a key is the one that is seen there.
pub proof fn members_are_seen_under_their_keys(
    members: Vec<(String, Json)>,
    last: (String, Json),
    all: Vec<(String, Json)>,
    other: Seq<char>,
)
    requires
        all@ == members@.push(last),
    ensures
        Json::Object(all)@.get(last.0@) == Some(last.1@),
        other != last.0@ ==> Json::Object(all)@.get(other) == Json::Object(members)@.get(other),
{
    assert(all@.drop_last() =~= members@);
    lookup_after_with(members_view(members@), last.0@, last.1@, last.0@);
    lookup_after_with(members_view(members@), last.0@, last.1@, other);
}

} // verus!
