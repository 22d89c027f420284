//! JSON documents.

use vstd::prelude::*;

use crate::text;

verus! {

/// A JSON value.
#[derive(Debug, PartialEq, Eq)]
pub enum Json {
    Null,
    Bool(bool),
    /// A number, as the text that writes it down.
    Number(String),
    Text(String),
    Array(Vec<Json>),
    /// An object, as its members in the order in which it lists them.
    Object(Vec<(String, Json)>),
}

/// What a JSON value says.
pub ghost enum JsonView {
    Null,
    Bool(bool),
    Number(Seq<char>),
    Text(Seq<char>),
    Array(Seq<JsonView>),
    Object(Seq<(Seq<char>, JsonView)>),
}

impl View for Json {
    type V = JsonView;

    open spec fn view(&self) -> JsonView
        decreases self,
    {
        match self {
            Json::Null => JsonView::Null,
            Json::Bool(b) => JsonView::Bool(*b),
            Json::Number(n) => JsonView::Number(n@),
            Json::Text(t) => JsonView::Text(t@),
            Json::Array(items) => JsonView::Array(
                Seq::new(
                    items@.len(),
                    |i: int| if 0 <= i < items@.len() { items@[i]@ } else { JsonView::Null },
                ),
            ),
            Json::Object(members) => JsonView::Object(
                Seq::new(
                    members@.len(),
                    |i: int|
                        (
                            members@[i].0@,
                            if 0 <= i < members@.len() {
                                members@[i].1@
                            } else {
                                JsonView::Null
                            },
                        ),
                ),
            ),
        }
    }
}

impl DeepView for Json {
    type V = JsonView;

    open spec fn deep_view(&self) -> JsonView {
        self@
    }
}

/// What a result says, on either side.
pub open spec fn outcome<T: DeepView, E: DeepView>(result: Result<T, E>) -> Result<T::V, E::V> {
    match result {
        Ok(value) => Ok(value.deep_view()),
        Err(error) => Err(error.deep_view()),
    }
}

/// The value of the first member under `key`.
pub open spec fn find(members: Seq<(Seq<char>, JsonView)>, key: Seq<char>) -> Option<JsonView>
    decreases members.len(),
{
    if members.len() == 0 {
        None
    } else if members[0].0 == key {
        Some(members[0].1)
    } else {
        find(members.drop_first(), key)
    }
}

impl JsonView {
    /// The member of an object under `key`; nothing else has members.
    pub open spec fn member(self, key: Seq<char>) -> Option<JsonView> {
        match self {
            JsonView::Object(members) => find(members, key),
            _ => None,
        }
    }

    pub open spec fn as_text(self) -> Option<Seq<char>> {
        match self {
            JsonView::Text(t) => Some(t),
            _ => None,
        }
    }

    pub open spec fn as_bool(self) -> Option<bool> {
        match self {
            JsonView::Bool(b) => Some(b),
            _ => None,
        }
    }

    pub open spec fn as_array(self) -> Option<Seq<JsonView>> {
        match self {
            JsonView::Array(items) => Some(items),
            _ => None,
        }
    }

    pub open spec fn as_object(self) -> Option<Seq<(Seq<char>, JsonView)>> {
        match self {
            JsonView::Object(members) => Some(members),
            _ => None,
        }
    }

    /// The text under `key`, where there is one.
    pub open spec fn text_member(self, key: Seq<char>) -> Option<Seq<char>> {
        match self.member(key) {
            Some(value) => value.as_text(),
            None => None,
        }
    }

    /// The items of the array under `key`, where there is one.
    pub open spec fn array_member(self, key: Seq<char>) -> Option<Seq<JsonView>> {
        match self.member(key) {
            Some(value) => value.as_array(),
            None => None,
        }
    }
}

impl Json {
    /// A text.
    pub fn text(value: &str) -> (json: Json)
        ensures
            json@ == JsonView::Text(value@),
    {
        Json::Text(value.to_owned())
    }

    /// A flag.
    pub fn flag(value: bool) -> (json: Json)
        ensures
            json@ == JsonView::Bool(value),
    {
        Json::Bool(value)
    }

    /// A whole number.
    pub fn number(value: u128) -> (json: Json)
        ensures
            json@ == JsonView::Number(crate::number::decimal(value as nat)),
    {
        Json::Number(crate::number::to_decimal(value))
    }

    /// An array of these items.
    pub fn array(items: Vec<Json>) -> (json: Json)
        ensures
            json@ == JsonView::Array(items.deep_view()),
    {
        let json = Json::Array(items);
        assert(json@->Array_0 =~= items.deep_view());
        json
    }

    /// An object of these members.
    pub fn object(members: Vec<(String, Json)>) -> (json: Json)
        ensures
            json@ == JsonView::Object(members.deep_view()),
    {
        let json = Json::Object(members);
        assert(json@->Object_0 =~= members.deep_view());
        json
    }

    /// The member of an object under `key`; nothing else has members.
    pub fn member(&self, key: &str) -> (value: Option<&Json>)
        ensures
            value.deep_view() == self@.member(key@),
    {
        match self {
            Json::Object(members) => {
                let ghost all = self@->Object_0;
                assert(all.skip(0) =~= all);
                let mut i: usize = 0;
                while i < members.len()
                    invariant
                        i <= members.len(),
                        all == self@->Object_0,
                        self@ is Object,
                        *self == Json::Object(*members),
                        find(all, key@) == find(all.skip(i as int), key@),
                    decreases members.len() - i,
                {
                    assert(all.skip(i as int)[0] == (members@[i as int].0@, members@[i as int].1@));
                    assert(all.skip(i as int).drop_first() =~= all.skip(i + 1));
                    if text::same(members[i].0.as_str(), key) {
                        return Some(&members[i].1);
                    }
                    i += 1;
                }
                None
            },
            _ => None,
        }
    }

    pub fn as_text(&self) -> (value: Option<&str>)
        ensures
            value.deep_view() == self@.as_text(),
    {
        match self {
            Json::Text(t) => Some(t.as_str()),
            _ => None,
        }
    }

    pub fn as_bool(&self) -> (value: Option<bool>)
        ensures
            value == self@.as_bool(),
    {
        match self {
            Json::Bool(b) => Some(*b),
            _ => None,
        }
    }

    pub fn as_array(&self) -> (value: Option<&Vec<Json>>)
        ensures
            value.deep_view() == self@.as_array(),
    {
        match self {
            Json::Array(items) => {
                assert(items.deep_view() =~= self@->Array_0);
                Some(items)
            },
            _ => None,
        }
    }

    pub fn as_object(&self) -> (value: Option<&Vec<(String, Json)>>)
        ensures
            value.deep_view() == self@.as_object(),
    {
        match self {
            Json::Object(members) => {
                assert(members.deep_view() =~= self@->Object_0);
                Some(members)
            },
            _ => None,
        }
    }

    /// The text under `key`, where there is one.
    pub fn text_member(&self, key: &str) -> (value: Option<&str>)
        ensures
            value.deep_view() == self@.text_member(key@),
    {
        match self.member(key) {
            Some(value) => value.as_text(),
            None => None,
        }
    }

    /// The items of the array under `key`, where there is one.
    pub fn array_member(&self, key: &str) -> (value: Option<&Vec<Json>>)
        ensures
            value.deep_view() == self@.array_member(key@),
    {
        match self.member(key) {
            Some(value) => value.as_array(),
            None => None,
        }
    }
}

impl Clone for Json {
    fn clone(&self) -> (copy: Json)
        ensures
            copy@ == self@,
        decreases self,
    {
        match self {
            Json::Null => Json::Null,
            Json::Bool(b) => Json::Bool(*b),
            Json::Number(n) => Json::Number(n.clone()),
            Json::Text(t) => Json::Text(t.clone()),
            Json::Array(items) => {
                let mut copies: Vec<Json> = Vec::new();
                let mut i: usize = 0;
                while i < items.len()
                    invariant
                        i <= items.len(),
                        copies.len() == i,
                        *self == Json::Array(*items),
                        forall|j: int| 0 <= j < i ==> (#[trigger] copies@[j])@ == items@[j]@,
                    decreases items.len() - i,
                {
                    assert(decreases_to!(*self => self->Array_0));
                    assert(decreases_to!(*items => items[i as int]));
                    copies.push(items[i].clone());
                    i += 1;
                }
                let copy = Json::Array(copies);
                assert(copy@->Array_0 =~= self@->Array_0);
                copy
            },
            Json::Object(members) => {
                let mut copies: Vec<(String, Json)> = Vec::new();
                let mut i: usize = 0;
                while i < members.len()
                    invariant
                        i <= members.len(),
                        copies.len() == i,
                        *self == Json::Object(*members),
                        forall|j: int|
                            0 <= j < i ==> (#[trigger] copies@[j]).0@ == members@[j].0@
                                && copies@[j].1@ == members@[j].1@,
                    decreases members.len() - i,
                {
                    assert(decreases_to!(*self => self->Object_0));
                    assert(decreases_to!(*members => members[i as int]));
                    assert(decreases_to!(members[i as int] => members[i as int].1));
                    copies.push((members[i].0.clone(), members[i].1.clone()));
                    i += 1;
                }
                let copy = Json::Object(copies);
                assert(copy@->Object_0 =~= self@->Object_0);
                copy
            },
        }
    }
}


/// `serde_json::Value`, a JSON value as `serde_json` holds it.
#[verifier::external_type_specification]
#[verifier::external_body]
pub struct ExValue(serde_json::Value);

/// What a `serde_json::Value` holds: its kind, and all that lies below it.
pub uninterp spec fn contents(value: serde_json::Value) -> JsonView;

/// What `serde_json::from_str` makes of a text: the document that it writes
/// down, or the message that says why it writes none.
pub uninterp spec fn parsed(source: Seq<char>) -> Result<JsonView, Seq<char>>;

/// `serde_json::from_str` at the type `serde_json::Value`. The value that it
/// returns, or else the message of its error, depends on the text alone.
#[verifier::external_body]
fn read_value(source: &str) -> (result: Result<serde_json::Value, String>)
    ensures
        match result {
            Ok(value) => parsed(source@) == Ok::<JsonView, Seq<char>>(contents(value)),
            Err(message) => parsed(source@) == Err::<JsonView, Seq<char>>(message@),
        },
{
    serde_json::from_str::<serde_json::Value>(source).map_err(|err| err.to_string())
}

/// A JSON value opened by one level.
enum Opened {
    Null,
    Bool(bool),
    Number(String),
    Text(String),
    Array(Vec<serde_json::Value>),
    Object(Vec<(String, serde_json::Value)>),
}

impl Opened {
    spec fn says(self) -> JsonView {
        match self {
            Opened::Null => JsonView::Null,
            Opened::Bool(b) => JsonView::Bool(b),
            Opened::Number(n) => JsonView::Number(n@),
            Opened::Text(t) => JsonView::Text(t@),
            Opened::Array(items) => JsonView::Array(
                Seq::new(items@.len(), |i: int| contents(items@[i])),
            ),
            Opened::Object(members) => JsonView::Object(
                Seq::new(members@.len(), |i: int| (members@[i].0@, contents(members@[i].1))),
            ),
        }
    }
}

/// The variants of `serde_json::Value`, told apart. A number keeps the text
/// that `serde_json::Number` prints, an object its members in the order in
/// which `serde_json::Map` walks them.
#[verifier::external_body]
fn open(value: serde_json::Value) -> (opened: Opened)
    ensures
        opened.says() == contents(value),
{
    match value {
        serde_json::Value::Null => Opened::Null,
        serde_json::Value::Bool(b) => Opened::Bool(b),
        serde_json::Value::Number(n) => Opened::Number(n.to_string()),
        serde_json::Value::String(t) => Opened::Text(t),
        serde_json::Value::Array(items) => Opened::Array(items),
        serde_json::Value::Object(members) => Opened::Object(members.into_iter().collect()),
    }
}

impl Json {
    /// The JSON value that a `serde_json::Value` holds.
    pub fn from_value(value: serde_json::Value) -> (json: Json)
        ensures
            json@ == contents(value),
        decreases contents(value),
    {
        match open(value) {
            Opened::Null => Json::Null,
            Opened::Bool(b) => Json::Bool(b),
            Opened::Number(n) => Json::Number(n),
            Opened::Text(t) => Json::Text(t),
            Opened::Array(items) => {
                let ghost all = items@;
                let mut read: Vec<Json> = Vec::new();
                for item in it: items
                    invariant
                        it.seq() == all,
                        contents(value) == JsonView::Array(
                            Seq::new(all.len(), |i: int| contents(all[i])),
                        ),
                        read.len() == it.index(),
                        forall|j: int| 0 <= j < read.len() ==> (#[trigger] read@[j])@ == contents(all[j]),
                {
                    assert(item == all[it.index() as int]);
                    proof {
                        let below = contents(value)->Array_0;
                        assert(below[it.index() as int] == contents(item));
                        assert(decreases_to!(contents(value) => below));
                        assert(decreases_to!(below => below[it.index() as int]));
                    }
                    read.push(Json::from_value(item));
                }
                let json = Json::Array(read);
                assert(json@->Array_0 =~= contents(value)->Array_0);
                json
            },
            Opened::Object(members) => {
                let ghost all = members@;
                let mut read: Vec<(String, Json)> = Vec::new();
                for member in it: members
                    invariant
                        it.seq() == all,
                        contents(value) == JsonView::Object(
                            Seq::new(all.len(), |i: int| (all[i].0@, contents(all[i].1))),
                        ),
                        read.len() == it.index(),
                        forall|j: int|
                            0 <= j < read.len() ==> (#[trigger] read@[j]).0@ == all[j].0@
                                && read@[j].1@ == contents(all[j].1),
                {
                    proof {
                        let below = contents(value)->Object_0;
                        assert(below[it.index() as int].1 == contents(member.1));
                        assert(decreases_to!(contents(value) => below));
                        assert(decreases_to!(below => below[it.index() as int]));
                        assert(decreases_to!(below[it.index() as int] => below[it.index() as int].1));
                    }
                    read.push((member.0, Json::from_value(member.1)));
                }
                let json = Json::Object(read);
                assert(json@->Object_0 =~= contents(value)->Object_0);
                json
            },
        }
    }

    /// The document that a text writes down, or why it writes none.
    pub fn parse(source: &str) -> (result: Result<Json, String>)
        ensures
            outcome(result) == parsed(source@),
    {
        match read_value(source) {
            Ok(value) => Ok(Json::from_value(value)),
            Err(message) => Err(message),
        }
    }
}

// ------------------------------------------------------------------------ laws

/// A member of an object is found by its name, the first of that name where there
/// are several.
pub proof fn a_member_is_found_by_its_name(
    members: Seq<(Seq<char>, JsonView)>,
    key: Seq<char>,
    at: int,
)
    requires
        0 <= at < members.len(),
        members[at].0 == key,
        forall|j: int| 0 <= j < at ==> (#[trigger] members[j]).0 != key,
    ensures
        JsonView::Object(members).member(key) == Some(members[at].1),
    decreases at,
{
    if at > 0 {
        let rest = members.drop_first();
        assert forall|j: int| 0 <= j < at - 1 implies (#[trigger] rest[j]).0 != key by {
            assert(rest[j] == members[j + 1]);
        }
        assert(members[0].0 != key);
        a_member_is_found_by_its_name(rest, key, at - 1);
    }
}

/// What no member is named is not found, and only objects have members.
pub proof fn what_is_not_named_is_not_found(value: JsonView, key: Seq<char>)
    requires
        (value matches JsonView::Object(members) ==> forall|j: int|
            0 <= j < members.len() ==> (#[trigger] members[j]).0 != key),
    ensures
        value.member(key) is None,
        value.text_member(key) is None,
        value.array_member(key) is None,
    decreases value,
{
    if let JsonView::Object(members) = value {
        if members.len() > 0 {
            let rest = members.drop_first();
            assert(members[0].0 != key);
            assert forall|j: int| 0 <= j < rest.len() implies (#[trigger] rest[j]).0 != key by {
                assert(rest[j] == members[j + 1]);
            }
            not_found_among(rest, key);
        }
    }
}

proof fn not_found_among(members: Seq<(Seq<char>, JsonView)>, key: Seq<char>)
    requires
        forall|j: int| 0 <= j < members.len() ==> (#[trigger] members[j]).0 != key,
    ensures
        find(members, key) is None,
    decreases members.len(),
{
    if members.len() > 0 {
        let rest = members.drop_first();
        assert(members[0].0 != key);
        assert forall|j: int| 0 <= j < rest.len() implies (#[trigger] rest[j]).0 != key by {
            assert(rest[j] == members[j + 1]);
        }
        not_found_among(rest, key);
    }
}

/// A member is taken for a text where it is one, and for an array where it is
/// one, and never otherwise.
pub proof fn a_member_is_taken_for_what_it_is(value: JsonView, key: Seq<char>)
    ensures
        value.text_member(key) == (match value.member(key) {
            Some(JsonView::Text(text)) => Some(text),
            _ => None,
        }),
        value.array_member(key) == (match value.member(key) {
            Some(JsonView::Array(items)) => Some(items),
            _ => None,
        }),
{
}

} // verus!
