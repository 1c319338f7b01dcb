//! JSON values, and the passage between them and `serde_json`.
//!
//! [`Json`] is the value that the rest of the library reads and writes, and
//! [`JsonView`] is its mathematical model. Parsing and printing are left to
//! `serde_json`: their results have the names [`json_parse`], [`json_text`]
//! and [`json_text_pretty`].

use crate::table::{distinct_names, lemma_listing_set, lemma_members, listing_set, members};
use crate::text::same_text;
use vstd::prelude::*;

verus! {

/// The mathematical model of a JSON value.
pub enum JsonView {
    Null,
    Bool(bool),
    Integer(int),
    /// A number that is no integer in the range of `i64` or `u64`.
    Float(OtherNumber),
    String(Seq<char>),
    Array(Seq<JsonView>),
    Object(Map<Seq<char>, JsonView>),
}

/// The object with the given members.
pub open spec fn object_view(entries: Seq<(Seq<char>, JsonView)>) -> JsonView {
    JsonView::Object(members(entries))
}

impl JsonView {
    /// The member of the given name; there is none in a value that is no object.
    pub open spec fn get(self, name: Seq<char>) -> Option<JsonView> {
        match self {
            JsonView::Object(m) => if m.dom().contains(name) {
                Some(m[name])
            } else {
                None
            },
            _ => None,
        }
    }

    /// The text of a string value.
    pub open spec fn as_text(self) -> Option<Seq<char>> {
        match self {
            JsonView::String(s) => Some(s),
            _ => None,
        }
    }

    /// The number, where it is an integer from zero to `u64::MAX`.
    pub open spec fn as_unsigned(self) -> Option<u64> {
        match self {
            JsonView::Integer(n) => if 0 <= n <= u64::MAX {
                Some(n as u64)
            } else {
                None
            },
            _ => None,
        }
    }

    /// The items of an array.
    pub open spec fn as_items(self) -> Option<Seq<JsonView>> {
        match self {
            JsonView::Array(items) => Some(items),
            _ => None,
        }
    }

    /// The text of the string member of the given name.
    pub open spec fn text_at(self, name: Seq<char>) -> Option<Seq<char>> {
        match self.get(name) {
            Some(v) => v.as_text(),
            None => None,
        }
    }

    /// The number in the member of the given name.
    pub open spec fn unsigned_at(self, name: Seq<char>) -> Option<u64> {
        match self.get(name) {
            Some(v) => v.as_unsigned(),
            None => None,
        }
    }
}

/// A JSON number, as `serde_json` holds it.
#[verifier::external_type_specification]
#[verifier::external_body]
pub struct ExNumber(serde_json::Number);

/// A number that is no integer in the range of `i64` or `u64`. It is made in
/// one place alone, where a value is taken apart by [`Json::from_value`].
#[derive(Debug)]
pub struct OtherNumber {
    number: serde_json::Number,
}

impl Clone for OtherNumber {
    fn clone(&self) -> (copy: Self)
        ensures
            copy == *self,
    {
        OtherNumber { number: self.number.clone() }
    }
}

/// A JSON value, as `serde_json` holds it.
#[verifier::external_type_specification]
#[verifier::external_body]
pub struct ExValue(serde_json::Value);

/// What a `serde_json` value holds: an array its items in their order, an
/// object its members by their names.
pub uninterp spec fn json_of(value: serde_json::Value) -> JsonView;

/// What `serde_json` reads in a text: a value, or the text of an error.
pub uninterp spec fn json_parse(text: Seq<char>) -> Result<JsonView, Seq<char>>;

/// The compact text that `serde_json` writes for a value.
pub uninterp spec fn json_text(value: JsonView) -> Seq<char>;

/// The indented text that `serde_json` writes for a value.
pub uninterp spec fn json_text_pretty(value: JsonView) -> Seq<char>;

/// A JSON value.
///
/// An integer may be written as `Unsigned` or as `Signed`: the two are the same
/// number. `Float` carries every other number.
#[derive(Debug)]
pub enum Json {
    Null,
    Bool(bool),
    Unsigned(u64),
    Signed(i64),
    Float(OtherNumber),
    String(String),
    Array(Vec<Json>),
    Object(Vec<(String, Json)>),
}

impl View for Json {
    type V = JsonView;

    open spec fn view(&self) -> JsonView
        decreases self,
    {
        match self {
            Json::Null => JsonView::Null,
            Json::Bool(b) => JsonView::Bool(*b),
            Json::Unsigned(n) => JsonView::Integer(*n as int),
            Json::Signed(n) => JsonView::Integer(*n as int),
            Json::Float(n) => JsonView::Float(*n),
            Json::String(s) => JsonView::String(s@),
            Json::Array(items) => JsonView::Array(item_views(items@)),
            Json::Object(entries) => object_view(entry_views(entries@)),
        }
    }
}

impl DeepView for Json {
    type V = JsonView;

    open spec fn deep_view(&self) -> JsonView {
        self.view()
    }
}

/// The models of a list of values.
pub open spec fn item_views(items: Seq<Json>) -> Seq<JsonView>
    decreases items,
{
    Seq::new(
        items.len(),
        |i: int|
            if 0 <= i < items.len() {
                items[i]@
            } else {
                JsonView::Null
            },
    )
}

/// The models of a list of members.
pub open spec fn entry_views(entries: Seq<(String, Json)>) -> Seq<(Seq<char>, JsonView)>
    decreases entries,
{
    Seq::new(
        entries.len(),
        |i: int|
            if 0 <= i < entries.len() {
                (entries[i].0@, entries[i].1@)
            } else {
                (Seq::empty(), JsonView::Null)
            },
    )
}

/// One level of a `serde_json` value.
pub enum ValueShape {
    Null,
    Bool(bool),
    Unsigned(u64),
    Signed(i64),
    Float(OtherNumber),
    String(String),
    Array(Vec<serde_json::Value>),
    Object(Vec<(String, serde_json::Value)>),
}

/// What a list of `serde_json` values holds.
pub open spec fn value_views(items: Seq<serde_json::Value>) -> Seq<JsonView> {
    Seq::new(items.len(), |i: int| json_of(items[i]))
}

/// What a list of named `serde_json` values holds.
pub open spec fn member_views(entries: Seq<(String, serde_json::Value)>) -> Seq<
    (Seq<char>, JsonView),
> {
    Seq::new(entries.len(), |i: int| (entries[i].0@, json_of(entries[i].1)))
}

/// Whether no two of some named `serde_json` values have the same name.
pub open spec fn names_differ(entries: Seq<(String, serde_json::Value)>) -> bool {
    forall|i: int, j: int|
        0 <= i < j < entries.len() ==> (#[trigger] entries[i]).0@ != (#[trigger] entries[j]).0@
}

impl View for ValueShape {
    type V = JsonView;

    open spec fn view(&self) -> JsonView {
        match self {
            ValueShape::Null => JsonView::Null,
            ValueShape::Bool(b) => JsonView::Bool(*b),
            ValueShape::Unsigned(n) => JsonView::Integer(*n as int),
            ValueShape::Signed(n) => JsonView::Integer(*n as int),
            ValueShape::Float(n) => JsonView::Float(*n),
            ValueShape::String(s) => JsonView::String(s@),
            ValueShape::Array(items) => JsonView::Array(value_views(items@)),
            ValueShape::Object(entries) => object_view(member_views(entries@)),
        }
    }
}

/// Takes a `serde_json::Value` apart by its variants, and its number by
/// `Number::as_u64` and `Number::as_i64`. An object's members come out with
/// different names, as `serde_json::Map` keeps one value for each name.
#[verifier::external_body]
fn value_shape(value: serde_json::Value) -> (shape: ValueShape)
    ensures
        shape@ == json_of(value),
        shape matches ValueShape::Object(entries) ==> names_differ(entries@),
{
    match value {
        serde_json::Value::Null => ValueShape::Null,
        serde_json::Value::Bool(b) => ValueShape::Bool(b),
        serde_json::Value::Number(n) => match (n.as_u64(), n.as_i64()) {
            (Some(u), _) => ValueShape::Unsigned(u),
            (None, Some(i)) => ValueShape::Signed(i),
            (None, None) => ValueShape::Float(OtherNumber { number: n }),
        },
        serde_json::Value::String(s) => ValueShape::String(s),
        serde_json::Value::Array(items) => ValueShape::Array(items),
        serde_json::Value::Object(map) => ValueShape::Object(map.into_iter().collect()),
    }
}

/// Puts a `serde_json::Value` together from one level: the variants, with
/// `Value::from` for the integers and `collect` into a `serde_json::Map` for
/// the members, whose names differ. A `Float` holds a number that was taken out
/// of such a value because it is no integer, and is put back as it was.
#[verifier::external_body]
fn value_from_shape(shape: ValueShape) -> (value: serde_json::Value)
    requires
        shape matches ValueShape::Object(entries) ==> names_differ(entries@),
    ensures
        json_of(value) == shape@,
{
    match shape {
        ValueShape::Null => serde_json::Value::Null,
        ValueShape::Bool(b) => serde_json::Value::Bool(b),
        ValueShape::Unsigned(n) => serde_json::Value::from(n),
        ValueShape::Signed(n) => serde_json::Value::from(n),
        ValueShape::Float(n) => serde_json::Value::Number(n.number),
        ValueShape::String(s) => serde_json::Value::String(s),
        ValueShape::Array(items) => serde_json::Value::Array(items),
        ValueShape::Object(map) => serde_json::Value::Object(map.into_iter().collect()),
    }
}

/// `serde_json::from_str` on any text, for a `serde_json::Value`; an error is
/// told by its text.
#[verifier::external_body]
fn parse_value(text: &str) -> (parsed: Result<serde_json::Value, String>)
    ensures
        match parsed {
            Ok(value) => json_parse(text@) == Ok::<JsonView, Seq<char>>(json_of(value)),
            Err(error) => json_parse(text@) == Err::<JsonView, Seq<char>>(error@),
        },
{
    serde_json::from_str::<serde_json::Value>(text).map_err(|error| error.to_string())
}

/// `serde_json::Value`'s `Display`: the compact text, an object's members in
/// the order of their names. It holds no line feed, since nothing is written
/// between the tokens, and a string's control characters are written as
/// escapes.
#[verifier::external_body]
fn value_text(value: &serde_json::Value) -> (text: String)
    ensures
        text@ == json_text(json_of(*value)),
        !text@.contains('\n'),
{
    value.to_string()
}

/// `serde_json::Value`'s alternate `Display`: the indented text that
/// `serde_json::to_string_pretty` gives.
#[verifier::external_body]
fn value_text_pretty(value: &serde_json::Value) -> (text: String)
    ensures
        text@ == json_text_pretty(json_of(*value)),
{
    format!("{:#}", value)
}

/// A clone of a `serde_json::Number` is the same number.
pub assume_specification[ <serde_json::Number as Clone>::clone ](
    number: &serde_json::Number,
) -> (copy: serde_json::Number)
    ensures
        copy == *number,
;

/// Sets a value in a list in which no name occurs twice.
fn set_value(values: &mut Vec<(String, serde_json::Value)>, name: &str, value: serde_json::Value)
    requires
        distinct_names(member_views(old(values)@)),
    ensures
        distinct_names(member_views(final(values)@)),
        members(member_views(final(values)@)) == members(member_views(old(values)@)).insert(
            name@,
            json_of(value),
        ),
{
    let ghost before = member_views(values@);
    let mut place: usize = values.len();
    for i in 0..values.len()
        invariant_except_break
            place == values@.len(),
            forall|k: int| 0 <= k < i ==> (#[trigger] values@[k]).0@ != name@,
        invariant
            before == member_views(values@),
        ensures
            place <= values@.len(),
            place < values@.len() ==> values@[place as int].0@ == name@,
            place == values@.len() ==> forall|k: int|
                0 <= k < values@.len() ==> (#[trigger] values@[k]).0@ != name@,
    {
        if same_text(values[i].0.as_str(), name) {
            place = i;
            break ;
        }
    }
    if place < values.len() {
        values.set(place, (name.to_owned(), value));
        assert(before[place as int].0 == name@);
    } else {
        values.push((name.to_owned(), value));
    }
    proof {
        lemma_listing_set(before, name@, json_of(value));
        let after = member_views(values@);
        assert forall|k: int| 0 <= k < before.len() && k != place implies (#[trigger] before[k]).0
            != name@ by {
            if place == before.len() {
            } else if k < place {
                assert(before[k].0 != before[place as int].0);
            } else {
                assert(before[place as int].0 != before[k].0);
            }
        }
        assert(after =~= listing_set(before, name@, json_of(value)));
    }
}

impl Clone for Json {
    fn clone(&self) -> (copy: Self)
        ensures
            copy@ == self@,
        decreases self,
    {
        match self {
            Json::Null => Json::Null,
            Json::Bool(b) => Json::Bool(*b),
            Json::Unsigned(n) => Json::Unsigned(*n),
            Json::Signed(n) => Json::Signed(*n),
            Json::Float(n) => Json::Float(n.clone()),
            Json::String(s) => Json::String(s.clone()),
            Json::Array(items) => {
                let mut copies: Vec<Json> = Vec::new();
                for i in 0..items.len()
                    invariant
                        *self == Json::Array(*items),
                        copies@.len() == i,
                        forall|k: int| 0 <= k < i ==> (#[trigger] copies@[k])@ == items@[k]@,
                {
                    assert(decreases_to!(*self => self->Array_0));
                    assert(decreases_to!(self->Array_0 => items[i as int]));
                    copies.push(items[i].clone());
                }
                assert(item_views(copies@) =~= item_views(items@));
                Json::Array(copies)
            },
            Json::Object(entries) => {
                let mut copies: Vec<(String, Json)> = Vec::new();
                for i in 0..entries.len()
                    invariant
                        *self == Json::Object(*entries),
                        copies@.len() == i,
                        forall|k: int|
                            0 <= k < i ==> (#[trigger] copies@[k]).0@ == entries@[k].0@
                                && copies@[k].1@ == entries@[k].1@,
                {
                    assert(decreases_to!(*self => self->Object_0));
                    assert(decreases_to!(self->Object_0 => entries[i as int]));
                    assert(decreases_to!(entries[i as int] => entries[i as int].1));
                    copies.push((entries[i].0.clone(), entries[i].1.clone()));
                }
                assert(entry_views(copies@) =~= entry_views(entries@));
                Json::Object(copies)
            },
        }
    }
}

impl Json {
    /// The string value with the given text.
    pub fn text(text: &str) -> (value: Json)
        ensures
            value@ == JsonView::String(text@),
    {
        Json::String(text.to_owned())
    }

    /// The array of the given items.
    pub fn array(items: Vec<Json>) -> (value: Json)
        ensures
            value@ == JsonView::Array(item_views(items@)),
    {
        Json::Array(items)
    }

    /// The object with the given members; of those with one name the last stays.
    pub fn object(entries: Vec<(String, Json)>) -> (value: Json)
        ensures
            value@ == object_view(entry_views(entries@)),
    {
        Json::Object(entries)
    }

    /// The member of the given name.
    pub fn get(&self, name: &str) -> (member: Option<&Json>)
        ensures
            match member {
                Some(v) => self@.get(name@) == Some(v@),
                None => self@.get(name@) is None,
            },
    {
        match self {
            Json::Object(entries) => {
                let ghost views = entry_views(entries@);
                let mut i: usize = entries.len();
                assert(views.take(i as int) =~= views);
                while i > 0
                    invariant
                        i <= entries.len(),
                        views == entry_views(entries@),
                        self@ == object_view(views),
                        self@.get(name@) == object_view(views.take(i as int)).get(name@),
                    decreases i,
                {
                    i = i - 1;
                    assert(views.take(i + 1).drop_last() =~= views.take(i as int));
                    assert(views.take(i + 1).last() == (entries@[i as int].0@, entries@[i as int].1@));
                    if same_text(entries[i].0.as_str(), name) {
                        return Some(&entries[i].1);
                    }
                }
                assert(views.take(0).len() == 0);
                None
            },
            _ => None,
        }
    }

    /// Whether the value is `null`.
    pub fn is_null(&self) -> (b: bool)
        ensures
            b == (self@ is Null),
    {
        match self {
            Json::Null => true,
            _ => false,
        }
    }

    /// The text of a string value.
    pub fn as_str(&self) -> (text: Option<&str>)
        ensures
            text.deep_view() == self@.as_text(),
    {
        match self {
            Json::String(s) => Some(s.as_str()),
            _ => None,
        }
    }

    /// The number, where it is an integer from zero to `u64::MAX`.
    pub fn as_u64(&self) -> (number: Option<u64>)
        ensures
            number == self@.as_unsigned(),
    {
        match self {
            Json::Unsigned(n) => Some(*n),
            Json::Signed(n) => if *n >= 0 {
                Some(*n as u64)
            } else {
                None
            },
            _ => None,
        }
    }

    /// The items of an array.
    pub fn as_array(&self) -> (items: Option<&Vec<Json>>)
        ensures
            match items {
                Some(v) => self@.as_items() == Some(item_views(v@)),
                None => self@.as_items() is None,
            },
    {
        match self {
            Json::Array(items) => Some(items),
            _ => None,
        }
    }

    /// The text of the string member of the given name.
    pub fn text_at(&self, name: &str) -> (text: Option<&str>)
        ensures
            text.deep_view() == self@.text_at(name@),
    {
        match self.get(name) {
            Some(v) => v.as_str(),
            None => None,
        }
    }

    /// The number in the member of the given name.
    pub fn u64_at(&self, name: &str) -> (number: Option<u64>)
        ensures
            number == self@.unsigned_at(name@),
    {
        match self.get(name) {
            Some(v) => v.as_u64(),
            None => None,
        }
    }

    /// The value that a `serde_json` value holds.
    pub fn from_value(value: serde_json::Value) -> (json: Json)
        ensures
            json@ == json_of(value),
        decreases json_of(value),
    {
        let ghost whole = json_of(value);
        match value_shape(value) {
            ValueShape::Null => Json::Null,
            ValueShape::Bool(b) => Json::Bool(b),
            ValueShape::Unsigned(n) => Json::Unsigned(n),
            ValueShape::Signed(n) => Json::Signed(n),
            ValueShape::Float(n) => Json::Float(n),
            ValueShape::String(s) => Json::String(s),
            ValueShape::Array(values) => {
                let ghost views = value_views(values@);
                let ghost given = values@;
                let mut items: Vec<Json> = Vec::new();
                for next in it: values
                    invariant
                        whole == json_of(value),
                        whole == JsonView::Array(views),
                        views == value_views(given),
                        it.seq() == given,
                        items@.len() == it.index(),
                        item_views(items@) =~= views.take(it.index()),
                {
                    assert(json_of(next) == views[items@.len() as int]);
                    assert(decreases_to!(whole => whole->Array_0));
                    assert(decreases_to!(whole->Array_0 => whole->Array_0[items@.len() as int]));
                    let item = Json::from_value(next);
                    items.push(item);
                }
                assert(views.take(given.len() as int) =~= views);
                Json::array(items)
            },
            ValueShape::Object(values) => {
                let ghost views = member_views(values@);
                let ghost given = values@;
                proof {
                    assert forall|i: int, j: int| 0 <= i < j < views.len() implies (
                    #[trigger] views[i]).0 != (#[trigger] views[j]).0 by {
                        assert(given[i].0@ != given[j].0@);
                    }
                    lemma_members(views);
                }
                let mut entries: Vec<(String, Json)> = Vec::new();
                for entry in it: values
                    invariant
                        whole == json_of(value),
                        whole == object_view(views),
                        views == member_views(given),
                        it.seq() == given,
                        members(views).dom().finite(),
                        forall|i: int|
                            0 <= i < views.len() ==> members(views).dom().contains(
                                (#[trigger] views[i]).0,
                            ) && members(views)[views[i].0] == views[i].1,
                        entries@.len() == it.index(),
                        entry_views(entries@) =~= views.take(it.index()),
                {
                    let (name, next) = entry;
                    assert(views[entries@.len() as int] == (name@, json_of(next)));
                    assert(members(views)[name@] == json_of(next));
                    assert(decreases_to!(whole => whole->Object_0));
                    assert(decreases_to!(whole->Object_0 => whole->Object_0[name@]));
                    let member = Json::from_value(next);
                    entries.push((name, member));
                }
                assert(views.take(given.len() as int) =~= views);
                Json::object(entries)
            },
        }
    }

    /// The `serde_json` value that holds the same.
    pub fn to_value(&self) -> (value: serde_json::Value)
        ensures
            json_of(value) == self@,
        decreases self,
    {
        match self {
            Json::Null => value_from_shape(ValueShape::Null),
            Json::Bool(b) => value_from_shape(ValueShape::Bool(*b)),
            Json::Unsigned(n) => value_from_shape(ValueShape::Unsigned(*n)),
            Json::Signed(n) => value_from_shape(ValueShape::Signed(*n)),
            Json::Float(n) => value_from_shape(ValueShape::Float(n.clone())),
            Json::String(s) => value_from_shape(ValueShape::String(s.clone())),
            Json::Array(items) => {
                let mut values: Vec<serde_json::Value> = Vec::new();
                for i in 0..items.len()
                    invariant
                        *self == Json::Array(*items),
                        values@.len() == i,
                        forall|k: int| 0 <= k < i ==> json_of(#[trigger] values@[k]) == items@[k]@,
                {
                    assert(decreases_to!(*self => self->Array_0));
                    assert(decreases_to!(self->Array_0 => items[i as int]));
                    values.push(items[i].to_value());
                }
                assert(value_views(values@) =~= item_views(items@));
                value_from_shape(ValueShape::Array(values))
            },
            Json::Object(entries) => {
                let mut values: Vec<(String, serde_json::Value)> = Vec::new();
                let ghost views = entry_views(entries@);
                assert(views.take(0) =~= Seq::empty());
                assert(member_views(values@) =~= Seq::empty());
                for i in 0..entries.len()
                    invariant
                        *self == Json::Object(*entries),
                        views == entry_views(entries@),
                        distinct_names(member_views(values@)),
                        members(member_views(values@)) == members(views.take(i as int)),
                {
                    assert(decreases_to!(*self => self->Object_0));
                    assert(decreases_to!(self->Object_0 => entries[i as int]));
                    assert(decreases_to!(entries[i as int] => entries[i as int].1));
                    let value = entries[i].1.to_value();
                    set_value(&mut values, entries[i].0.as_str(), value);
                    assert(views.take(i + 1).drop_last() =~= views.take(i as int));
                }
                assert(views.take(views.len() as int) =~= views);
                assert(names_differ(values@)) by {
                    let given = member_views(values@);
                    assert forall|i: int, j: int| 0 <= i < j < values@.len() implies (
                    #[trigger] values@[i]).0@ != (#[trigger] values@[j]).0@ by {
                        assert(given[i].0 != given[j].0);
                    }
                }
                value_from_shape(ValueShape::Object(values))
            },
        }
    }

    /// Reads a text as JSON.
    pub fn parse(text: &str) -> (parsed: Result<Json, String>)
        ensures
            match parsed {
                Ok(value) => json_parse(text@) == Ok::<JsonView, Seq<char>>(value@),
                Err(error) => json_parse(text@) == Err::<JsonView, Seq<char>>(error@),
            },
    {
        match parse_value(text) {
            Ok(value) => Ok(Json::from_value(value)),
            Err(error) => Err(error),
        }
    }

    /// The compact text of the value, on one line.
    pub fn to_text(&self) -> (text: String)
        ensures
            text@ == json_text(self@),
            !text@.contains('\n'),
    {
        value_text(&self.to_value())
    }

    /// The indented text of the value.
    pub fn to_text_pretty(&self) -> (text: String)
        ensures
            text@ == json_text_pretty(self@),
    {
        value_text_pretty(&self.to_value())
    }
}

}
