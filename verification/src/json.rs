//! A JSON document model that the request builders fill and the response parsers read.
use vstd::prelude::*;
use crate::text::str_eq;

verus! {

/// A JSON value. Numbers are kept as the text of their JSON literal.
#[derive(Debug, PartialEq)]
pub enum JsonValue {
    Null,
    Bool(bool),
    Number(String),
    Str(String),
    Array(Vec<JsonValue>),
    Object(Vec<(String, JsonValue)>),
}

/// The mathematical value of a JSON document.
pub enum JsonView {
    Null,
    Bool(bool),
    Number(Seq<char>),
    Str(Seq<char>),
    Array(Seq<JsonView>),
    Object(Seq<(Seq<char>, JsonView)>),
}

pub open spec fn view_items(items: Seq<JsonValue>) -> Seq<JsonView>
    decreases items,
{
    Seq::new(items.len(), |i: int| if 0 <= i < items.len() { json_view(items[i]) } else { JsonView::Null })
}

pub open spec fn view_entries(entries: Seq<(String, JsonValue)>) -> Seq<(Seq<char>, JsonView)>
    decreases entries,
{
    Seq::new(
        entries.len(),
        |i: int|
            if 0 <= i < entries.len() {
                (entries[i].0@, json_view(entries[i].1))
            } else {
                (Seq::empty(), JsonView::Null)
            },
    )
}

pub open spec fn json_view(v: JsonValue) -> JsonView
    decreases v,
{
    match v {
        JsonValue::Null => JsonView::Null,
        JsonValue::Bool(b) => JsonView::Bool(b),
        JsonValue::Number(n) => JsonView::Number(n@),
        JsonValue::Str(s) => JsonView::Str(s@),
        JsonValue::Array(items) => JsonView::Array(view_items(items@)),
        JsonValue::Object(entries) => JsonView::Object(view_entries(entries@)),
    }
}

impl View for JsonValue {
    type V = JsonView;

    open spec fn view(&self) -> JsonView {
        json_view(*self)
    }
}

/// The value of the first entry named `key`.
pub open spec fn lookup(entries: Seq<(Seq<char>, JsonView)>, key: Seq<char>) -> Option<JsonView>
    decreases entries.len(),
{
    if entries.len() == 0 {
        None
    } else if entries[0].0 == key {
        Some(entries[0].1)
    } else {
        lookup(entries.drop_first(), key)
    }
}

/// The member `key` of an object; nothing for any other value.
pub open spec fn member(v: JsonView, key: Seq<char>) -> Option<JsonView> {
    match v {
        JsonView::Object(entries) => lookup(entries, key),
        _ => None,
    }
}

/// The member `key` of an optional value.
pub open spec fn member_of(v: Option<JsonView>, key: Seq<char>) -> Option<JsonView> {
    match v {
        Some(x) => member(x, key),
        None => None,
    }
}

/// The text of a string value.
pub open spec fn text_of(v: Option<JsonView>) -> Option<Seq<char>> {
    match v {
        Some(JsonView::Str(s)) => Some(s),
        _ => None,
    }
}

/// The items of an array value.
pub open spec fn items_of(v: Option<JsonView>) -> Option<Seq<JsonView>> {
    match v {
        Some(JsonView::Array(items)) => Some(items),
        _ => None,
    }
}

/// `a` if present, else `b`.
pub open spec fn or_else(a: Option<JsonView>, b: Option<JsonView>) -> Option<JsonView> {
    match a {
        Some(x) => Some(x),
        None => b,
    }
}

impl JsonValue {
    /// The member `key` of an object, as `serde_json::Value::get` finds it.
    pub fn get(&self, key: &str) -> (r: Option<&JsonValue>)
        ensures
            match r {
                Some(x) => member(self@, key@) == Some(x@),
                None => member(self@, key@) is None,
            },
    {
        match self {
            JsonValue::Object(entries) => {
                let ghost views = view_entries(entries@);
                let mut i: usize = 0;
                assert(views.skip(0) =~= views);
                while i < entries.len()
                    invariant
                        views == view_entries(entries@),
                        self@ == JsonView::Object(views),
                        views.len() == entries.len(),
                        i <= entries.len(),
                        lookup(views, key@) == lookup(views.skip(i as int), key@),
                    decreases entries.len() - i,
                {
                    let ghost rest = views.skip(i as int);
                    assert(rest[0] == views[i as int]);
                    assert(views[i as int] == (entries@[i as int].0@, entries@[i as int].1@));
                    assert(rest.drop_first() =~= views.skip(i + 1));
                    if str_eq(entries[i].0.as_str(), key) {
                        assert(lookup(rest, key@) == Some(entries@[i as int].1@));
                        return Some(&entries[i].1);
                    }
                    i = i + 1;
                }
                None
            },
            _ => None,
        }
    }

    /// The text of a string value.
    pub fn as_str(&self) -> (r: Option<&str>)
        ensures
            match r {
                Some(s) => self@ == JsonView::Str(s@),
                None => !(self@ is Str),
            },
    {
        match self {
            JsonValue::Str(s) => Some(s.as_str()),
            _ => None,
        }
    }

    /// The items of an array value.
    pub fn as_array(&self) -> (r: Option<&Vec<JsonValue>>)
        ensures
            match r {
                Some(items) => self@ == JsonView::Array(view_items(items@)),
                None => !(self@ is Array),
            },
    {
        match self {
            JsonValue::Array(items) => Some(items),
            _ => None,
        }
    }

    /// A string value.
    pub fn string(s: &str) -> (r: JsonValue)
        ensures
            r@ == JsonView::Str(s@),
    {
        JsonValue::Str(s.to_owned())
    }
}

/// A number value written as `text`.
pub fn number(text: String) -> (r: JsonValue)
    ensures
        r@ == JsonView::Number(text@),
{
    JsonValue::Number(text)
}

/// An array of `items`.
pub fn array(items: Vec<JsonValue>) -> (r: JsonValue)
    ensures
        r@ == JsonView::Array(view_items(items@)),
{
    JsonValue::Array(items)
}

/// An object of `entries`, in order.
pub fn object(entries: Vec<(String, JsonValue)>) -> (r: JsonValue)
    ensures
        r@ == JsonView::Object(view_entries(entries@)),
{
    JsonValue::Object(entries)
}

/// Appends an item to an array under construction.
pub fn push_item(items: &mut Vec<JsonValue>, item: JsonValue)
    ensures
        view_items(final(items)@) == view_items(old(items)@).push(item@),
{
    let ghost before = items@;
    items.push(item);
    assert(view_items(items@) =~= view_items(before).push(item@));
}

/// Appends the member `key` to an object under construction.
pub fn push_entry(entries: &mut Vec<(String, JsonValue)>, key: &str, value: JsonValue)
    ensures
        view_entries(final(entries)@) == view_entries(old(entries)@).push((key@, value@)),
{
    let ghost before = entries@;
    let ghost v = value@;
    entries.push((key.to_owned(), value));
    assert(view_entries(entries@) =~= view_entries(before).push((key@, v)));
}

} // verus!
