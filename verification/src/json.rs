//! JSON documents.

use vstd::prelude::*;

use crate::table;
use crate::text::same_text;

verus! {

/// `serde_json::Number`: a number of a document, carried as it is.
#[verifier::external_type_specification]
#[verifier::external_body]
pub struct ExNumber(serde_json::Number);

/// `serde_json::Value`: a document in the form in which it is read and sent.
#[verifier::external_type_specification]
#[verifier::external_body]
pub struct ExValue(serde_json::Value);

/// What `serde_json::Number::as_i64` returns: the number, where it is an
/// integer that fits.
pub uninterp spec fn number_as_i64(n: serde_json::Number) -> Option<i64>;

/// Calls `serde_json::Number::from` on an `i64`. Its result is the JSON number
/// whose `as_i64` is the argument.
#[verifier::external_body]
fn number_of_i64(i: i64) -> (n: serde_json::Number)
    ensures
        number_as_i64(n) == Some(i),
{
    serde_json::Number::from(i)
}

/// `Clone::clone` of `serde_json::Number` gives the same number.
pub assume_specification[ <serde_json::Number as Clone>::clone ](n: &serde_json::Number) -> (r:
    serde_json::Number)
    ensures
        r == *n,
;

/// A JSON document.
#[derive(Debug)]
pub enum Json {
    Null,
    Bool(bool),
    Number(serde_json::Number),
    Text(String),
    Array(Vec<Json>),
    /// The members by name. Where a name occurs more than once, the last
    /// occurrence counts.
    Object(Vec<(String, Json)>),
}

/// What a JSON number is: an integer within the range of `i64`, or any other
/// number.
pub enum NumberView {
    Integer(int),
    Other(serde_json::Number),
}

/// What a JSON document is.
pub enum JsonView {
    Null,
    Bool(bool),
    Number(NumberView),
    Text(Seq<char>),
    Array(Seq<JsonView>),
    Object(Map<Seq<char>, JsonView>),
}

/// What the number `n` is.
pub open spec fn number_view(n: serde_json::Number) -> NumberView {
    match number_as_i64(n) {
        Some(i) => NumberView::Integer(i as int),
        None => NumberView::Other(n),
    }
}

/// The members of an object, in order.
pub open spec fn members(entries: Seq<(String, Json)>) -> Seq<(Seq<char>, JsonView)>
    decreases entries, 0int,
{
    Seq::new(
        entries.len(),
        |i: int|
            if 0 <= i < entries.len() {
                (entries[i].0@, json_view(entries[i].1))
            } else {
                arbitrary()
            },
    )
}

/// The items of an array, in order.
pub open spec fn items(elements: Seq<Json>) -> Seq<JsonView>
    decreases elements, 0int,
{
    Seq::new(
        elements.len(),
        |i: int|
            if 0 <= i < elements.len() {
                json_view(elements[i])
            } else {
                arbitrary()
            },
    )
}

/// The document that `j` stands for.
pub open spec fn json_view(j: Json) -> JsonView
    decreases j, 1int,
{
    match j {
        Json::Null => JsonView::Null,
        Json::Bool(b) => JsonView::Bool(b),
        Json::Number(n) => JsonView::Number(number_view(n)),
        Json::Text(s) => JsonView::Text(s@),
        Json::Array(elements) => JsonView::Array(items(elements@)),
        Json::Object(entries) => JsonView::Object(table::table_of(members(entries@))),
    }
}

/// The object without members.
pub open spec fn empty_object() -> JsonView {
    JsonView::Object(Map::empty())
}

impl Json {
    /// The object without members.
    pub fn object() -> (r: Json)
        ensures
            r@ == empty_object(),
    {
        let entries: Vec<(String, Json)> = Vec::new();
        assert(members(entries@) =~= Seq::<(Seq<char>, JsonView)>::empty());
        Json::Object(entries)
    }

    /// The integer `i` as a document.
    pub fn integer(i: i64) -> (r: Json)
        ensures
            r@ == JsonView::Number(NumberView::Integer(i as int)),
    {
        Json::Number(number_of_i64(i))
    }

    /// The number `n` as a document.
    pub fn number(n: &serde_json::Number) -> (r: Json)
        ensures
            r@ == JsonView::Number(number_view(*n)),
    {
        Json::Number(n.clone())
    }
}

impl View for Json {
    type V = JsonView;

    open spec fn view(&self) -> JsonView {
        json_view(*self)
    }
}

impl Json {
    /// A copy of the document.
    fn copy(&self) -> (r: Json)
        ensures
            r@ == self@,
        decreases self,
    {
        match self {
            Json::Null => Json::Null,
            Json::Bool(b) => Json::Bool(*b),
            Json::Number(n) => Json::Number(n.clone()),
            Json::Text(s) => Json::Text(s.clone()),
            Json::Array(elements) => {
                let mut out: Vec<Json> = Vec::new();
                let mut i: usize = 0;
                while i < elements.len()
                    invariant
                        *self == Json::Array(*elements),
                        i <= elements@.len(),
                        items(out@) == items(elements@).take(i as int),
                    decreases elements@.len() - i,
                {
                    assert(decreases_to!(*self => self->Array_0));
                    assert(decreases_to!(elements@ => elements@[i as int]));
                    let j = elements[i].copy();
                    let ghost before = out@;
                    out.push(j);
                    assert(items(out@) =~= items(before).push(j@));
                    assert(items(elements@).take(i + 1) =~= items(elements@).take(i as int).push(j@));
                    i = i + 1;
                }
                assert(items(elements@).take(i as int) =~= items(elements@));
                Json::Array(out)
            },
            Json::Object(entries) => {
                let mut out: Vec<(String, Json)> = Vec::new();
                let mut i: usize = 0;
                while i < entries.len()
                    invariant
                        *self == Json::Object(*entries),
                        i <= entries@.len(),
                        members(out@) == members(entries@).take(i as int),
                    decreases entries@.len() - i,
                {
                    assert(decreases_to!(*self => self->Object_0));
                    assert(decreases_to!(entries@ => entries@[i as int]));
                    let j = entries[i].1.copy();
                    let ghost before = out@;
                    let name = entries[i].0.clone();
                    out.push((name, j));
                    assert(members(out@) =~= members(before).push((name@, j@)));
                    assert(members(entries@).take(i + 1) =~= members(entries@).take(i as int).push(
                        (name@, j@),
                    ));
                    i = i + 1;
                }
                assert(members(entries@).take(i as int) =~= members(entries@));
                Json::Object(out)
            },
        }
    }
}

impl Clone for Json {
    fn clone(&self) -> (r: Self)
        ensures
            r@ == self@,
    {
        self.copy()
    }
}

impl JsonView {
    /// The member `name`, where the document is an object that has it.
    pub open spec fn member(self, name: Seq<char>) -> Option<JsonView> {
        match self {
            JsonView::Object(m) => if m.contains_key(name) {
                Some(m[name])
            } else {
                None
            },
            _ => None,
        }
    }

    /// The text, where the document is one.
    pub open spec fn text(self) -> Option<Seq<char>> {
        match self {
            JsonView::Text(s) => Some(s),
            _ => None,
        }
    }

    /// The document can take members: it is an object, or `null`, which counts
    /// as the object without members.
    pub open spec fn takes_members(self) -> bool {
        self is Object || self is Null
    }

    /// The document with `value` as its member `name`.
    pub open spec fn with_member(self, name: Seq<char>, value: JsonView) -> JsonView {
        match self {
            JsonView::Object(m) => JsonView::Object(m.insert(name, value)),
            _ => JsonView::Object(Map::empty().insert(name, value)),
        }
    }
}

/// Where the member `name` stands among the entries of an object.
pub fn member_position(entries: &Vec<(String, Json)>, name: &str) -> (r: Option<usize>)
    ensures
        r is Some <==> table::table_of(members(entries@)).contains_key(name@),
        r matches Some(i) ==> {
            &&& i < entries@.len()
            &&& entries@[i as int].0@ == name@
            &&& entries@[i as int].1@ == table::table_of(members(entries@))[name@]
            &&& forall|j: int| i < j < entries@.len() ==> (#[trigger] entries@[j]).0@ != name@
        },
{
    let mut i: usize = entries.len();
    while i > 0
        invariant
            i <= entries@.len(),
            forall|j: int| i <= j < entries@.len() ==> (#[trigger] entries@[j]).0@ != name@,
        decreases i,
    {
        i = i - 1;
        if same_text(entries[i].0.as_str(), name) {
            proof {
                let ms = members(entries@);
                assert(ms[i as int].0 == name@);
                assert forall|j: int| i < j < ms.len() implies (#[trigger] ms[j]).0
                    != ms[i as int].0 by {
                    assert(ms[j].0 == entries@[j].0@);
                }
                table::lemma_table_last(ms, i as int);
            }
            return Some(i);
        }
    }
    proof {
        let ms = members(entries@);
        table::lemma_table_domain(ms, name@);
        assert forall|j: int| 0 <= j < ms.len() implies (#[trigger] ms[j]).0 != name@ by {
            assert(ms[j].0 == entries@[j].0@);
        }
    }
    None
}

impl Json {
    /// The member `name`, where the document is an object that has it.
    pub fn get(&self, name: &str) -> (r: Option<&Json>)
        ensures
            r is Some <==> self@.member(name@) is Some,
            r matches Some(j) ==> Some(j@) == self@.member(name@),
    {
        match self {
            Json::Object(entries) => {
                match member_position(entries, name) {
                    Some(i) => Some(&entries[i].1),
                    None => None,
                }
            },
            _ => None,
        }
    }

    /// The text, where the document is one.
    pub fn as_text(&self) -> (r: Option<&str>)
        ensures
            r is Some <==> self@.text() is Some,
            r matches Some(s) ==> Some(s@) == self@.text(),
    {
        match self {
            Json::Text(s) => Some(s.as_str()),
            _ => None,
        }
    }

    /// Whether the document can take members.
    pub fn takes_members(&self) -> (r: bool)
        ensures
            r == self@.takes_members(),
    {
        match self {
            Json::Object(_) => true,
            Json::Null => true,
            _ => false,
        }
    }

    /// Puts `value` under `name`, in place of what was there.
    pub fn set_member(self, name: &str, value: Json) -> (r: Json)
        requires
            self@.takes_members(),
        ensures
            r@ == self@.with_member(name@, value@),
    {
        match self {
            Json::Object(entries) => {
                let mut entries = entries;
                let ghost before = members(entries@);
                match member_position(&entries, name) {
                    Some(i) => {
                        proof {
                            assert forall|j: int| i < j < before.len() implies (
                            #[trigger] before[j]).0 != before[i as int].0 by {
                                assert(before[j].0 == entries@[j].0@);
                            }
                            table::lemma_table_update(before, i as int, value@);
                        }
                        let ghost v = value@;
                        entries.set(i, (name.to_owned(), value));
                        assert(members(entries@) =~= before.update(
                            i as int,
                            (before[i as int].0, v),
                        ));
                    },
                    None => {
                        proof {
                            table::lemma_table_push(before, name@, value@);
                        }
                        let ghost v = value@;
                        entries.push((name.to_owned(), value));
                        assert(members(entries@) =~= before.push((name@, v)));
                    },
                }
                Json::Object(entries)
            },
            _ => {
                let mut entries: Vec<(String, Json)> = Vec::new();
                let ghost before = members(entries@);
                proof {
                    table::lemma_table_push(before, name@, value@);
                }
                let ghost v = value@;
                entries.push((name.to_owned(), value));
                assert(members(entries@) =~= before.push((name@, v)));
                Json::Object(entries)
            },
        }
    }
}

/// What a `serde_json::Value` holds, as a document.
pub uninterp spec fn value_json(v: serde_json::Value) -> JsonView;

/// The outermost layer of a `serde_json::Value`.
#[derive(Debug)]
pub enum ValueParts {
    Null,
    Bool(bool),
    Number(serde_json::Number),
    Text(String),
    Array(Vec<serde_json::Value>),
    Object(Vec<(String, serde_json::Value)>),
}

/// The document that a layer and what stands below it make up.
pub open spec fn parts_json(p: ValueParts) -> JsonView {
    match p {
        ValueParts::Null => JsonView::Null,
        ValueParts::Bool(b) => JsonView::Bool(b),
        ValueParts::Number(n) => JsonView::Number(number_view(n)),
        ValueParts::Text(s) => JsonView::Text(s@),
        ValueParts::Array(elements) => JsonView::Array(
            elements@.map_values(|v: serde_json::Value| value_json(v)),
        ),
        ValueParts::Object(entries) => JsonView::Object(
            table::table_of(value_members(entries@)),
        ),
    }
}

/// The members of an object, in order.
pub open spec fn value_members(entries: Seq<(String, serde_json::Value)>) -> Seq<
    (Seq<char>, JsonView),
> {
    entries.map_values(|e: (String, serde_json::Value)| (e.0@, value_json(e.1)))
}

/// Calls the constructors of the variants of `serde_json::Value`. The value holds
/// the layer that it is built from. No member's name may occur twice.
#[verifier::external_body]
fn value_of_parts(p: ValueParts) -> (v: serde_json::Value)
    requires
        p matches ValueParts::Object(entries) ==> table::distinct_names(value_members(entries@)),
    ensures
        value_json(v) == parts_json(p),
{
    match p {
        ValueParts::Null => serde_json::Value::Null,
        ValueParts::Bool(b) => serde_json::Value::Bool(b),
        ValueParts::Number(n) => serde_json::Value::Number(n),
        ValueParts::Text(s) => serde_json::Value::String(s),
        ValueParts::Array(elements) => serde_json::Value::Array(elements),
        ValueParts::Object(entries) => serde_json::Value::Object(entries.into_iter().collect()),
    }
}

/// Takes a `serde_json::Value` apart by its variant. The layer holds what the
/// value held, and no member's name occurs twice.
#[verifier::external_body]
fn parts_of_value(v: serde_json::Value) -> (p: ValueParts)
    ensures
        parts_json(p) == value_json(v),
        p matches ValueParts::Object(entries) ==> table::distinct_names(value_members(entries@)),
{
    match v {
        serde_json::Value::Null => ValueParts::Null,
        serde_json::Value::Bool(b) => ValueParts::Bool(b),
        serde_json::Value::Number(n) => ValueParts::Number(n),
        serde_json::Value::String(s) => ValueParts::Text(s),
        serde_json::Value::Array(elements) => ValueParts::Array(elements),
        serde_json::Value::Object(map) => ValueParts::Object(map.into_iter().collect()),
    }
}

/// Puts `v` under `name`, in place of what was there.
fn enter(out: &mut Vec<(String, serde_json::Value)>, name: String, v: serde_json::Value)
    requires
        table::distinct_names(value_members(old(out)@)),
    ensures
        table::distinct_names(value_members(final(out)@)),
        table::table_of(value_members(final(out)@)) == table::table_of(
            value_members(old(out)@),
        ).insert(name@, value_json(v)),
{
    let ghost before = value_members(out@);
    let mut i: usize = 0;
    while i < out.len()
        invariant
            i <= out@.len(),
            before == value_members(out@),
            table::distinct_names(before),
            out@ == old(out)@,
            forall|j: int| 0 <= j < i ==> (#[trigger] before[j]).0 != name@,
        decreases out@.len() - i,
    {
        if same_text(out[i].0.as_str(), name.as_str()) {
            proof {
                table::lemma_table_update(before, i as int, value_json(v));
            }
            let ghost after = before.update(i as int, (before[i as int].0, value_json(v)));
            out.set(i, (name, v));
            assert(value_members(out@) =~= after);
            return;
        }
        i = i + 1;
    }
    proof {
        table::lemma_table_push(before, name@, value_json(v));
    }
    let ghost after = before.push((name@, value_json(v)));
    out.push((name, v));
    assert(value_members(out@) =~= after);
}

impl Json {
    /// The document that `v` holds.
    pub fn from_value(v: serde_json::Value) -> (r: Json)
        ensures
            r@ == value_json(v),
        decreases value_json(v),
    {
        let p = parts_of_value(v);
        match p {
            ValueParts::Null => Json::Null,
            ValueParts::Bool(b) => Json::Bool(b),
            ValueParts::Number(n) => Json::Number(n),
            ValueParts::Text(s) => Json::Text(s),
            ValueParts::Array(elements) => {
                let ghost content = elements@.map_values(|v: serde_json::Value| value_json(v));
                let ghost source = elements@;
                let mut out: Vec<Json> = Vec::new();
                for e in it: elements
                    invariant
                        value_json(v) == JsonView::Array(content),
                        content == source.map_values(|v: serde_json::Value| value_json(v)),
                        it.seq() == source,
                        items(out@) == content.take(it.index()),
                {
                    assert(content[it.index()] == value_json(e));
                    assert(decreases_to!(value_json(v) => value_json(v)->Array_0));
                    assert(decreases_to!(content => content[it.index()]));
                    let j = Json::from_value(e);
                    let ghost before = out@;
                    out.push(j);
                    assert(items(out@) =~= items(before).push(j@));
                    assert(content.take(it.index() + 1) =~= content.take(it.index()).push(j@));
                }
                assert(content.take(content.len() as int) =~= content);
                Json::Array(out)
            },
            ValueParts::Object(entries) => {
                let ghost content = value_members(entries@);
                let ghost source = entries@;
                let mut out: Vec<(String, Json)> = Vec::new();
                for e in it: entries
                    invariant
                        value_json(v) == JsonView::Object(table::table_of(content)),
                        content == value_members(source),
                        table::distinct_names(content),
                        it.seq() == source,
                        members(out@) == content.take(it.index()),
                {
                    assert(content[it.index()] == (e.0@, value_json(e.1)));
                    proof {
                        table::lemma_table_last(content, it.index());
                        table::lemma_table_finite(content);
                    }
                    assert(decreases_to!(value_json(v) => value_json(v)->Object_0));
                    assert(decreases_to!(table::table_of(content) => table::table_of(content)[e.0@]));
                    let j = Json::from_value(e.1);
                    let ghost before = out@;
                    let ghost name = e.0@;
                    out.push((e.0, j));
                    assert(members(out@) =~= members(before).push((name, j@)));
                    assert(content.take(it.index() + 1) =~= content.take(it.index()).push(
                        (name, j@),
                    ));
                }
                assert(content.take(content.len() as int) =~= content);
                Json::Object(out)
            },
        }
    }

    /// The document in the form in which it is sent.
    pub fn to_value(&self) -> (v: serde_json::Value)
        ensures
            value_json(v) == self@,
        decreases self,
    {
        match self {
            Json::Null => value_of_parts(ValueParts::Null),
            Json::Bool(b) => value_of_parts(ValueParts::Bool(*b)),
            Json::Number(n) => value_of_parts(ValueParts::Number(n.clone())),
            Json::Text(s) => value_of_parts(ValueParts::Text(s.clone())),
            Json::Array(elements) => {
                let mut out: Vec<serde_json::Value> = Vec::new();
                let mut i: usize = 0;
                while i < elements.len()
                    invariant
                        *self == Json::Array(*elements),
                        i <= elements@.len(),
                        out@.map_values(|v: serde_json::Value| value_json(v)) == items(
                            elements@,
                        ).take(i as int),
                    decreases elements@.len() - i,
                {
                    assert(decreases_to!(*self => self->Array_0));
                    assert(decreases_to!(elements@ => elements@[i as int]));
                    let v = elements[i].to_value();
                    let ghost before = out@;
                    out.push(v);
                    assert(out@.map_values(|v: serde_json::Value| value_json(v))
                        =~= before.map_values(|v: serde_json::Value| value_json(v)).push(
                        value_json(v),
                    ));
                    assert(items(elements@).take(i + 1) =~= items(elements@).take(i as int).push(
                        value_json(v),
                    ));
                    i = i + 1;
                }
                assert(items(elements@).take(i as int) =~= items(elements@));
                value_of_parts(ValueParts::Array(out))
            },
            Json::Object(entries) => {
                let ghost all = members(entries@);
                let mut out: Vec<(String, serde_json::Value)> = Vec::new();
                let mut i: usize = 0;
                assert(value_members(out@) =~= all.take(0));
                while i < entries.len()
                    invariant
                        *self == Json::Object(*entries),
                        i <= entries@.len(),
                        all == members(entries@),
                        table::distinct_names(value_members(out@)),
                        table::table_of(value_members(out@)) == table::table_of(
                            all.take(i as int),
                        ),
                    decreases entries@.len() - i,
                {
                    assert(decreases_to!(*self => self->Object_0));
                    assert(decreases_to!(entries@ => entries@[i as int]));
                    let v = entries[i].1.to_value();
                    let name = entries[i].0.clone();
                    proof {
                        table::lemma_table_push(all.take(i as int), name@, value_json(v));
                    }
                    assert(all.take(i + 1) =~= all.take(i as int).push((name@, value_json(v))));
                    enter(&mut out, name, v);
                    i = i + 1;
                }
                assert(all.take(i as int) =~= all);
                value_of_parts(ValueParts::Object(out))
            },
        }
    }
}

} // verus!
