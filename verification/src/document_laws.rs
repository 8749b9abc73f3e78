//! What holds of documents: JSON, TOML and tables of names.

use vstd::prelude::*;

use crate::json;
use crate::json::{Json, JsonView, NumberView};
use crate::table;
use crate::toml_value;
use crate::toml_value::{Date, Datetime, Offset, Time, TomlView};

verus! {

/// An integer of TOML is the same integer in JSON, whatever its size.
pub proof fn law_integer_kept(i: int)
    ensures
        toml_value::as_json(TomlView::Integer(i)) == JsonView::Number(NumberView::Integer(i)),
{
}

/// Different integers stay different.
pub proof fn law_integers_apart(i: int, j: int)
    requires
        toml_value::as_json(TomlView::Integer(i)) == toml_value::as_json(TomlView::Integer(j)),
    ensures
        i == j,
{
}

/// A text of TOML is the same text in JSON, and a truth value the same truth value.
pub proof fn law_text_and_truth_kept(s: Seq<char>, b: bool)
    ensures
        toml_value::as_json(TomlView::Text(s)) == JsonView::Text(s),
        toml_value::as_json(TomlView::Boolean(b)) == JsonView::Bool(b),
{
}

/// A number with a fraction is the same number in JSON, and zero where JSON cannot
/// express it.
pub proof fn law_fraction_kept(n: serde_json::Number, i: i64)
    ensures
        json::number_as_i64(n) is None ==> toml_value::as_json(TomlView::Float(Some(n)))
            == JsonView::Number(NumberView::Other(n)),
        json::number_as_i64(n) == Some(i) ==> toml_value::as_json(TomlView::Float(Some(n)))
            == JsonView::Number(NumberView::Integer(i as int)),
        toml_value::as_json(TomlView::Float(None)) == JsonView::Number(NumberView::Integer(0)),
{
}

/// An array of TOML is an array of the same length in JSON, with each item in its place.
pub proof fn law_array_kept(elements: Seq<TomlView>, i: int)
    ensures
        ({
            let r = toml_value::as_json(TomlView::Array(elements));
            &&& r is Array
            &&& r->Array_0.len() == elements.len()
            &&& 0 <= i < elements.len() ==> r->Array_0[i] == toml_value::as_json(elements[i])
        }),
{
}

/// A table of TOML is an object in JSON with a member under each of its names, and no
/// other.
pub proof fn law_table_kept(m: Map<Seq<char>, TomlView>, k: Seq<char>)
    ensures
        ({
            let r = toml_value::as_json(TomlView::Table(m));
            &&& r is Object
            &&& r->Object_0.contains_key(k) <==> m.contains_key(k)
            &&& m.contains_key(k) ==> r->Object_0[k] == toml_value::as_json(m[k])
        }),
{
}

/// A date and time of TOML is a text in JSON: that of the date, that of the time and
/// that of the offset, each where it is given, with a `T` before a time that follows a
/// date.
pub proof fn law_datetime_shown(d: Datetime)
    ensures
        toml_value::as_json(TomlView::Datetime(d)) == JsonView::Text(
            shown_date(d.date) + (if d.date is Some && d.time is Some {
                seq!['T']
            } else {
                Seq::empty()
            }) + shown_time(d.time) + shown_offset(d.offset),
        ),
{
    reveal_strlit("T");
    assert("T"@ =~= seq!['T']);
    assert(d.text() =~= shown_date(d.date) + (if d.date is Some && d.time is Some {
        seq!['T']
    } else {
        Seq::empty()
    }) + shown_time(d.time) + shown_offset(d.offset));
}

/// The text of a date, where it is given.
pub open spec fn shown_date(date: Option<Date>) -> Seq<char> {
    match date {
        Some(d) => toml_value::date_text((d.year, d.month, d.day)),
        None => Seq::empty(),
    }
}

/// The text of a time, where it is given.
pub open spec fn shown_time(time: Option<Time>) -> Seq<char> {
    match time {
        Some(t) => toml_value::time_text((t.hour, t.minute, t.second, t.nanosecond)),
        None => Seq::empty(),
    }
}

/// The text of an offset, where it is given.
pub open spec fn shown_offset(offset: Option<Offset>) -> Seq<char> {
    match offset {
        Some(Offset::Zulu) => toml_value::offset_text(None),
        Some(Offset::Custom(m)) => toml_value::offset_text(Some(m.amount())),
        None => Seq::empty(),
    }
}

/// An object has the members that it has, and nothing else has members.
pub proof fn law_member_read(m: Map<Seq<char>, JsonView>, name: Seq<char>, other: JsonView)
    ensures
        m.contains_key(name) ==> JsonView::Object(m).member(name) == Some(m[name]),
        !m.contains_key(name) ==> JsonView::Object(m).member(name) is None,
        other !is Object ==> other.member(name) is None,
{
}

/// A member that is set is read back, the other members of an object stay, and what is
/// no object becomes one with that member alone.
pub proof fn law_member_set(j: JsonView, name: Seq<char>, value: JsonView, other: Seq<char>)
    ensures
        j.with_member(name, value).member(name) == Some(value),
        other != name ==> j.with_member(name, value).member(other) == j.member(other),
        j.with_member(name, value) is Object,
{
}

/// Only a text has a text, and it is that text. Objects and `null` take members, and
/// nothing else does.
pub proof fn law_kinds_told_apart(j: JsonView, s: Seq<char>)
    ensures
        j.text() == Some(s) <==> j == JsonView::Text(s),
        j.takes_members() <==> j is Object || j == JsonView::Null,
{
}

/// An array stands for its items in order, and an object for its members, of which the
/// last of a name counts.
pub proof fn law_document_meant(elements: Vec<Json>, entries: Vec<(String, Json)>, i: int)
    ensures
        ({
            let list = json::json_view(Json::Array(elements));
            let all = json::json_view(Json::Object(entries));
            &&& list is Array && list->Array_0.len() == elements@.len()
            &&& 0 <= i < elements@.len() ==> list->Array_0[i] == json::json_view(elements@[i])
            &&& all is Object
            &&& 0 <= i < entries@.len() && (forall|j: int|
                i < j < entries@.len() ==> (#[trigger] entries@[j]).0@ != entries@[i].0@) ==> (
            all->Object_0.contains_key(entries@[i].0@) && all->Object_0[entries@[i].0@]
                == json::json_view(entries@[i].1))
        }),
{
    let ms = json::members(entries@);
    if 0 <= i < entries@.len() && (forall|j: int|
        i < j < entries@.len() ==> (#[trigger] entries@[j]).0@ != entries@[i].0@) {
        assert forall|j: int| i < j < ms.len() implies (#[trigger] ms[j]).0 != ms[i].0 by {
            assert(ms[j].0 == entries@[j].0@);
        }
        table::lemma_table_last(ms, i);
    }
}

/// A table has the names of its entries, and under each name the value of the last
/// entry of that name.
pub proof fn law_last_entry_counts<T>(entries: Seq<(Seq<char>, T)>, name: Seq<char>, i: int)
    ensures
        table::table_of(entries).contains_key(name) <==> exists|j: int|
            0 <= j < entries.len() && (#[trigger] entries[j]).0 == name,
        0 <= i < entries.len() && entries[i].0 == name && (forall|j: int|
            i < j < entries.len() ==> (#[trigger] entries[j]).0 != name)
            ==> table::table_of(entries)[name] == entries[i].1,
{
    table::lemma_table_domain(entries, name);
    if 0 <= i < entries.len() && entries[i].0 == name && (forall|j: int|
        i < j < entries.len() ==> (#[trigger] entries[j]).0 != name) {
        table::lemma_table_last(entries, i);
    }
}

/// A value that is entered under a new name stands at the end. Under a name that is
/// there it takes the place of the old value. The other entries stay where they are.
pub proof fn law_entered<T>(
    entries: Seq<(Seq<char>, T)>,
    name: Seq<char>,
    value: T,
    i: int,
)
    requires
        0 <= i < entries.len(),
    ensures
        ({
            let after = table::entered(entries, name, value);
            &&& (forall|j: int| 0 <= j < entries.len() ==> (#[trigger] entries[j]).0 != name)
                ==> after.len() == entries.len() + 1 && after[i] == entries[i] && after.last()
                == (name, value)
            &&& entries[i].0 == name ==> after.len() == entries.len() && after[i] == (name, value)
            &&& entries[i].0 != name ==> after[i] == entries[i]
        }),
{
    table::lemma_table_domain(entries, name);
}

} // verus!
