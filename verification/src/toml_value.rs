//! Values of a TOML document, and what they become in JSON.

use vstd::prelude::*;

use crate::json;
use crate::json::{Json, JsonView, NumberView};
use crate::table;
use crate::text;

verus! {

/// A calendar date.
#[derive(Debug, Clone, Copy)]
pub struct Date {
    pub year: u16,
    pub month: u8,
    pub day: u8,
}

/// A time of day.
#[derive(Debug, Clone, Copy)]
pub struct Time {
    pub hour: u8,
    pub minute: u8,
    pub second: u8,
    pub nanosecond: u32,
}

/// A distance from universal time, in minutes. It can be negated.
#[derive(Debug, Clone, Copy)]
pub struct Minutes {
    value: i16,
}

impl Minutes {
    #[verifier::type_invariant]
    spec fn negatable(self) -> bool {
        self.value > i16::MIN
    }

    /// The number of minutes.
    pub closed spec fn amount(self) -> i16 {
        self.value
    }

    /// The distance of `value` minutes, where it can be negated.
    pub fn new(value: i16) -> (r: Option<Minutes>)
        ensures
            r is Some <==> value > i16::MIN,
            r matches Some(m) ==> m.amount() == value,
    {
        if value > i16::MIN {
            Some(Minutes { value })
        } else {
            None
        }
    }
}

/// Where a time counts from.
#[derive(Debug, Clone, Copy)]
pub enum Offset {
    Zulu,
    Custom(Minutes),
}

/// A date, a time or both, as TOML has them.
#[derive(Debug, Clone, Copy)]
pub struct Datetime {
    pub date: Option<Date>,
    pub time: Option<Time>,
    pub offset: Option<Offset>,
}

/// The decimal numeral of `n` with as many zeros before it as make up `width`.
pub open spec fn padded(n: nat, width: nat) -> Seq<char> {
    let numeral = text::decimal(n);
    if numeral.len() < width {
        Seq::new((width - numeral.len()) as nat, |i: int| '0') + numeral
    } else {
        numeral
    }
}

/// The text without the zeros that it ends with.
pub open spec fn without_zeros(s: Seq<char>) -> Seq<char>
    decreases s.len(),
{
    if s.len() > 0 && s.last() == '0' {
        without_zeros(s.drop_last())
    } else {
        s
    }
}

/// The text of a date, given as year, month and day.
pub open spec fn date_text(date: (u16, u8, u8)) -> Seq<char> {
    padded(date.0 as nat, 4) + "-"@ + padded(date.1 as nat, 2) + "-"@ + padded(date.2 as nat, 2)
}

/// The text of a time, given as hour, minute, second and nanosecond: a fraction of
/// nine digits follows the seconds where there is one, without the zeros at its end.
pub open spec fn time_text(time: (u8, u8, u8, u32)) -> Seq<char> {
    padded(time.0 as nat, 2) + ":"@ + padded(time.1 as nat, 2) + ":"@ + padded(time.2 as nat, 2) + (
    if time.3 == 0 {
        Seq::empty()
    } else {
        "."@ + without_zeros(padded(time.3 as nat, 9))
    })
}

/// The text of an offset, where `None` is universal time and `Some(m)` is `m` minutes
/// from it: its sign, hours and minutes.
pub open spec fn offset_text(offset: Option<i16>) -> Seq<char> {
    match offset {
        None => "Z"@,
        Some(m) => {
            let distance: nat = (if m < 0 {
                -m
            } else {
                m as int
            }) as nat;
            (if m < 0 {
                "-"@
            } else {
                "+"@
            }) + padded(distance / 60, 2) + ":"@ + padded(distance % 60, 2)
        },
    }
}

/// The text of a date and time, as far as they are given: a `T` stands between the
/// two, and the offset follows.
pub open spec fn datetime_text(
    date: Option<(u16, u8, u8)>,
    time: Option<(u8, u8, u8, u32)>,
    offset: Option<Option<i16>>,
) -> Seq<char> {
    (match date {
        Some(d) => date_text(d),
        None => Seq::empty(),
    }) + (match time {
        Some(t) => (if date is Some {
            "T"@
        } else {
            Seq::empty()
        }) + time_text(t),
        None => Seq::empty(),
    }) + (match offset {
        Some(o) => offset_text(o),
        None => Seq::empty(),
    })
}

/// Calls `to_string` of `toml::value::Datetime`, which shows the date, the time and
/// the offset that it has. In `offset`, `Some(None)` is universal time. The offset
/// must have a negation, since it is negated on the way.
#[verifier::external_body]
fn display_datetime(
    date: Option<(u16, u8, u8)>,
    time: Option<(u8, u8, u8, u32)>,
    offset: Option<Option<i16>>,
) -> (r: String)
    requires
        offset matches Some(Some(m)) ==> m > i16::MIN,
    ensures
        r@ == datetime_text(date, time, offset),
{
    toml::value::Datetime {
        date: date.map(|(year, month, day)| toml::value::Date { year, month, day }),
        time: time.map(
            |(hour, minute, second, nanosecond)|
                toml::value::Time { hour, minute, second, nanosecond },
        ),
        offset: offset.map(
            |o| o.map_or(toml::value::Offset::Z, |minutes| toml::value::Offset::Custom { minutes }),
        ),
    }.to_string()
}

impl Date {
    /// Year, month and day.
    pub open spec fn fields(self) -> (u16, u8, u8) {
        (self.year, self.month, self.day)
    }
}

impl Time {
    /// Hour, minute, second and nanosecond.
    pub open spec fn fields(self) -> (u8, u8, u8, u32) {
        (self.hour, self.minute, self.second, self.nanosecond)
    }
}

impl Offset {
    /// The minutes from universal time, where they are given.
    pub open spec fn minutes(self) -> Option<i16> {
        match self {
            Offset::Zulu => None,
            Offset::Custom(m) => Some(m.amount()),
        }
    }
}

impl Datetime {
    /// The text of the date and time.
    pub open spec fn text(self) -> Seq<char> {
        datetime_text(
            match self.date {
                Some(d) => Some(d.fields()),
                None => None,
            },
            match self.time {
                Some(t) => Some(t.fields()),
                None => None,
            },
            match self.offset {
                Some(o) => Some(o.minutes()),
                None => None,
            },
        )
    }

    /// The text of the date and time.
    pub fn to_text(&self) -> (r: String)
        ensures
            r@ == self.text(),
    {
        let date = match self.date {
            Some(d) => Some((d.year, d.month, d.day)),
            None => None,
        };
        let time = match self.time {
            Some(t) => Some((t.hour, t.minute, t.second, t.nanosecond)),
            None => None,
        };
        let offset: Option<Option<i16>> = match self.offset {
            Some(Offset::Zulu) => Some(None),
            Some(Offset::Custom(m)) => {
                proof {
                    use_type_invariant(&m);
                }
                Some(Some(m.value))
            },
            None => None,
        };
        display_datetime(date, time, offset)
    }
}

/// A value of a TOML document.
#[derive(Debug)]
pub enum TomlValue {
    Text(String),
    Integer(i64),
    /// A number with a fraction, as the JSON number that it is, or `None` where
    /// it is infinite or not a number.
    Float(Option<serde_json::Number>),
    Boolean(bool),
    Datetime(Datetime),
    Array(Vec<TomlValue>),
    /// The members by name. Where a name occurs more than once, the last
    /// occurrence counts.
    Table(Vec<(String, TomlValue)>),
}

/// What a value of a TOML document is.
pub enum TomlView {
    Text(Seq<char>),
    Integer(int),
    Float(Option<serde_json::Number>),
    Boolean(bool),
    Datetime(Datetime),
    Array(Seq<TomlView>),
    Table(Map<Seq<char>, TomlView>),
}

/// The members of a table, in order.
pub open spec fn members(entries: Seq<(String, TomlValue)>) -> Seq<(Seq<char>, TomlView)>
    decreases entries, 0int,
{
    Seq::new(
        entries.len(),
        |i: int|
            if 0 <= i < entries.len() {
                (entries[i].0@, toml_view(entries[i].1))
            } else {
                arbitrary()
            },
    )
}

/// The items of an array, in order.
pub open spec fn items(elements: Seq<TomlValue>) -> Seq<TomlView>
    decreases elements, 0int,
{
    Seq::new(
        elements.len(),
        |i: int|
            if 0 <= i < elements.len() {
                toml_view(elements[i])
            } else {
                arbitrary()
            },
    )
}

/// The value that `t` stands for.
pub open spec fn toml_view(t: TomlValue) -> TomlView
    decreases t, 1int,
{
    match t {
        TomlValue::Text(s) => TomlView::Text(s@),
        TomlValue::Integer(i) => TomlView::Integer(i as int),
        TomlValue::Float(n) => TomlView::Float(n),
        TomlValue::Boolean(b) => TomlView::Boolean(b),
        TomlValue::Datetime(d) => TomlView::Datetime(d),
        TomlValue::Array(elements) => TomlView::Array(items(elements@)),
        TomlValue::Table(entries) => TomlView::Table(table::table_of(members(entries@))),
    }
}

impl View for TomlValue {
    type V = TomlView;

    open spec fn view(&self) -> TomlView {
        toml_view(*self)
    }
}

impl TomlValue {
    /// A copy of the value.
    fn copy(&self) -> (r: TomlValue)
        ensures
            r@ == self@,
        decreases self,
    {
        match self {
            TomlValue::Text(s) => TomlValue::Text(s.clone()),
            TomlValue::Integer(i) => TomlValue::Integer(*i),
            TomlValue::Float(Some(n)) => TomlValue::Float(Some(n.clone())),
            TomlValue::Float(None) => TomlValue::Float(None),
            TomlValue::Boolean(b) => TomlValue::Boolean(*b),
            TomlValue::Datetime(d) => TomlValue::Datetime(*d),
            TomlValue::Array(elements) => {
                let mut out: Vec<TomlValue> = Vec::new();
                let mut i: usize = 0;
                while i < elements.len()
                    invariant
                        *self == TomlValue::Array(*elements),
                        i <= elements@.len(),
                        items(out@) == items(elements@).take(i as int),
                    decreases elements@.len() - i,
                {
                    assert(decreases_to!(*self => self->Array_0));
                    assert(decreases_to!(elements@ => elements@[i as int]));
                    let t = elements[i].copy();
                    let ghost before = out@;
                    out.push(t);
                    assert(items(out@) =~= items(before).push(t@));
                    assert(items(elements@).take(i + 1) =~= items(elements@).take(i as int).push(t@));
                    i = i + 1;
                }
                assert(items(elements@).take(i as int) =~= items(elements@));
                TomlValue::Array(out)
            },
            TomlValue::Table(entries) => {
                let mut out: Vec<(String, TomlValue)> = Vec::new();
                let mut i: usize = 0;
                while i < entries.len()
                    invariant
                        *self == TomlValue::Table(*entries),
                        i <= entries@.len(),
                        members(out@) == members(entries@).take(i as int),
                    decreases entries@.len() - i,
                {
                    assert(decreases_to!(*self => self->Table_0));
                    assert(decreases_to!(entries@ => entries@[i as int]));
                    let t = entries[i].1.copy();
                    let ghost before = out@;
                    let name = entries[i].0.clone();
                    out.push((name, t));
                    assert(members(out@) =~= members(before).push((name@, t@)));
                    assert(members(entries@).take(i + 1) =~= members(entries@).take(i as int).push(
                        (name@, t@),
                    ));
                    i = i + 1;
                }
                assert(members(entries@).take(i as int) =~= members(entries@));
                TomlValue::Table(out)
            },
        }
    }
}

impl Clone for TomlValue {
    fn clone(&self) -> (r: Self)
        ensures
            r@ == self@,
    {
        self.copy()
    }
}

/// What a value becomes in JSON. Dates and times become their text, and a number
/// that JSON cannot express becomes zero.
pub open spec fn as_json(t: TomlView) -> JsonView
    decreases t,
{
    match t {
        TomlView::Text(s) => JsonView::Text(s),
        TomlView::Integer(i) => JsonView::Number(NumberView::Integer(i)),
        TomlView::Float(Some(n)) => JsonView::Number(json::number_view(n)),
        TomlView::Float(None) => JsonView::Number(NumberView::Integer(0)),
        TomlView::Boolean(b) => JsonView::Bool(b),
        TomlView::Datetime(d) => JsonView::Text(d.text()),
        TomlView::Array(elements) => JsonView::Array(
            Seq::new(
                elements.len(),
                |i: int|
                    if 0 <= i < elements.len() {
                        as_json(elements[i])
                    } else {
                        arbitrary()
                    },
            ),
        ),
        TomlView::Table(m) => JsonView::Object(
            Map::new(
                |k: Seq<char>| m.contains_key(k),
                |k: Seq<char>|
                    if m.contains_key(k) {
                        as_json(m[k])
                    } else {
                        arbitrary()
                    },
            ),
        ),
    }
}

/// What the members of a table become in JSON.
proof fn lemma_table_as_json(entries: Seq<(Seq<char>, TomlView)>)
    ensures
        JsonView::Object(table::table_of(table::mapped(entries, |t: TomlView| as_json(t))))
            == as_json(TomlView::Table(table::table_of(entries))),
{
    let f = |t: TomlView| as_json(t);
    let m = table::table_of(entries);
    table::lemma_table_mapped(entries, f);
    assert(m.map_values(f) =~= (as_json(TomlView::Table(m))->Object_0));
}

/// The value in JSON.
pub fn toml_to_json(val: &TomlValue) -> (r: Json)
    ensures
        r@ == as_json(val@),
    decreases val,
{
    match val {
        TomlValue::Text(s) => Json::Text(s.clone()),
        TomlValue::Integer(i) => Json::integer(*i),
        TomlValue::Float(Some(n)) => Json::number(n),
        TomlValue::Float(None) => Json::integer(0),
        TomlValue::Boolean(b) => Json::Bool(*b),
        TomlValue::Datetime(d) => Json::Text(d.to_text()),
        TomlValue::Array(elements) => {
            let ghost target = as_json(val@)->Array_0;
            let mut out: Vec<Json> = Vec::new();
            let mut i: usize = 0;
            while i < elements.len()
                invariant
                    *val == TomlValue::Array(*elements),
                    target == (as_json(val@)->Array_0),
                    i <= elements@.len(),
                    json::items(out@) == target.take(i as int),
                decreases elements@.len() - i,
            {
                assert(decreases_to!(*val => val->Array_0));
                assert(decreases_to!(elements@ => elements@[i as int]));
                let j = toml_to_json(&elements[i]);
                let ghost before = out@;
                out.push(j);
                assert(json::items(out@) =~= json::items(before).push(j@));
                assert(target[i as int] == as_json(items(elements@)[i as int]));
                assert(target.take(i + 1) =~= target.take(i as int).push(j@));
                i = i + 1;
            }
            assert(target.take(i as int) =~= target);
            Json::Array(out)
        },
        TomlValue::Table(entries) => {
            let ghost f = |t: TomlView| as_json(t);
            let ghost target = table::mapped(members(entries@), f);
            let mut out: Vec<(String, Json)> = Vec::new();
            let mut i: usize = 0;
            while i < entries.len()
                invariant
                    *val == TomlValue::Table(*entries),
                    f == (|t: TomlView| as_json(t)),
                    target == table::mapped(members(entries@), f),
                    i <= entries@.len(),
                    json::members(out@) == target.take(i as int),
                decreases entries@.len() - i,
            {
                assert(decreases_to!(*val => val->Table_0));
                assert(decreases_to!(entries@ => entries@[i as int]));
                let j = toml_to_json(&entries[i].1);
                let ghost before = out@;
                let name = entries[i].0.clone();
                out.push((name, j));
                assert(json::members(out@) =~= json::members(before).push((name@, j@)));
                assert(target.take(i + 1) =~= target.take(i as int).push((name@, j@)));
                i = i + 1;
            }
            assert(target.take(i as int) =~= target);
            proof {
                lemma_table_as_json(members(entries@));
            }
            Json::Object(out)
        },
    }
}

} // verus!
