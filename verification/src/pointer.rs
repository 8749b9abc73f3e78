//! JSON pointers, and the values that the configuration adds to a request by
//! them.

use vstd::prelude::*;

use crate::json;
use crate::json::{Json, JsonView};
use crate::text;

verus! {

/// A value to add to a request body, and where.
#[derive(Debug)]
pub struct ExtraBodyJson {
    pub pointer: String,
    pub value: Json,
}

/// What an `ExtraBodyJson` says.
pub struct ExtraBodyJsonView {
    pub pointer: Seq<char>,
    pub value: JsonView,
}

impl View for ExtraBodyJson {
    type V = ExtraBodyJsonView;

    open spec fn view(&self) -> ExtraBodyJsonView {
        ExtraBodyJsonView { pointer: self.pointer@, value: self.value@ }
    }
}

impl Clone for ExtraBodyJson {
    fn clone(&self) -> (r: Self)
        ensures
            r@ == self@,
    {
        ExtraBodyJson { pointer: self.pointer.clone(), value: self.value.clone() }
    }
}

/// What a list of `ExtraBodyJson` says.
pub open spec fn extras_view(extras: Seq<ExtraBodyJson>) -> Seq<ExtraBodyJsonView> {
    extras.map_values(|e: ExtraBodyJson| e@)
}

/// `s` is a JSON pointer: it is empty or begins with `/`, and every `~` in it is
/// followed by `0` or `1`.
pub open spec fn valid_pointer(s: Seq<char>) -> bool {
    s.len() == 0 || (s[0] == '/' && forall|i: int|
        0 <= i < s.len() && (#[trigger] s[i]) == '~' ==> i + 1 < s.len() && (s[i + 1] == '0' || s[i
            + 1] == '1'))
}

/// The name that a part of a JSON pointer stands for: `~0` in it is a tilde, and
/// `~1` is a slash.
pub open spec fn unescaped(s: Seq<char>) -> Seq<char>
    decreases s.len(),
{
    if s.len() == 0 {
        Seq::empty()
    } else if s[0] == '~' && s.len() > 1 {
        seq![if s[1] == '0' { '~' } else { '/' }] + unescaped(s.skip(2))
    } else {
        seq![s[0]] + unescaped(s.skip(1))
    }
}

/// The names along a JSON pointer.
pub open spec fn path(pointer: Seq<char>) -> Seq<Seq<char>> {
    text::split(pointer, '/').skip(1).map_values(|s: Seq<char>| unescaped(s))
}

/// The number that `name` is the decimal numeral of.
pub open spec fn numeral(name: Seq<char>) -> Option<nat> {
    if exists|i: nat| #[trigger] text::decimal(i) == name {
        Some(choose|i: nat| #[trigger] text::decimal(i) == name)
    } else {
        None
    }
}

/// What the document has under `name`: a member of an object, or the item of an array
/// at the position that the name is the numeral of.
pub open spec fn part(dest: JsonView, name: Seq<char>) -> Option<JsonView> {
    match dest {
        JsonView::Array(items) => match numeral(name) {
            Some(i) => if i < items.len() {
                Some(items[i as int])
            } else {
                None
            },
            None => None,
        },
        _ => dest.member(name),
    }
}

/// What the document has at the end of the path.
pub open spec fn value_at(dest: JsonView, path: Seq<Seq<char>>) -> Option<JsonView>
    decreases path.len(),
{
    if path.len() == 0 {
        Some(dest)
    } else {
        match part(dest, path[0]) {
            Some(d) => value_at(d, path.drop_first()),
            None => None,
        }
    }
}

/// The position in an array of `len` items that a value can be assigned at under
/// `name`: one that the array has, or the next one, which `-` stands for too.
pub open spec fn slot(name: Seq<char>, len: nat) -> Option<nat> {
    if name == "-"@ {
        Some(len)
    } else {
        match numeral(name) {
            Some(i) => if i <= len {
                Some(i)
            } else {
                None
            },
            None => None,
        }
    }
}

/// A name that begins an array where there is nothing yet.
pub open spec fn begins_array(name: Seq<char>) -> bool {
    name == "0"@ || name == "-"@
}

/// The document made for a path that leads to `value`: an array of one item under
/// each name that begins an array, and an object of one member under any other.
pub open spec fn expanded(path: Seq<Seq<char>>, value: JsonView) -> JsonView
    decreases path.len(),
{
    if path.len() == 0 {
        value
    } else {
        let below = expanded(path.drop_first(), value);
        if begins_array(path[0]) {
            JsonView::Array(seq![below])
        } else {
            json::empty_object().with_member(path[0], below)
        }
    }
}

/// The document `dest` with `value` assigned at the end of the path, or `None` where
/// an array on the path has no such position. What is missing along the path is made,
/// and what is neither an object nor an array gives way.
pub open spec fn assigned(dest: JsonView, path: Seq<Seq<char>>, value: JsonView) -> Option<JsonView>
    decreases path.len(),
{
    if path.len() == 0 {
        Some(value)
    } else {
        let name = path[0];
        let rest = path.drop_first();
        match dest {
            JsonView::Array(items) => match slot(name, items.len()) {
                Some(i) => if i < items.len() {
                    match assigned(items[i as int], rest, value) {
                        Some(v) => Some(JsonView::Array(items.update(i as int, v))),
                        None => None,
                    }
                } else {
                    Some(JsonView::Array(items.push(expanded(rest, value))))
                },
                None => None,
            },
            JsonView::Object(m) => if m.contains_key(name) {
                match assigned(m[name], rest, value) {
                    Some(v) => Some(JsonView::Object(m.insert(name, v))),
                    None => None,
                }
            } else {
                Some(JsonView::Object(m.insert(name, expanded(rest, value))))
            },
            _ => Some(expanded(path, value)),
        }
    }
}

/// Calls `jsonptr::Pointer::parse`, which accepts exactly the texts that are JSON
/// pointers.
#[verifier::external_body]
fn pointer_parses(pointer: &str) -> (r: bool)
    ensures
        r == valid_pointer(pointer@),
{
    jsonptr::Pointer::parse(pointer).is_ok()
}

/// Calls `jsonptr::Pointer::assign` on a `serde_json::Value`, with the pointer
/// that `pointer` spells. The value is assigned at the end of the path of the pointer,
/// or refused where an array on the path has no such position.
#[verifier::external_body]
fn assign_value(dest: &mut serde_json::Value, pointer: &str, value: serde_json::Value) -> (ok: bool)
    requires
        valid_pointer(pointer@),
    ensures
        match assigned(json::value_json(*old(dest)), path(pointer@), json::value_json(value)) {
            Some(j) => ok && json::value_json(*final(dest)) == j,
            None => !ok,
        },
{
    jsonptr::Pointer::parse(pointer).unwrap().assign(dest, value).is_ok()
}

/// The document with one value added: assigned at the end of its path, or unchanged
/// where the pointer is none.
pub open spec fn extended_by(body: JsonView, extra: ExtraBodyJsonView) -> Option<JsonView> {
    if valid_pointer(extra.pointer) {
        assigned(body, path(extra.pointer), extra.value)
    } else {
        Some(body)
    }
}

/// The document with all values added, one after the other, or `None` where one
/// of them is refused.
pub open spec fn extended(body: JsonView, extras: Seq<ExtraBodyJsonView>) -> Option<JsonView>
    decreases extras.len(),
{
    if extras.len() == 0 {
        Some(body)
    } else {
        match extended(body, extras.drop_last()) {
            Some(b) => extended_by(b, extras.last()),
            None => None,
        }
    }
}

/// Adds the values of the configuration to a request body, in order. A value
/// whose pointer is none is passed over. `None` where a value cannot be assigned.
pub fn apply_extra_body(body: &Json, extras: &Vec<ExtraBodyJson>) -> (r: Option<Json>)
    ensures
        r is Some <==> extended(body@, extras_view(extras@)) is Some,
        r matches Some(j) ==> Some(j@) == extended(body@, extras_view(extras@)),
{
    let ghost all = extras_view(extras@);
    let mut dest = body.to_value();
    let mut i: usize = 0;
    assert(all.take(0) =~= Seq::<ExtraBodyJsonView>::empty());
    while i < extras.len()
        invariant
            i <= extras@.len(),
            all == extras_view(extras@),
            extended(body@, all.take(i as int)) == Some(json::value_json(dest)),
        decreases extras@.len() - i,
    {
        let ghost prefix = all.take(i + 1);
        assert(prefix.drop_last() =~= all.take(i as int));
        assert(prefix.last() == extras@[i as int]@);
        if pointer_parses(extras[i].pointer.as_str()) {
            let value = extras[i].value.to_value();
            if !assign_value(&mut dest, extras[i].pointer.as_str(), value) {
                assert(extended(body@, prefix) is None);
                proof {
                    lemma_refused(body@, all, i + 1);
                }
                return None;
            }
        }
        i = i + 1;
    }
    assert(all.take(i as int) =~= all);
    Some(Json::from_value(dest))
}

/// The positions of the values whose pointer is none, in order.
pub open spec fn skipped_positions(extras: Seq<ExtraBodyJsonView>) -> Seq<int>
    decreases extras.len(),
{
    if extras.len() == 0 {
        Seq::empty()
    } else {
        let before = skipped_positions(extras.drop_last());
        if valid_pointer(extras.last().pointer) {
            before
        } else {
            before.push(extras.len() - 1)
        }
    }
}

/// The positions of the values that `apply_extra_body` passes over, in order.
pub fn skipped(extras: &Vec<ExtraBodyJson>) -> (r: Vec<usize>)
    ensures
        r@.map_values(|i: usize| i as int) == skipped_positions(extras_view(extras@)),
{
    let ghost all = extras_view(extras@);
    let mut r: Vec<usize> = Vec::new();
    let mut i: usize = 0;
    assert(r@.map_values(|i: usize| i as int) =~= skipped_positions(all.take(0)));
    while i < extras.len()
        invariant
            i <= extras@.len(),
            all == extras_view(extras@),
            r@.map_values(|i: usize| i as int) == skipped_positions(all.take(i as int)),
        decreases extras@.len() - i,
    {
        let ghost before = r@.map_values(|i: usize| i as int);
        assert(all.take(i + 1).drop_last() =~= all.take(i as int));
        assert(all.take(i + 1).last() == extras@[i as int]@);
        if !pointer_parses(extras[i].pointer.as_str()) {
            r.push(i);
            assert(r@.map_values(|i: usize| i as int) =~= before.push(i as int));
        }
        i = i + 1;
    }
    assert(all.take(i as int) =~= all);
    r
}

/// Where a value is refused, so is the whole list.
pub proof fn lemma_refused(body: JsonView, extras: Seq<ExtraBodyJsonView>, n: int)
    requires
        0 <= n <= extras.len(),
        extended(body, extras.take(n)) is None,
    ensures
        extended(body, extras) is None,
    decreases extras.len() - n,
{
    if n == extras.len() {
        assert(extras.take(n) =~= extras);
    } else {
        assert(extras.take(n + 1).drop_last() =~= extras.take(n));
        lemma_refused(body, extras, n + 1);
    }
}

} // verus!
