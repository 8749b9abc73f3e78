//! What holds of requests: what is put into them, where they are sent, and how they are
//! answered.

use vstd::prelude::*;

use crate::chat;
use crate::chat::{ChatStepView, ExchangeView};
use crate::config::{ConfigView, PromptMode, RequestDataView};
use crate::json::{JsonView, NumberView};
use crate::laws;
use crate::pointer;
use crate::pointer::ExtraBodyJsonView;
use crate::routing_laws;
use crate::template;
use crate::text;

verus! {

/// The text that the object `j` has as its member `name`, and the empty text where it
/// is no object, has no such member or has something else there.
pub open spec fn text_member(j: JsonView, name: Seq<char>) -> Seq<char> {
    match j {
        JsonView::Object(m) => if m.contains_key(name) && m[name] is Text {
            m[name]->Text_0
        } else {
            Seq::empty()
        },
        _ => Seq::empty(),
    }
}

/// `ms` are messages of the request with the members `m`, and there is one at least.
pub open spec fn has_messages(m: Map<Seq<char>, JsonView>, ms: Seq<JsonView>) -> bool {
    m.contains_key("messages"@) && m["messages"@] == JsonView::Array(ms) && ms.len() > 0
}

/// A message says that it is of the system.
pub open spec fn of_system(message: JsonView) -> bool {
    message matches JsonView::Object(m) && m.contains_key("role"@) && m["role"@]
        == JsonView::Text("system"@)
}

/// The names that are used of a message and of a request.
proof fn lemma_names()
    ensures
        "role"@ != "content"@,
        "model"@ != "messages"@,
        "object"@ != "data"@,
        "id"@ != "object"@,
        "id"@ != "created"@,
        "id"@ != "owned_by"@,
        "object"@ != "created"@,
        "object"@ != "owned_by"@,
        "created"@ != "owned_by"@,
{
    reveal_strlit("role");
    reveal_strlit("content");
    reveal_strlit("model");
    reveal_strlit("messages");
    reveal_strlit("object");
    reveal_strlit("data");
    reveal_strlit("id");
    reveal_strlit("created");
    reveal_strlit("owned_by");
    assert("role"@.len() == 4 && "content"@.len() == 7 && "model"@.len() == 5 && "messages"@.len()
        == 8);
    assert("object"@.len() == 6 && "data"@.len() == 4 && "id"@.len() == 2 && "created"@.len() == 7
        && "owned_by"@.len() == 8);
}

/// A request asks for the model that it names by a text, and for the empty name where it
/// names none.
pub proof fn law_requested_name(body: JsonView)
    ensures
        chat::requested_name(body) == text_member(body, "model"@),
{
}

/// A new system prompt is an object that says it is of the system, gives its text and
/// has no other member, and it stands before the messages. Of these all stay, in their
/// order, but for a first one of the system, which stays in the mode that falls back
/// alone. Every other member of the request stays too.
pub proof fn law_prompt_put_first(
    m: Map<Seq<char>, JsonView>,
    ms: Seq<JsonView>,
    mode: PromptMode,
    rendered: Option<Seq<char>>,
    mentioned: bool,
)
    requires
        has_messages(m, ms),
    ensures
        ({
            let after = chat::with_prompt(JsonView::Object(m), mode, rendered, mentioned);
            let new = after->Object_0;
            let list = new["messages"@]->Array_0;
            &&& after is Object
            &&& new.dom() == m.dom()
            &&& forall|k: Seq<char>| k != "messages"@ && m.contains_key(k) ==> #[trigger] new[k]
                == m[k]
            &&& new["messages"@] is Array
            &&& of_system(list[0])
            &&& forall|k: Seq<char>|
                (#[trigger] (list[0]->Object_0).contains_key(k)) <==> k == "role"@ || k
                    == "content"@
            &&& list[0]->Object_0["content"@] is Text
            &&& of_system(ms[0]) && mode != PromptMode::Fallback ==> list.len() == ms.len() && (
            forall|i: int| 1 <= i < ms.len() ==> #[trigger] list[i] == ms[i])
            &&& !(of_system(ms[0]) && mode != PromptMode::Fallback) ==> list.len() == ms.len() + 1
                && (forall|i: int| 0 <= i < ms.len() ==> list[i + 1] == #[trigger] ms[i])
        }),
{
    lemma_names();
    let after = chat::with_prompt(JsonView::Object(m), mode, rendered, mentioned);
    assert(after->Object_0.dom() =~= m.dom());
}

/// The text of a new system prompt begins with what the template rendered to, in every
/// mode and whatever the first message is. It is exactly that outside the mode that
/// combines, and where the template mentions the requested prompt. In the mode that
/// combines, where the template does not, a line feed and what the first message says
/// follow. A template that did not render counts as the empty text.
pub proof fn law_prompt_text(
    m: Map<Seq<char>, JsonView>,
    ms: Seq<JsonView>,
    mode: PromptMode,
    rendered: Option<Seq<char>>,
    mentioned: bool,
)
    requires
        has_messages(m, ms),
    ensures
        ({
            let after = chat::with_prompt(JsonView::Object(m), mode, rendered, mentioned);
            let said = text_member((after->Object_0["messages"@]->Array_0)[0], "content"@);
            let start = match rendered {
                Some(t) => t,
                None => Seq::empty(),
            };
            &&& start.is_prefix_of(said)
            &&& mentioned ==> said == start
            &&& mode != PromptMode::Combine ==> said == start
            &&& mode == PromptMode::Combine && !mentioned ==> said == start + seq!['\n']
                + text_member(ms[0], "content"@)
        }),
{
    lemma_names();
    reveal_strlit("\n");
    assert("\n"@ =~= seq!['\n']);
    let start = match rendered {
        Some(t) => t,
        None => Seq::empty(),
    };
    let first = text_member(ms[0], "content"@);
    assert(start + (seq!['\n'] + first) =~= start + seq!['\n'] + first);
    assert(start =~= (start + seq!['\n'] + first).subrange(0, start.len() as int));
    assert(start =~= start.subrange(0, start.len() as int));
}

/// Whether a template mentions the requested prompt is whether `system_prompt` is among
/// the variables that its source leaves undeclared, and the rest of the exchange stays
/// as it is.
pub proof fn law_template_taken_up(
    exchange: ExchangeView,
    source: Seq<char>,
    rendered: Option<Seq<char>>,
    mentioned: bool,
)
    requires
        mentioned == template::undeclared_variables(source).contains("system_prompt"@),
    ensures
        chat::prompted(exchange, source, rendered).data == exchange.data,
        chat::prompted(exchange, source, rendered).body == chat::with_prompt(
            exchange.body,
            exchange.data.system_prompt_mode,
            rendered,
            mentioned,
        ),
{
}

/// A routed request names the model as the provider does, keeps its other members, and
/// is ready unless there is a system prompt and a message. A request that is `null`
/// counts as one without members.
pub proof fn law_routed_request(m: Map<Seq<char>, JsonView>, data: RequestDataView)
    ensures
        ({
            let named = JsonView::Object(m.insert("model"@, JsonView::Text(data.model_name)));
            let alone = JsonView::Object(
                Map::<Seq<char>, JsonView>::empty().insert(
                    "model"@,
                    JsonView::Text(data.model_name),
                ),
            );
            let exchange = ExchangeView { body: named, data };
            let step = chat::routed_step(JsonView::Object(m), data);
            &&& (step == ChatStepView::Ready { exchange }) <==> !(data.system_prompt is Some
                && exists|ms: Seq<JsonView>| has_messages(m, ms))
            &&& chat::routed_step(JsonView::Null, data) == (ChatStepView::Ready {
                exchange: ExchangeView { body: alone, data },
            })
        }),
{
    lemma_names();
    if m.contains_key("messages"@) && m["messages"@] is Array && m["messages"@]->Array_0.len() > 0 {
        assert(has_messages(m, m["messages"@]->Array_0));
    }
}

/// Where there is a system prompt and a message, its template is to be rendered: in the
/// mode that combines with what the first message says, and otherwise with nothing.
pub proof fn law_template_called_for(
    m: Map<Seq<char>, JsonView>,
    ms: Seq<JsonView>,
    data: RequestDataView,
    template: Seq<char>,
)
    requires
        has_messages(m, ms),
        data.system_prompt == Some(template),
    ensures
        chat::routed_step(JsonView::Object(m), data) == (ChatStepView::Render {
            template,
            system_prompt: if data.system_prompt_mode == PromptMode::Combine {
                text_member(ms[0], "content"@)
            } else {
                Seq::empty()
            },
            exchange: ExchangeView {
                body: JsonView::Object(m.insert("model"@, JsonView::Text(data.model_name))),
                data,
            },
        }),
{
    lemma_names();
}

/// A request is routed by the name that it asks for. One that cannot be is answered
/// with status 404 and an object whose only member is `error`, a text that ends with
/// the reason.
pub proof fn law_request_answered_or_routed(
    c: ConfigView,
    body: JsonView,
    process_env: Map<Seq<char>, Seq<char>>,
)
    ensures
        match c.data(text_member(body, "model"@), process_env) {
            Ok(data) => chat::first_step(c, body, process_env) == chat::routed_step(body, data),
            Err(e) => chat::first_step(c, body, process_env) == (ChatStepView::Reject {
                status: 404,
                body: JsonView::Object(
                    Map::<Seq<char>, JsonView>::empty().insert(
                        "error"@,
                        JsonView::Text("Error extracting model data: "@ + e.message()),
                    ),
                ),
            }),
        },
{
}

/// A request is sent to the base url of its provider, character for character, and
/// `/chat/completions` after it, with the key, the headers and the body that it was
/// given.
pub proof fn law_sent_where(data: RequestDataView, body: JsonView)
    ensures
        ({
            let sent = chat::sent_with(data, body);
            let n = data.api_base.len() as int;
            &&& sent.url.len() == n + "/chat/completions"@.len()
            &&& sent.url.take(n) == data.api_base
            &&& sent.url.skip(n) == "/chat/completions"@
            &&& sent.api_key == data.api_key
            &&& sent.headers == data.extra_headers
            &&& sent.body == body
        }),
{
    let sent = chat::sent_with(data, body);
    let n = data.api_base.len() as int;
    assert(sent.url.take(n) =~= data.api_base);
    assert(sent.url.skip(n) =~= "/chat/completions"@);
}

/// What is sent for a prepared request is its body with the values of its data added,
/// to the url and with the key and the headers of its data, and nothing where a value
/// cannot be added.
pub proof fn law_outgoing(exchange: ExchangeView)
    ensures
        ({
            let sent = chat::sent(exchange);
            let body = pointer::extended(exchange.body, exchange.data.extra_body);
            &&& sent is Some <==> body is Some
            &&& sent matches Some(o) ==> {
                &&& Some(o.body) == body
                &&& o.url == exchange.data.api_base + "/chat/completions"@
                &&& o.api_key == exchange.data.api_key
                &&& o.headers == exchange.data.extra_headers
            }
        }),
{
}

/// Where no template was found a request goes on as it was, and where one was found it
/// goes on with the new system prompt.
pub proof fn law_request_resumed(
    exchange: ExchangeView,
    source: Seq<char>,
    rendered: Option<Seq<char>>,
)
    ensures
        chat::resumed(exchange, None) == exchange,
        chat::resumed(exchange, Some((source, rendered))).data == exchange.data,
        chat::resumed(exchange, Some((source, rendered))).body == chat::with_prompt(
            exchange.body,
            exchange.data.system_prompt_mode,
            rendered,
            template::undeclared_variables(source).contains("system_prompt"@),
        ),
{
}

/// A routed request is sent to the base url that the configuration gives for its
/// provider, and what follows it is `/chat/completions`.
pub proof fn law_sent_to_provider(
    c: ConfigView,
    name: Seq<char>,
    process_env: Map<Seq<char>, Seq<char>>,
    model: Seq<char>,
    provider: Seq<char>,
    base: Seq<char>,
    body: JsonView,
)
    requires
        routing_laws::leads_to(c, name, model, provider),
        c.providers[provider].api_base == Some(base),
    ensures
        c.data(name, process_env) is Ok,
        chat::sent_with(c.data(name, process_env)->Ok_0, body).url == base
            + "/chat/completions"@,
{
}

/// A request that could not be sent on is answered with status 502 and a text that ends
/// with what went wrong.
pub proof fn law_failure_answered(error: Seq<char>)
    ensures
        chat::failure_answer(error).0 == 502,
        chat::failure_answer(error).1 == "OpenAI request failed: "@ + error,
{
}

/// The list of models has one entry for each name, in order, and each entry has the
/// name and the three members that all entries share.
pub proof fn law_models_listed(names: Seq<Seq<char>>, i: int)
    ensures
        ({
            let list = chat::model_list(names);
            let all = list->Object_0;
            let data = all["data"@]->Array_0;
            let entry = data[i]->Object_0;
            &&& list is Object
            &&& forall|k: Seq<char>| (#[trigger] all.contains_key(k)) <==> k == "object"@ || k
                == "data"@
            &&& all["object"@] == JsonView::Text("list"@)
            &&& all["data"@] is Array
            &&& data.len() == names.len()
            &&& 0 <= i < names.len() ==> {
                &&& data[i] is Object
                &&& forall|k: Seq<char>|
                    (#[trigger] entry.contains_key(k)) <==> k == "id"@ || k == "object"@ || k
                        == "created"@ || k == "owned_by"@
                &&& entry["id"@] == JsonView::Text(names[i])
                &&& entry["object"@] == JsonView::Text("model"@)
                &&& entry["created"@] == JsonView::Number(NumberView::Integer(0))
                &&& entry["owned_by"@] == JsonView::Text("user"@)
            }
        }),
{
    lemma_names();
}

/// To add the values of two lists one after the other is to add those of the one and
/// then those of the other.
pub proof fn law_values_added_in_order(
    body: JsonView,
    a: Seq<ExtraBodyJsonView>,
    b: Seq<ExtraBodyJsonView>,
)
    ensures
        pointer::extended(body, a + b) == (match pointer::extended(body, a) {
            Some(between) => pointer::extended(between, b),
            None => None,
        }),
    decreases b.len(),
{
    if b.len() == 0 {
        assert(a + b =~= a);
    } else {
        law_values_added_in_order(body, a, b.drop_last());
        assert((a + b).drop_last() =~= a + b.drop_last());
    }
}

/// One value is assigned at the names that its pointer spells, or passed over where
/// its pointer is none. No value leaves the document as it is.
pub proof fn law_value_added(
    body: JsonView,
    names: Seq<Seq<char>>,
    value: JsonView,
    other: Seq<char>,
)
    ensures
        pointer::extended(body, Seq::empty()) == Some(body),
        pointer::extended(
            body,
            seq![ExtraBodyJsonView { pointer: spelled(names), value }],
        ) == pointer::assigned(body, names, value),
        !pointer::valid_pointer(other) ==> pointer::extended(
            body,
            seq![ExtraBodyJsonView { pointer: other, value }],
        ) == Some(body),
{
    let one = ExtraBodyJsonView { pointer: spelled(names), value };
    let two = ExtraBodyJsonView { pointer: other, value };
    reveal_with_fuel(pointer::extended, 2);
    assert(seq![one].drop_last() =~= Seq::empty());
    assert(seq![two].drop_last() =~= Seq::empty());
    law_pointer_spelled(names);
}

/// The JSON pointer of a path: a slash before each name, with its tildes and slashes
/// escaped.
pub open spec fn spelled(names: Seq<Seq<char>>) -> Seq<char>
    decreases names.len(),
{
    if names.len() == 0 {
        Seq::empty()
    } else {
        spelled(names.drop_last()) + (seq!['/'] + laws::escaped(names.last()))
    }
}

/// What is spelled for a path is a JSON pointer, and it leads along that path.
pub proof fn law_pointer_spelled(names: Seq<Seq<char>>)
    ensures
        pointer::valid_pointer(spelled(names)),
        pointer::path(spelled(names)) == names,
    decreases names.len(),
{
    let none = Seq::<char>::empty();
    text::lemma_split_none(none, '/');
    if names.len() == 0 {
        assert(text::split(none, '/').skip(1) =~= Seq::empty());
        assert(pointer::path(spelled(names)) =~= names);
    } else {
        let init = names.drop_last();
        let p = spelled(init);
        let e = laws::escaped(names.last());
        law_pointer_spelled(init);
        laws::lemma_escaped(names.last());
        let whole = spelled(names);
        let tail = seq!['/'] + e;
        assert(whole =~= p.push('/') + e);
        text::lemma_split_concat(p, '/', e);
        text::lemma_split_none(e, '/');
        text::lemma_split_some(p, '/');
        assert(text::split(whole, '/').skip(1) =~= text::split(p, '/').skip(1).push(
            e,
        ));
        assert(pointer::path(whole) =~= pointer::path(p).push(names.last()));
        assert(names =~= init.push(names.last()));
        assert forall|i: int| 0 <= i < whole.len() && (#[trigger] whole[i]) == '~' implies i + 1
            < whole.len() && (whole[i + 1] == '0' || whole[i + 1] == '1') by {
            if i < p.len() {
                assert(p[i] == whole[i]);
                assert(p[i + 1] == whole[i + 1]);
            } else {
                assert(tail[i - p.len()] == whole[i]);
                assert(tail[i - p.len() + 1] == whole[i + 1]);
            }
        }
        assert(whole[0] == '/');
    }
}

/// A text that begins with anything but a slash is no JSON pointer, nor is one with a
/// tilde that neither `0` nor `1` follows.
pub proof fn law_not_a_pointer(s: Seq<char>, i: int)
    ensures
        s.len() > 0 && s[0] != '/' ==> !pointer::valid_pointer(s),
        0 <= i < s.len() && s[i] == '~' && (i + 1 == s.len() || (s[i + 1] != '0' && s[i + 1]
            != '1')) ==> !pointer::valid_pointer(s),
{
}

/// The positions of the values that are passed over, of two lists one after the other,
/// are those of the one and those of the other further on. Of one value it is the first
/// exactly where its pointer is none.
pub proof fn law_skipped(
    a: Seq<ExtraBodyJsonView>,
    b: Seq<ExtraBodyJsonView>,
    one: ExtraBodyJsonView,
)
    ensures
        pointer::skipped_positions(a + b) == pointer::skipped_positions(a)
            + pointer::skipped_positions(b).map_values(|i: int| a.len() + i),
        pointer::skipped_positions(seq![one]) == (if pointer::valid_pointer(
            one.pointer,
        ) {
            Seq::empty()
        } else {
            seq![0int]
        }),
    decreases b.len(),
{
    reveal_with_fuel(pointer::skipped_positions, 2);
    assert(seq![one].drop_last() =~= Seq::empty());
    assert(Seq::<int>::empty().push(0) =~= seq![0int]);
    let sum = pointer::skipped_positions(a) + pointer::skipped_positions(b).map_values(
        |i: int| a.len() + i,
    );
    if b.len() == 0 {
        assert(a + b =~= a);
        assert(sum =~= pointer::skipped_positions(a));
    } else {
        law_skipped(a, b.drop_last(), one);
        assert((a + b).drop_last() =~= a + b.drop_last());
        assert((a + b).last() == b.last());
        assert(pointer::skipped_positions(a + b) =~= sum);
    }
}

} // verus!
