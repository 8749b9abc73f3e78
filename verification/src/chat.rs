//! Requests for chat completions: how they are routed, and what is put into
//! them on the way.

use vstd::pervasive::unreached;
use vstd::prelude::*;

use crate::config::{Config, ConfigView, DataErrorView, PromptMode, RequestData, RequestDataView};
use crate::json;
use crate::json::{Json, JsonView};
use crate::pointer;
use crate::pointer::apply_extra_body;
use crate::table;
use crate::table::Table;
use crate::template;
use crate::template::mentions;
use crate::text;
use crate::text::{joined, same_text};

verus! {

/// The status of the answer to a request that cannot be routed.
pub const NOT_FOUND: u16 = 404;

/// The status of the answer to a request that could not be sent on.
pub const BAD_GATEWAY: u16 = 502;

/// The text of a document, and the empty text where it is none.
pub open spec fn text_or_empty(j: Option<JsonView>) -> Seq<char> {
    match j {
        Some(JsonView::Text(s)) => s,
        _ => Seq::empty(),
    }
}

/// The name that a request asks for: its member `model`, and the empty name where
/// that is no text.
pub open spec fn requested_name(body: JsonView) -> Seq<char> {
    text_or_empty(body.member("model"@))
}

/// The messages of a request.
pub open spec fn messages(body: JsonView) -> Seq<JsonView> {
    match body.member("messages"@) {
        Some(JsonView::Array(ms)) => ms,
        _ => Seq::empty(),
    }
}

/// What the first message of a request says.
pub open spec fn first_content(body: JsonView) -> Seq<char> {
    text_or_empty(messages(body)[0].member("content"@))
}

/// A message of the system.
pub open spec fn system_message(content: Seq<char>) -> JsonView {
    json::empty_object().with_member("role"@, JsonView::Text("system"@)).with_member(
        "content"@,
        JsonView::Text(content),
    )
}

/// A message is of the system.
pub open spec fn is_system(message: JsonView) -> bool {
    message.member("role"@) == Some(JsonView::Text("system"@))
}

/// What a template is given as the requested system prompt: in the mode that
/// combines, what the first message says.
pub open spec fn template_prompt(mode: PromptMode, body: JsonView) -> Seq<char> {
    if mode == PromptMode::Combine {
        first_content(body)
    } else {
        Seq::empty()
    }
}

/// The text of the new system prompt: what the template rendered to, and nothing
/// where it did not. In the mode that combines, what the first message says
/// follows on a line of its own unless the template mentions it.
pub open spec fn prompt_text(
    mode: PromptMode,
    body: JsonView,
    rendered: Option<Seq<char>>,
    mentioned: bool,
) -> Seq<char> {
    let base = match rendered {
        Some(t) => t,
        None => Seq::empty(),
    };
    if mode == PromptMode::Combine && !mentioned {
        base + ("\n"@ + first_content(body))
    } else {
        base
    }
}

/// The messages that the new system prompt is put before: all of them, but for a
/// first message of the system, which stays only in the mode that falls back.
pub open spec fn kept_messages(mode: PromptMode, body: JsonView) -> Seq<JsonView> {
    let ms = messages(body);
    if is_system(ms[0]) && mode != PromptMode::Fallback {
        ms.skip(1)
    } else {
        ms
    }
}

/// The request with the new system prompt as its first message.
pub open spec fn with_prompt(
    body: JsonView,
    mode: PromptMode,
    rendered: Option<Seq<char>>,
    mentioned: bool,
) -> JsonView {
    body.with_member(
        "messages"@,
        JsonView::Array(
            seq![system_message(prompt_text(mode, body, rendered, mentioned))] + kept_messages(
                mode,
                body,
            ),
        ),
    )
}

/// The text of a document, and the empty text where it is none.
fn text_of(j: Option<&Json>) -> (r: String)
    ensures
        r@ == text_or_empty(
            match j {
                Some(d) => Some(d@),
                None => None,
            },
        ),
{
    match j {
        Some(d) => {
            match d.as_text() {
                Some(s) => s.to_owned(),
                None => String::new(),
            }
        },
        None => String::new(),
    }
}

/// The name that a request asks for.
pub fn requested_model(body: &Json) -> (r: String)
    ensures
        r@ == requested_name(body@),
{
    text_of(body.get("model"))
}

/// The first message of a request.
fn first_message(body: &Json) -> (r: Option<&Json>)
    ensures
        r is Some <==> messages(body@).len() > 0,
        r matches Some(m) ==> m@ == messages(body@)[0],
{
    match body.get("messages") {
        Some(Json::Array(ms)) => {
            if ms.len() > 0 {
                Some(&ms[0])
            } else {
                None
            }
        },
        _ => None,
    }
}

/// Whether a message is of the system.
fn is_system_message(message: &Json) -> (r: bool)
    ensures
        r == is_system(message@),
{
    match message.get("role") {
        Some(role) => {
            match role.as_text() {
                Some(s) => same_text(s, "system"),
                None => false,
            }
        },
        None => false,
    }
}

/// A message of the system.
fn new_system_message(content: String) -> (r: Json)
    ensures
        r@ == system_message(content@),
{
    Json::object().set_member("role", Json::Text("system".to_owned())).set_member(
        "content",
        Json::Text(content),
    )
}

/// Puts a new system prompt before the messages of a request. `rendered` is what
/// its template rendered to, where it did, and `mentioned` whether the template
/// looks up the requested system prompt.
pub fn insert_prompt(body: Json, mode: PromptMode, rendered: Option<String>, mentioned: bool) -> (r:
    Json)
    requires
        messages(body@).len() > 0,
    ensures
        r@ == with_prompt(body@, mode, text::opt_text(rendered), mentioned),
{
    let (requested, system) = match first_message(&body) {
        Some(m) => (text_of(m.get("content")), is_system_message(m)),
        None => (String::new(), false),
    };
    let base = match rendered {
        Some(t) => t,
        None => String::new(),
    };
    let prompt = if mode == PromptMode::Combine && !mentioned {
        joined(base.as_str(), joined("\n", requested.as_str()).as_str())
    } else {
        base
    };
    let message = new_system_message(prompt);
    let drop_first = system && mode != PromptMode::Fallback;
    let ghost before = body@;
    match body {
        Json::Object(entries) => {
            let mut entries = entries;
            match json::member_position(&entries, "messages") {
                Some(i) => {
                    let ghost listed = json::members(entries@);
                    let (name, value) = entries.remove(i);
                    match value {
                        Json::Array(ms) => {
                            let mut ms = ms;
                            let ghost old_items = json::items(ms@);
                            assert(old_items == messages(before));
                            if drop_first {
                                ms.remove(0);
                                assert(json::items(ms@) =~= old_items.skip(1));
                            }
                            let ghost kept = json::items(ms@);
                            assert(kept == kept_messages(mode, before));
                            ms.insert(0, message);
                            assert(json::items(ms@) =~= seq![message@] + kept);
                            let list = Json::Array(ms);
                            entries.insert(i, (name, list));
                            proof {
                                assert forall|j: int| i < j < listed.len() implies (
                                #[trigger] listed[j]).0 != listed[i as int].0 by {}
                                table::lemma_table_update(listed, i as int, list@);
                                assert(json::members(entries@) =~= listed.update(
                                    i as int,
                                    (listed[i as int].0, list@),
                                ));
                            }
                            Json::Object(entries)
                        },
                        _ => unreached(),
                    }
                },
                None => unreached(),
            }
        },
        _ => unreached(),
    }
}

/// A request in preparation.
#[derive(Debug)]
pub struct Exchange {
    pub body: Json,
    pub data: RequestData,
}

/// What an `Exchange` says.
pub struct ExchangeView {
    pub body: JsonView,
    pub data: RequestDataView,
}

impl View for Exchange {
    type V = ExchangeView;

    open spec fn view(&self) -> ExchangeView {
        ExchangeView { body: self.body@, data: self.data@ }
    }
}

/// What comes next for a request that has arrived.
#[derive(Debug)]
pub enum ChatStep {
    /// It is answered with a status and a document.
    Reject { status: u16, body: Json },
    /// The template is to be looked for and rendered, with `system_prompt` as the
    /// variable of that name, and `finish_prompt` comes next.
    Render { template: String, system_prompt: String, exchange: Exchange },
    /// It is ready for `outgoing`.
    Ready { exchange: Exchange },
}

/// What a `ChatStep` says.
pub enum ChatStepView {
    Reject { status: u16, body: JsonView },
    Render { template: Seq<char>, system_prompt: Seq<char>, exchange: ExchangeView },
    Ready { exchange: ExchangeView },
}

impl View for ChatStep {
    type V = ChatStepView;

    open spec fn view(&self) -> ChatStepView {
        match self {
            ChatStep::Reject { status, body } => ChatStepView::Reject {
                status: *status,
                body: body@,
            },
            ChatStep::Render { template, system_prompt, exchange } => ChatStepView::Render {
                template: template@,
                system_prompt: system_prompt@,
                exchange: exchange@,
            },
            ChatStep::Ready { exchange } => ChatStepView::Ready { exchange: exchange@ },
        }
    }
}

/// The document that says why a request cannot be routed.
pub open spec fn error_document(e: DataErrorView) -> JsonView {
    json::empty_object().with_member(
        "error"@,
        JsonView::Text("Error extracting model data: "@ + e.message()),
    )
}

/// What comes next for a request that can be routed: it asks for the model by the
/// name that the provider has for it, and a system prompt is called for where the
/// variant has one and the request has messages.
pub open spec fn routed_step(body: JsonView, data: RequestDataView) -> ChatStepView {
    let named = body.with_member("model"@, JsonView::Text(data.model_name));
    let exchange = ExchangeView { body: named, data };
    if data.system_prompt is Some && messages(named).len() > 0 {
        ChatStepView::Render {
            template: data.system_prompt->0,
            system_prompt: template_prompt(data.system_prompt_mode, named),
            exchange,
        }
    } else {
        ChatStepView::Ready { exchange }
    }
}

/// What comes next for a request.
pub open spec fn first_step(
    config: ConfigView,
    body: JsonView,
    process_env: Map<Seq<char>, Seq<char>>,
) -> ChatStepView {
    match config.data(requested_name(body), process_env) {
        Ok(data) => routed_step(body, data),
        Err(e) => ChatStepView::Reject { status: NOT_FOUND, body: error_document(e) },
    }
}

/// What comes next for a request that can be routed. Its body must be able to
/// take members, since the name of the model is set in it.
pub fn begin_routed(body: Json, data: RequestData) -> (r: ChatStep)
    requires
        body@.takes_members(),
    ensures
        r@ == routed_step(body@, data@),
{
    let named = body.set_member("model", Json::Text(data.model_name.clone()));
    let job = match &data.system_prompt {
        Some(name) => {
            match first_message(&named) {
                Some(m) => {
                    let prompt = if data.system_prompt_mode == PromptMode::Combine {
                        text_of(m.get("content"))
                    } else {
                        String::new()
                    };
                    Some((name.clone(), prompt))
                },
                None => None,
            }
        },
        None => None,
    };
    match job {
        Some((template, system_prompt)) => ChatStep::Render {
            template,
            system_prompt,
            exchange: Exchange { body: named, data },
        },
        None => ChatStep::Ready { exchange: Exchange { body: named, data } },
    }
}

/// Routes a request. The body of one that can be routed must be able to take
/// members, since the name of the model is set in it.
pub fn begin_chat(config: &Config, body: Json, process_env: &Table<String>) -> (r: ChatStep)
    requires
        config@.refusal(requested_name(body@)) is None ==> body@.takes_members(),
    ensures
        r@ == first_step(config@, body@, process_env@),
{
    let name = requested_model(&body);
    match config.get_data(name.as_str(), process_env) {
        Ok(data) => begin_routed(body, data),
        Err(e) => ChatStep::Reject {
            status: NOT_FOUND,
            body: Json::object().set_member(
                "error",
                Json::Text(joined("Error extracting model data: ", e.message().as_str())),
            ),
        },
    }
}

/// A template that was found: its source, and what it rendered to, where it did.
#[derive(Debug)]
pub struct Rendered {
    pub source: String,
    pub text: Option<String>,
}

/// The request once its template has been looked for: with the new system prompt
/// where the template was found, and as it was where it was not.
pub open spec fn prompted(
    exchange: ExchangeView,
    source: Seq<char>,
    rendered: Option<Seq<char>>,
) -> ExchangeView {
    ExchangeView {
        body: with_prompt(
            exchange.body,
            exchange.data.system_prompt_mode,
            rendered,
            template::undeclared_variables(source).contains("system_prompt"@),
        ),
        ..exchange
    }
}

/// What a `Rendered` says: the source, and what it rendered to.
pub open spec fn rendered_view(found: Option<Rendered>) -> Option<(Seq<char>, Option<Seq<char>>)> {
    match found {
        Some(f) => Some((f.source@, text::opt_text(f.text))),
        None => None,
    }
}

/// The request once its template has been looked for. `found` is the source of the
/// template and what it rendered to, where there is one.
pub open spec fn resumed(
    exchange: ExchangeView,
    found: Option<(Seq<char>, Option<Seq<char>>)>,
) -> ExchangeView {
    match found {
        Some((source, rendered)) => prompted(exchange, source, rendered),
        None => exchange,
    }
}

/// Takes up a request once its template has been looked for. `found` is what was
/// made of the template, where there is one.
pub fn finish_prompt(exchange: Exchange, found: Option<Rendered>) -> (r: Exchange)
    requires
        messages(exchange.body@).len() > 0,
    ensures
        r@ == resumed(exchange@, rendered_view(found)),
        r@ == (match found {
            Some(f) => prompted(exchange@, f.source@, text::opt_text(f.text)),
            None => exchange@,
        }),
{
    match found {
        Some(f) => {
            let mentioned = mentions(f.source.as_str(), "system_prompt");
            let mode = exchange.data.system_prompt_mode;
            Exchange {
                body: insert_prompt(exchange.body, mode, f.text, mentioned),
                data: exchange.data,
            }
        },
        None => exchange,
    }
}

/// A request to a provider.
#[derive(Debug)]
pub struct Outgoing {
    pub url: String,
    pub api_key: String,
    pub headers: Table<String>,
    pub body: Json,
}

/// What an `Outgoing` says.
pub struct OutgoingView {
    pub url: Seq<char>,
    pub api_key: Seq<char>,
    pub headers: Map<Seq<char>, Seq<char>>,
    pub body: JsonView,
}

impl View for Outgoing {
    type V = OutgoingView;

    open spec fn view(&self) -> OutgoingView {
        OutgoingView {
            url: self.url@,
            api_key: self.api_key@,
            headers: self.headers@,
            body: self.body@,
        }
    }
}

/// The request that is sent to the provider with a body.
pub open spec fn sent_with(data: RequestDataView, body: JsonView) -> OutgoingView {
    OutgoingView {
        url: data.api_base + "/chat/completions"@,
        api_key: data.api_key,
        headers: data.extra_headers,
        body,
    }
}

/// The request that is sent to the provider with a body.
pub fn send_with(data: RequestData, body: Json) -> (r: Outgoing)
    ensures
        r@ == sent_with(data@, body@),
{
    Outgoing {
        url: joined(data.api_base.as_str(), "/chat/completions"),
        api_key: data.api_key,
        headers: data.extra_headers,
        body,
    }
}

/// The request that is sent to the provider, with the values that the
/// configuration adds to its body. `None` where one of them cannot be assigned.
pub open spec fn sent(exchange: ExchangeView) -> Option<OutgoingView> {
    match pointer::extended(exchange.body, exchange.data.extra_body) {
        Some(body) => Some(sent_with(exchange.data, body)),
        None => None,
    }
}

/// What an `Outgoing` says, where there is one.
pub open spec fn outgoing_view(r: Option<Outgoing>) -> Option<OutgoingView> {
    match r {
        Some(o) => Some(o@),
        None => None,
    }
}

/// The request that is sent to the provider, with the values that the
/// configuration adds to its body. `None` where one of them cannot be assigned.
pub fn outgoing(exchange: Exchange) -> (r: Option<Outgoing>)
    ensures
        outgoing_view(r) == sent(exchange@),
        r is Some <==> pointer::extended(exchange.body@, exchange.data@.extra_body) is Some,
        r matches Some(o) ==> o@ == sent_with(
            exchange.data@,
            pointer::extended(exchange.body@, exchange.data@.extra_body)->0,
        ),
{
    match apply_extra_body(&exchange.body, &exchange.data.extra_body) {
        Some(body) => Some(send_with(exchange.data, body)),
        None => None,
    }
}

/// The answer to a request that could not be sent on, with what went wrong: its status
/// and its text.
pub open spec fn failure_answer(error: Seq<char>) -> (u16, Seq<char>) {
    (BAD_GATEWAY, "OpenAI request failed: "@ + error)
}

/// The answer to a request that could not be sent on, with what went wrong.
pub fn send_failure(error: &str) -> (r: (u16, String))
    ensures
        (r.0, r.1@) == failure_answer(error@),
        r.0 == BAD_GATEWAY,
        r.1@ == "OpenAI request failed: "@ + error@,
{
    (BAD_GATEWAY, joined("OpenAI request failed: ", error))
}

/// One name in the list of models.
pub open spec fn model_entry(name: Seq<char>) -> JsonView {
    json::empty_object().with_member("id"@, JsonView::Text(name)).with_member(
        "object"@,
        JsonView::Text("model"@),
    ).with_member("created"@, JsonView::Number(json::NumberView::Integer(0))).with_member(
        "owned_by"@,
        JsonView::Text("user"@),
    )
}

/// The list of models.
pub open spec fn model_list(names: Seq<Seq<char>>) -> JsonView {
    json::empty_object().with_member("object"@, JsonView::Text("list"@)).with_member(
        "data"@,
        JsonView::Array(names.map_values(|n: Seq<char>| model_entry(n))),
    )
}

/// The answer to a request for the list of models.
pub fn list_models(names: &Vec<String>) -> (r: Json)
    ensures
        r@ == model_list(text::texts(names@)),
{
    let ghost target = text::texts(names@).map_values(|n: Seq<char>| model_entry(n));
    let mut data: Vec<Json> = Vec::new();
    let mut i: usize = 0;
    assert(json::items(data@) =~= target.take(0));
    while i < names.len()
        invariant
            i <= names@.len(),
            target == text::texts(names@).map_values(|n: Seq<char>| model_entry(n)),
            json::items(data@) == target.take(i as int),
        decreases names@.len() - i,
    {
        let entry = Json::object().set_member("id", Json::Text(names[i].clone())).set_member(
            "object",
            Json::Text("model".to_owned()),
        ).set_member("created", Json::integer(0)).set_member(
            "owned_by",
            Json::Text("user".to_owned()),
        );
        let ghost before = data@;
        assert(target[i as int] == model_entry(names@[i as int]@));
        data.push(entry);
        assert(json::items(data@) =~= json::items(before).push(entry@));
        assert(target.take(i + 1) =~= target.take(i as int).push(entry@));
        i = i + 1;
    }
    assert(target.take(i as int) =~= target);
    Json::object().set_member("object", Json::Text("list".to_owned())).set_member(
        "data",
        Json::Array(data),
    )
}

} // verus!
