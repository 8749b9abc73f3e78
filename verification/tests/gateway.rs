use ollmo::chat::{
    begin_chat, begin_routed, finish_prompt, insert_prompt, list_models, outgoing, requested_model,
    send_failure, send_with, ChatStep, Exchange, Rendered, BAD_GATEWAY, NOT_FOUND,
};
use ollmo::config::{Config, ExtraBody, Model, PromptMode, Provider, ProviderKind, Variants};
use ollmo::json::Json;
use ollmo::startup::{log_level, mask_key, LogLevel};
use ollmo::table::Table;
use ollmo::template::mentions;
use ollmo::toml_value::TomlValue;
use ollmo::watcher::{react, Change, ChangeKind, FilePath, Reaction};
use serde_json::Value;

fn s(x: &str) -> String {
    x.to_string()
}

fn parsed(text: &str) -> Value {
    serde_json::from_str(text).unwrap()
}

fn doc(text: &str) -> Json {
    Json::from_value(parsed(text))
}

fn config(mode: PromptMode) -> Config {
    let mut c = Config::default();
    c.providers.insert(
        s("p"),
        Provider {
            kind: ProviderKind::OpenaiCompatible,
            api_base: Some(s("https://p/v1")),
            api_key: Some(s("k")),
        },
    );
    let mut headers = Table::new();
    headers.insert(s("x-h"), s("v"));
    c.models.insert(
        s("m"),
        Model {
            routing: vec![s("p")],
            providers: Table::new(),
            temperature: None,
            extra_headers: headers,
            extra_body: vec![ExtraBody { pointer: s("/top_k"), value: TomlValue::Integer(5) }],
        },
    );
    c.variants.insert(
        s("v"),
        Variants {
            model: s("m"),
            system_prompt: Some(s("sys.txt")),
            system_prompt_mode: mode,
            extra_headers: Table::new(),
            extra_body: vec![],
            temperature: None,
        },
    );
    c
}

fn begin(mode: PromptMode, body: &str) -> ChatStep {
    begin_chat(&config(mode), doc(body), &Table::new())
}

fn render(mode: PromptMode, body: &str) -> (String, String, Exchange) {
    match begin(mode, body) {
        ChatStep::Render { template, system_prompt, exchange } => (template, system_prompt, exchange),
        other => panic!("{:?}", other),
    }
}

#[test]
fn name_that_a_request_asks_for() {
    assert_eq!(requested_model(&doc("{\"model\": \"x\"}")), "x");
    assert_eq!(requested_model(&doc("{\"model\": 1}")), "");
    assert_eq!(requested_model(&doc("{}")), "");
    assert_eq!(requested_model(&doc("[]")), "");
}

#[test]
fn unknown_model_is_answered_not_found() {
    match begin(PromptMode::Replace, "{\"model\": \"x\"}") {
        ChatStep::Reject { status, body } => {
            assert_eq!(status, 404);
            assert_eq!(status, NOT_FOUND);
            assert_eq!(
                body.to_value(),
                parsed("{\"error\": \"Error extracting model data: Model x not defined\"}")
            );
        }
        other => panic!("{:?}", other),
    }
}

#[test]
fn body_that_is_no_object_can_be_refused() {
    assert!(matches!(begin(PromptMode::Replace, "[1]"), ChatStep::Reject { status: 404, .. }));
}

#[test]
fn routed_request_is_sent() {
    match begin(PromptMode::Replace, "{\"model\": \"m\", \"stream\": true, \"top_k\": 1}") {
        ChatStep::Ready { exchange } => {
            let o = outgoing(exchange).unwrap();
            assert_eq!(o.url, "https://p/v1/chat/completions");
            assert_eq!(o.api_key, "k");
            assert_eq!(o.headers.get("x-h"), Some(&s("v")));
            assert_eq!(o.headers.len(), 1);
            assert_eq!(o.body.to_value(), parsed("{\"model\": \"m\", \"stream\": true, \"top_k\": 5}"));
        }
        other => panic!("{:?}", other),
    }
}

#[test]
fn request_is_sent_with_its_data() {
    let data = config(PromptMode::Replace).get_data("v", &Table::new()).unwrap();
    let o = send_with(data, doc("[1]"));
    assert_eq!(o.url, "https://p/v1/chat/completions");
    assert_eq!(o.api_key, "k");
    assert_eq!(o.headers.get("x-h"), Some(&s("v")));
    assert_eq!(o.body.to_value(), parsed("[1]"));
}

#[test]
fn null_counts_as_an_empty_object() {
    let data = config(PromptMode::Replace).get_data("m", &Table::new()).unwrap();
    match begin_routed(Json::Null, data) {
        ChatStep::Ready { exchange } => assert_eq!(exchange.body.to_value(), parsed("{\"model\": \"m\"}")),
        other => panic!("{:?}", other),
    }
}

#[test]
fn value_that_cannot_be_assigned_stops_the_request() {
    let mut c = config(PromptMode::Replace);
    let mut bad = Model {
        routing: vec![s("p")],
        providers: Table::new(),
        temperature: None,
        extra_headers: Table::new(),
        extra_body: vec![],
    };
    bad.extra_body.push(ExtraBody { pointer: s("/list/x"), value: TomlValue::Integer(5) });
    c.models.insert(s("bad"), bad);
    match begin_chat(&c, doc("{\"model\": \"bad\", \"list\": []}"), &Table::new()) {
        ChatStep::Ready { exchange } => assert!(outgoing(exchange).is_none()),
        other => panic!("{:?}", other),
    }
}

const TALK: &str = "{\"model\": \"v\", \"messages\": [{\"role\": \"system\", \"content\": \"be kind\"}, {\"role\": \"user\", \"content\": \"hi\"}]}";

#[test]
fn template_is_called_for() {
    let (template, prompt, exchange) = render(PromptMode::Combine, TALK);
    assert_eq!(template, "sys.txt");
    assert_eq!(prompt, "be kind");
    assert_eq!(exchange.body.get("model").and_then(|m| m.as_text()), Some("m"));
    let (_, prompt, _) = render(PromptMode::Replace, TALK);
    assert_eq!(prompt, "");
    let (_, prompt, _) = render(PromptMode::Fallback, TALK);
    assert_eq!(prompt, "");
}

#[test]
fn no_template_without_messages() {
    for body in [
        "{\"model\": \"v\"}",
        "{\"model\": \"v\", \"messages\": []}",
        "{\"model\": \"v\", \"messages\": \"hi\"}",
    ] {
        assert!(matches!(begin(PromptMode::Combine, body), ChatStep::Ready { .. }), "{}", body);
    }
}

fn finished(mode: PromptMode, body: &str, found: Option<(&str, Option<&str>)>) -> Value {
    let (_, _, exchange) = render(mode, body);
    let found = found.map(|(source, text)| Rendered { source: s(source), text: text.map(s) });
    finish_prompt(exchange, found).body.get("messages").unwrap().to_value()
}

#[test]
fn prompt_replaces_that_of_the_request() {
    assert_eq!(
        finished(PromptMode::Replace, TALK, Some(("T", Some("T")))),
        parsed("[{\"role\": \"system\", \"content\": \"T\"}, {\"role\": \"user\", \"content\": \"hi\"}]")
    );
}

#[test]
fn prompt_is_combined_with_that_of_the_request() {
    assert_eq!(
        finished(PromptMode::Combine, TALK, Some(("T", Some("T")))),
        parsed("[{\"role\": \"system\", \"content\": \"T\\nbe kind\"}, {\"role\": \"user\", \"content\": \"hi\"}]")
    );
    assert_eq!(
        finished(PromptMode::Combine, TALK, Some(("T {{ system_prompt }}", Some("T be kind")))),
        parsed("[{\"role\": \"system\", \"content\": \"T be kind\"}, {\"role\": \"user\", \"content\": \"hi\"}]")
    );
}

#[test]
fn prompt_of_the_request_stays_behind_a_fallback() {
    assert_eq!(
        finished(PromptMode::Fallback, TALK, Some(("T", Some("T")))),
        parsed("[{\"role\": \"system\", \"content\": \"T\"}, {\"role\": \"system\", \"content\": \"be kind\"}, {\"role\": \"user\", \"content\": \"hi\"}]")
    );
}

#[test]
fn first_message_of_a_user_stays() {
    let body = "{\"model\": \"v\", \"messages\": [{\"role\": \"user\", \"content\": \"hi\"}]}";
    assert_eq!(
        finished(PromptMode::Replace, body, Some(("T", Some("T")))),
        parsed("[{\"role\": \"system\", \"content\": \"T\"}, {\"role\": \"user\", \"content\": \"hi\"}]")
    );
    assert_eq!(
        finished(PromptMode::Combine, body, Some(("T", Some("T")))),
        parsed("[{\"role\": \"system\", \"content\": \"T\\nhi\"}, {\"role\": \"user\", \"content\": \"hi\"}]")
    );
}

#[test]
fn failed_rendering_gives_an_empty_prompt() {
    assert_eq!(
        finished(PromptMode::Replace, TALK, Some(("T", None))),
        parsed("[{\"role\": \"system\", \"content\": \"\"}, {\"role\": \"user\", \"content\": \"hi\"}]")
    );
}

#[test]
fn missing_template_changes_nothing() {
    assert_eq!(finished(PromptMode::Replace, TALK, None), parsed(TALK)["messages"]);
}

#[test]
fn message_that_is_no_object() {
    let body = "{\"model\": \"v\", \"messages\": [3]}";
    let (_, prompt, exchange) = render(PromptMode::Combine, body);
    assert_eq!(prompt, "");
    let r = insert_prompt(exchange.body, PromptMode::Combine, Some(s("T")), false);
    assert_eq!(
        r.get("messages").unwrap().to_value(),
        parsed("[{\"role\": \"system\", \"content\": \"T\\n\"}, 3]")
    );
}

#[test]
fn variables_of_a_template() {
    assert!(mentions("a {{ system_prompt }}", "system_prompt"));
    assert!(mentions("{% if system_prompt %}x{% endif %}", "system_prompt"));
    assert!(!mentions("a {{ other }}", "system_prompt"));
    assert!(!mentions("{% set system_prompt = 1 %}{{ system_prompt }}", "system_prompt"));
    assert!(!mentions("system_prompt", "system_prompt"));
    assert!(!mentions("{{ system_prompt", "system_prompt"));
}

#[test]
fn failure_to_send_is_answered_bad_gateway() {
    assert_eq!(send_failure("refused"), (502, s("OpenAI request failed: refused")));
    assert_eq!(BAD_GATEWAY, 502);
}

#[test]
fn list_of_models() {
    assert_eq!(
        list_models(&vec![s("a"), s("b")]).to_value(),
        parsed("{\"object\": \"list\", \"data\": [{\"id\": \"a\", \"object\": \"model\", \"created\": 0, \"owned_by\": \"user\"}, {\"id\": \"b\", \"object\": \"model\", \"created\": 0, \"owned_by\": \"user\"}]}")
    );
    assert_eq!(list_models(&vec![]).to_value(), parsed("{\"object\": \"list\", \"data\": []}"));
}

#[test]
fn keys_are_masked() {
    assert_eq!(mask_key(""), "*".repeat(16));
    assert_eq!(mask_key("abcd"), "*".repeat(16));
    assert_eq!(mask_key("abcde"), "abc***********de");
    assert_eq!(mask_key("sk-0123456789xy"), "sk-***********xy");
    assert_eq!(mask_key("\u{20ac}-\u{e9}"), "\u{20ac}***********\u{e9}");
    assert_eq!(mask_key("abcde").len(), 16);
    assert_eq!(mask_key("abcde"), mask_key("abc and more de"));
}

#[test]
fn address_that_the_server_listens_on() {
    let mut c = Config::default();
    assert_eq!(c.listen_address(), "localhost:3000");
    c.host = Some(s("::1"));
    c.port = Some(65535);
    assert_eq!(c.listen_address(), "::1:65535");
    c.port = Some(0);
    assert_eq!(c.listen_address(), "::1:0");
}

#[test]
fn levels_of_logging() {
    assert_eq!(log_level(0), LogLevel::Info);
    assert_eq!(log_level(1), LogLevel::Debug);
    assert_eq!(log_level(2), LogLevel::Trace);
    assert_eq!(log_level(255), LogLevel::Trace);
}

fn path(p: &str) -> FilePath {
    FilePath { components: p.split('/').map(|c| c.as_bytes().to_vec()).collect() }
}

fn change(kind: ChangeKind, paths: Vec<&str>) -> Change {
    Change { kind, paths: paths.into_iter().map(path).collect() }
}

fn reaction(changes: Vec<Change>, env: Option<&str>) -> (bool, bool) {
    let Reaction { reload, unwatch_env } = react(&changes, &path("/cfg"), &env.map(path));
    (reload, unwatch_env)
}

#[test]
fn paths_by_whole_components() {
    assert!(path("/cfg/a").starts_with(&path("/cfg")));
    assert!(path("/cfg").starts_with(&path("/cfg")));
    assert!(!path("/cfgs/a").starts_with(&path("/cfg")));
    assert!(!path("/cfg").starts_with(&path("/cfg/a")));
    assert!(path("/a/b").same_as(&path("/a/b")));
    assert!(!path("/a/b").same_as(&path("/a/c")));
    assert!(!path("/a/b").same_as(&path("/a")));
}

#[test]
fn any_change_calls_for_a_reload_without_an_environment_file() {
    for kind in [ChangeKind::Modify, ChangeKind::Create, ChangeKind::Remove] {
        assert_eq!(reaction(vec![change(kind, vec!["/else"])], None), (true, false));
        assert_eq!(reaction(vec![change(kind, vec![])], None), (true, false));
    }
    assert_eq!(reaction(vec![change(ChangeKind::Other, vec!["/cfg/a"])], None), (false, false));
    assert_eq!(reaction(vec![], None), (false, false));
}

#[test]
fn with_an_environment_file_only_it_and_the_directory_count() {
    let env = Some("/home/keys.env");
    assert_eq!(reaction(vec![change(ChangeKind::Modify, vec!["/home/other"])], env), (false, false));
    assert_eq!(reaction(vec![change(ChangeKind::Modify, vec!["/home/keys.env"])], env), (true, false));
    assert_eq!(reaction(vec![change(ChangeKind::Create, vec!["/x", "/cfg/a.toml"])], env), (true, false));
    assert_eq!(reaction(vec![change(ChangeKind::Other, vec!["/home/keys.env"])], env), (false, false));
}

#[test]
fn removed_environment_file_is_given_up() {
    let env = Some("/home/keys.env");
    assert_eq!(reaction(vec![change(ChangeKind::Remove, vec!["/home/keys.env"])], env), (true, true));
    assert_eq!(reaction(vec![change(ChangeKind::Remove, vec!["/cfg/a"])], env), (true, false));
}

#[test]
fn changes_after_the_first_that_counts_are_not_looked_at() {
    let env = Some("/home/keys.env");
    let removed = || change(ChangeKind::Remove, vec!["/home/keys.env"]);
    let written = || change(ChangeKind::Modify, vec!["/cfg/a"]);
    let idle = || change(ChangeKind::Other, vec!["/cfg/a"]);
    assert_eq!(reaction(vec![written(), removed()], env), (true, false));
    assert_eq!(reaction(vec![idle(), removed(), written()], env), (true, true));
}

#[test]
fn values_elsewhere_leave_the_rest_of_a_request() {
    let mut c = config(PromptMode::Replace);
    let mut v = c.variants.get("v").unwrap().clone();
    v.extra_body = vec![
        ExtraBody { pointer: s("/stop/0"), value: TomlValue::Text(s("end")) },
        ExtraBody { pointer: s("/tools/-"), value: TomlValue::Integer(1) },
        ExtraBody { pointer: s("no pointer"), value: TomlValue::Integer(2) },
    ];
    c.variants.insert(s("v"), v);
    let body = "{\"model\": \"v\", \"temperature\": 1, \"stream\": true, \"tools\": [0], \"messages\": [{\"role\": \"system\", \"content\": \"old\"}, {\"role\": \"user\", \"content\": \"hi\"}]}";
    let sent = |found: Option<Rendered>| {
        let exchange = match begin_chat(&c, doc(body), &Table::new()) {
            ChatStep::Render { exchange, .. } => finish_prompt(exchange, found),
            other => panic!("{:?}", other),
        };
        outgoing(exchange).unwrap().body.to_value()
    };
    let with = sent(Some(Rendered { source: s("T"), text: Some(s("T")) }));
    assert_eq!(
        with,
        parsed("{\"model\": \"m\", \"temperature\": 1, \"stream\": true, \"tools\": [0, 1], \"stop\": [\"end\"], \"top_k\": 5, \"messages\": [{\"role\": \"system\", \"content\": \"T\"}, {\"role\": \"user\", \"content\": \"hi\"}]}")
    );
    let without = sent(None);
    assert_eq!(without["messages"], parsed(body)["messages"]);
    assert_eq!(without["stream"], Value::Bool(true));
}
