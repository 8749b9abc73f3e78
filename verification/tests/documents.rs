use ollmo::json::Json;
use ollmo::pointer::{apply_extra_body, skipped, ExtraBodyJson};
use ollmo::toml_value::{toml_to_json, Date, Datetime, Minutes, Offset, Time, TomlValue};
use serde_json::{Number, Value};

fn text(s: &str) -> Value {
    Value::String(s.to_string())
}

fn number(i: i64) -> Value {
    Value::Number(Number::from(i))
}

fn object(members: Vec<(&str, Value)>) -> Value {
    let mut m = serde_json::Map::new();
    for (k, v) in members {
        m.insert(k.to_string(), v);
    }
    Value::Object(m)
}

fn sample() -> Value {
    object(vec![
        ("nothing", Value::Null),
        ("flag", Value::Bool(true)),
        ("count", number(-3)),
        ("ratio", Value::Number(Number::from_f64(0.25).unwrap())),
        ("name", text("caf\u{e9}")),
        ("list", Value::Array(vec![number(1), object(vec![("deep", Value::Array(vec![]))])])),
    ])
}

fn parsed(s: &str) -> Value {
    serde_json::from_str(s).unwrap()
}

fn extra(pointer: &str, value: Value) -> ExtraBodyJson {
    ExtraBodyJson { pointer: pointer.to_string(), value: Json::from_value(value) }
}

fn extended(body: Value, extras: Vec<ExtraBodyJson>) -> Option<Value> {
    apply_extra_body(&Json::from_value(body), &extras).map(|j| j.to_value())
}

#[test]
fn document_survives_both_conversions() {
    assert_eq!(Json::from_value(sample()).to_value(), sample());
}

#[test]
fn document_is_taken_apart_by_its_variants() {
    match Json::from_value(parsed("[null, true, 7, \"x\", {\"a\": 1}]")) {
        Json::Array(items) => {
            assert_eq!(items.len(), 5);
            assert!(matches!(items[0], Json::Null));
            assert!(matches!(items[1], Json::Bool(true)));
            assert!(matches!(&items[2], Json::Number(n) if n.as_i64() == Some(7)));
            assert!(matches!(&items[3], Json::Text(s) if s == "x"));
            assert!(matches!(&items[4], Json::Object(m) if m.len() == 1 && m[0].0 == "a"));
        }
        other => panic!("{:?}", other),
    }
}

#[test]
fn last_of_two_members_counts() {
    let j = Json::Object(vec![
        ("a".to_string(), Json::integer(1)),
        ("a".to_string(), Json::integer(2)),
    ]);
    assert!(matches!(j.get("a"), Some(Json::Number(n)) if n.as_i64() == Some(2)));
    assert_eq!(j.to_value(), parsed("{\"a\": 2}"));
    assert_eq!(j.set_member("a", Json::integer(3)).to_value(), parsed("{\"a\": 3}"));
}

#[test]
fn members_are_read_and_set() {
    let j = Json::from_value(parsed("{\"a\": \"x\", \"b\": 1}"));
    assert_eq!(j.get("a").and_then(|v| v.as_text()), Some("x"));
    assert_eq!(j.get("b").and_then(|v| v.as_text()), None);
    assert!(j.get("c").is_none());
    assert!(Json::Null.get("a").is_none());
    assert!(j.takes_members());
    assert!(Json::Null.takes_members());
    assert!(!Json::Array(vec![]).takes_members());
    let k = j.set_member("a", Json::Bool(false)).set_member("c", Json::Null);
    assert_eq!(k.to_value(), parsed("{\"a\": false, \"b\": 1, \"c\": null}"));
    assert_eq!(Json::Null.set_member("z", Json::integer(0)).to_value(), parsed("{\"z\": 0}"));
}

#[test]
fn integers_are_json_numbers() {
    assert_eq!(Json::integer(i64::MIN).to_value(), number(i64::MIN));
    assert_eq!(Json::integer(42).to_value(), number(42));
    let n = Number::from_f64(1.5).unwrap();
    assert_eq!(Json::number(&n).to_value(), Value::Number(n));
}

#[test]
fn extra_value_replaces_a_member() {
    let r = extended(parsed("{\"temperature\": 1, \"model\": \"m\"}"), vec![extra("/temperature", number(0))]);
    assert_eq!(r, Some(parsed("{\"temperature\": 0, \"model\": \"m\"}")));
}

#[test]
fn last_extra_value_under_a_member_is_sent() {
    let extras = vec![extra("/a", number(1)), extra("/b", number(2)), extra("/a", number(3))];
    assert_eq!(extended(parsed("{\"c\": 0}"), extras), Some(parsed("{\"a\": 3, \"b\": 2, \"c\": 0}")));
}

#[test]
fn extra_value_at_the_root_replaces_the_document() {
    assert_eq!(extended(parsed("{\"a\": 1}"), vec![extra("", text("x"))]), Some(text("x")));
}

#[test]
fn extra_value_opens_a_path() {
    let r = extended(parsed("{}"), vec![extra("/a/b/0", text("x")), extra("/a/b/-", text("y"))]);
    assert_eq!(r, Some(parsed("{\"a\": {\"b\": [\"x\", \"y\"]}}")));
}

#[test]
fn extra_value_goes_below_objects() {
    let at = |body: &str, pointer: &str| extended(parsed(body), vec![extra(pointer, number(7))]);
    assert_eq!(at("{\"a\": {\"c\": 1}}", "/a/b"), Some(parsed("{\"a\": {\"b\": 7, \"c\": 1}}")));
    assert_eq!(at("{\"a\": 1, \"d\": 2}", "/a/b/c"), Some(parsed("{\"a\": {\"b\": {\"c\": 7}}, \"d\": 2}")));
    assert_eq!(at("{\"a\": {}}", "/a/b/c"), Some(parsed("{\"a\": {\"b\": {\"c\": 7}}}")));
    assert_eq!(at("null", "/a"), Some(parsed("{\"a\": 7}")));
    assert_eq!(at("{}", "/0"), Some(parsed("{\"0\": 7}")));
    assert_eq!(at("{\"-\": {}}", "/-/x"), Some(parsed("{\"-\": {\"x\": 7}}")));
    assert_eq!(at("{}", "/"), Some(parsed("{\"\": 7}")));
    assert_eq!(at("{\"a\": [1]}", "/a"), Some(parsed("{\"a\": 7}")));
}

#[test]
fn extra_value_replaces_an_item() {
    let body = "{\"l\": [1, {\"a\": 2, \"b\": 3}, 4]}";
    let at = |pointer: &str| extended(parsed(body), vec![extra(pointer, number(7))]);
    assert_eq!(at("/l/0"), Some(parsed("{\"l\": [7, {\"a\": 2, \"b\": 3}, 4]}")));
    assert_eq!(at("/l/1/a"), Some(parsed("{\"l\": [1, {\"a\": 7, \"b\": 3}, 4]}")));
    assert_eq!(at("/l/2/x"), Some(parsed("{\"l\": [1, {\"a\": 2, \"b\": 3}, {\"x\": 7}]}")));
    assert_eq!(at("/l/01"), None);
    let many = Value::Array((0..12).map(number).collect());
    let r = extended(many, vec![extra("/10", number(70)), extra("/1", number(71))]).unwrap();
    assert_eq!(r.to_string(), "[0,71,2,3,4,5,6,7,8,9,70,11]");
}

#[test]
fn escapes_in_a_pointer() {
    let r = extended(parsed("{}"), vec![extra("/a~1b~0c", number(1))]);
    assert_eq!(r, Some(parsed("{\"a/b~c\": 1}")));
}

#[test]
fn invalid_pointer_is_passed_over() {
    for bad in ["temperature", "/a~", "/a~2", "~0"] {
        let r = extended(parsed("{\"k\": 1}"), vec![extra(bad, number(5)), extra("/z", number(6))]);
        assert_eq!(r, Some(parsed("{\"k\": 1, \"z\": 6}")), "{}", bad);
    }
}

#[test]
fn refused_assignment_gives_nothing() {
    assert_eq!(extended(parsed("{\"l\": [1]}"), vec![extra("/l/x", number(5))]), None);
    assert_eq!(extended(parsed("{\"l\": [1]}"), vec![extra("/l/5", number(5)), extra("/k", number(1))]), None);
}

#[test]
fn toml_scalars_in_json() {
    assert_eq!(toml_to_json(&TomlValue::Text("t".to_string())).to_value(), text("t"));
    assert_eq!(toml_to_json(&TomlValue::Integer(-9)).to_value(), number(-9));
    assert_eq!(toml_to_json(&TomlValue::Boolean(true)).to_value(), Value::Bool(true));
    let half = Number::from_f64(0.5);
    assert_eq!(toml_to_json(&TomlValue::Float(half.clone())).to_value(), Value::Number(half.unwrap()));
}

#[test]
fn number_that_json_cannot_express_becomes_zero() {
    assert_eq!(toml_to_json(&TomlValue::Float(Number::from_f64(f64::NAN))).to_value(), number(0));
    assert_eq!(toml_to_json(&TomlValue::Float(Number::from_f64(f64::INFINITY))).to_value(), number(0));
}

#[test]
fn toml_collections_in_json() {
    let t = TomlValue::Table(vec![
        ("list".to_string(), TomlValue::Array(vec![TomlValue::Integer(1), TomlValue::Text("b".to_string())])),
        ("inner".to_string(), TomlValue::Table(vec![("x".to_string(), TomlValue::Boolean(false))])),
    ]);
    assert_eq!(toml_to_json(&t).to_value(), parsed("{\"list\": [1, \"b\"], \"inner\": {\"x\": false}}"));
}

#[test]
fn dates_and_times_become_text() {
    let date = Some(Date { year: 1979, month: 5, day: 27 });
    let time = Some(Time { hour: 7, minute: 32, second: 0, nanosecond: 500_000_000 });
    let show = |date, time, offset| {
        toml_to_json(&TomlValue::Datetime(Datetime { date, time, offset })).to_value()
    };
    assert_eq!(show(date, time, Some(Offset::Zulu)), text("1979-05-27T07:32:00.5Z"));
    assert_eq!(show(date, None, None), text("1979-05-27"));
    assert_eq!(show(None, time, None), text("07:32:00.5"));
    let west = Minutes::new(-450).unwrap();
    assert_eq!(show(date, time, Some(Offset::Custom(west))), text("1979-05-27T07:32:00.5-07:30"));
    let east = Minutes::new(60).unwrap();
    assert_eq!(show(date, time, Some(Offset::Custom(east))), text("1979-05-27T07:32:00.5+01:00"));
}

#[test]
fn offset_without_a_negation_is_none() {
    assert!(Minutes::new(i16::MIN).is_none());
    assert!(Minutes::new(i16::MIN + 1).is_some());
}

#[test]
fn arrays_are_made_and_grow() {
    let at = |body: &str, pointer: &str| extended(parsed(body), vec![extra(pointer, number(7))]);
    assert_eq!(at("{\"a\": 1}", "/stop/0"), Some(parsed("{\"a\": 1, \"stop\": [7]}")));
    assert_eq!(at("{\"a\": 1}", "/stop/-/x"), Some(parsed("{\"a\": 1, \"stop\": [{\"x\": 7}]}")));
    assert_eq!(at("{\"a\": 1}", "/stop/1"), Some(parsed("{\"a\": 1, \"stop\": {\"1\": 7}}")));
    assert_eq!(at("{\"l\": [1]}", "/l/1"), Some(parsed("{\"l\": [1, 7]}")));
    assert_eq!(at("{\"l\": [1]}", "/l/-/0/k"), Some(parsed("{\"l\": [1, [{\"k\": 7}]]}")));
    assert_eq!(at("{\"l\": []}", "/l/0"), Some(parsed("{\"l\": [7]}")));
    assert_eq!(at("5", "/0"), Some(parsed("[7]")));
    assert_eq!(at("{\"l\": [1]}", "/l/2"), None);
    assert_eq!(at("{\"l\": [1]}", "/l/00"), None);
    assert_eq!(at("{\"l\": [1]}", "/l/+0"), None);
    assert_eq!(at("{\"l\": [1]}", "/l/"), None);
    assert_eq!(at("{\"l\": [1]}", "/l/99999999999999999999999"), None);
}

#[test]
fn skipped_values_are_told() {
    let extras = vec![
        extra("a", number(1)),
        extra("/a", number(2)),
        extra("/a~", number(3)),
        extra("", number(4)),
        extra("/~2", number(5)),
    ];
    assert_eq!(skipped(&extras), vec![0, 2, 4]);
    assert!(skipped(&vec![]).is_empty());
}

#[test]
fn repeated_members_are_sent_once() {
    let j = Json::Object(vec![
        ("a".to_string(), Json::integer(1)),
        ("b".to_string(), Json::integer(2)),
        ("a".to_string(), Json::integer(3)),
        ("a".to_string(), Json::Array(vec![Json::integer(4)])),
    ]);
    assert_eq!(j.to_value(), parsed("{\"a\": [4], \"b\": 2}"));
    assert_eq!(j.clone().to_value(), j.to_value());
}

#[test]
fn text_of_dates_is_padded() {
    let show = |date, time, offset| {
        toml_to_json(&TomlValue::Datetime(Datetime { date, time, offset })).to_value()
    };
    let time = |hour, minute, second, nanosecond| Some(Time { hour, minute, second, nanosecond });
    let date = |year, month, day| Some(Date { year, month, day });
    assert_eq!(show(date(7, 1, 2), None, None), text("0007-01-02"));
    assert_eq!(show(date(12345, 10, 31), None, None), text("12345-10-31"));
    assert_eq!(show(None, time(1, 2, 3, 0), None), text("01:02:03"));
    assert_eq!(show(None, time(1, 2, 3, 1), None), text("01:02:03.000000001"));
    assert_eq!(show(None, time(1, 2, 3, 120_000_000), None), text("01:02:03.12"));
    assert_eq!(show(None, time(1, 2, 3, 4_000_000_000), None), text("01:02:03.4"));
    assert_eq!(show(None, None, None), text(""));
    let minutes = |m| Some(Offset::Custom(Minutes::new(m).unwrap()));
    assert_eq!(show(None, None, minutes(-5)), text("-00:05"));
    assert_eq!(show(None, None, minutes(0)), text("+00:00"));
    assert_eq!(show(None, None, minutes(6001)), text("+100:01"));
    assert_eq!(show(date(1, 1, 1), None, Some(Offset::Zulu)), text("0001-01-01Z"));
}

#[test]
fn copies_of_values() {
    let t = TomlValue::Table(vec![
        ("l".to_string(), TomlValue::Array(vec![TomlValue::Integer(1), TomlValue::Float(None)])),
        ("s".to_string(), TomlValue::Text("x".to_string())),
        ("b".to_string(), TomlValue::Boolean(true)),
    ]);
    assert_eq!(toml_to_json(&t.clone()).to_value(), toml_to_json(&t).to_value());
    assert_eq!(Json::from_value(sample()).clone().to_value(), sample());
    let e = extra("/p", sample()).clone();
    assert_eq!((e.pointer, e.value.to_value()), ("/p".to_string(), sample()));
}
