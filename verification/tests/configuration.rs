use ollmo::config::{
    Config, DataError, ExtraBody, Model, PromptMode, Provider, ProviderKind, ProviderModel,
    RequestData, Temperature, Variants,
};
use ollmo::env_file::read_file;
use ollmo::load::{is_config_file, merge_contents, plan_load, Found, LoadStep};
use ollmo::paths::{expand_path, expand_path_with};
use ollmo::table::Table;
use ollmo::toml_value::TomlValue;
use ollmo::validate::{Note, Problem};

fn s(x: &str) -> String {
    x.to_string()
}

fn table(entries: Vec<(&str, &str)>) -> Table<String> {
    let mut t = Table::new();
    for (k, v) in entries {
        t.insert(s(k), s(v));
    }
    t
}

fn entries(t: &Table<String>) -> Vec<(String, String)> {
    (0..t.len()).map(|i| (t.name_at(i).clone(), t.value_at(i).clone())).collect()
}

fn body(pointer: &str, value: i64) -> ExtraBody {
    ExtraBody { pointer: s(pointer), value: TomlValue::Integer(value) }
}

fn provider(base: Option<&str>, key: Option<&str>) -> Provider {
    Provider { kind: ProviderKind::OpenaiCompatible, api_base: base.map(s), api_key: key.map(s) }
}

fn model(routing: Vec<&str>) -> Model {
    Model {
        routing: routing.into_iter().map(s).collect(),
        providers: Table::new(),
        temperature: None,
        extra_headers: Table::new(),
        extra_body: vec![],
    }
}

fn variant(model: &str) -> Variants {
    Variants {
        model: s(model),
        system_prompt: None,
        system_prompt_mode: PromptMode::default(),
        extra_headers: Table::new(),
        extra_body: vec![],
        temperature: None,
    }
}

fn sample() -> Config {
    let mut c = Config::default();
    c.providers.insert(s("main"), provider(Some("https://main/v1"), Some("secret")));
    c.providers.insert(s("spare"), provider(Some("https://spare/v1"), Some("env::SPARE_KEY")));
    let mut big = model(vec!["main", "spare"]);
    big.temperature = Some(Temperature { bits: 1 });
    big.extra_headers = table(vec![("x-a", "model"), ("x-b", "model"), ("x-c", "model")]);
    big.extra_body = vec![body("/a", 1)];
    big.providers.insert(
        s("main"),
        ProviderModel {
            model_name: Some(s("big-2025")),
            extra_headers: table(vec![("x-b", "provider"), ("x-c", "provider")]),
            extra_body: vec![body("/a", 2), body("/b", 2)],
        },
    );
    c.models.insert(s("big"), big);
    c.models.insert(s("small"), model(vec!["spare"]));
    let mut poet = variant("big");
    poet.system_prompt = Some(s("poet.txt"));
    poet.system_prompt_mode = PromptMode::Combine;
    poet.extra_headers = table(vec![("x-c", "variant"), ("x-d", "variant")]);
    poet.extra_body = vec![body("/b", 3)];
    poet.temperature = Some(Temperature { bits: 7 });
    c.variants.insert(s("poet"), poet);
    c
}

fn data(c: &Config, name: &str) -> RequestData {
    c.get_data(name, &Table::new()).unwrap()
}

fn extras(d: &RequestData) -> Vec<(String, String)> {
    d.extra_body.iter().map(|e| (e.pointer.clone(), e.value.to_value().to_string())).collect()
}

fn pairs(list: &[(&str, &str)]) -> Vec<(String, String)> {
    list.iter().map(|(a, b)| (s(a), s(b))).collect()
}

#[test]
fn model_is_sent_to_its_first_provider() {
    let d = data(&sample(), "big");
    assert_eq!(d.provider_kind, ProviderKind::OpenaiCompatible);
    assert_eq!(d.api_base, "https://main/v1");
    assert_eq!(d.api_key, "secret");
    assert_eq!(d.model_name, "big-2025");
    assert_eq!(d.temperature, Some(Temperature { bits: 1 }));
    assert_eq!(d.system_prompt, None);
    assert_eq!(d.system_prompt_mode, PromptMode::Fallback);
    assert_eq!(extras(&d), pairs(&[("/a", "1"), ("/a", "2"), ("/b", "2")]));
    assert_eq!(
        entries(&d.extra_headers),
        pairs(&[("x-a", "model"), ("x-b", "provider"), ("x-c", "provider")])
    );
}

#[test]
fn variant_goes_over_its_model() {
    let d = data(&sample(), "poet");
    assert_eq!(d.api_base, "https://main/v1");
    assert_eq!(d.model_name, "big-2025");
    assert_eq!(d.system_prompt, Some(s("poet.txt")));
    assert_eq!(d.system_prompt_mode, PromptMode::Combine);
    assert_eq!(d.temperature, Some(Temperature { bits: 7 }));
    assert_eq!(extras(&d), pairs(&[("/a", "1"), ("/a", "2"), ("/b", "2"), ("/b", "3")]));
    assert_eq!(
        entries(&d.extra_headers),
        pairs(&[("x-a", "model"), ("x-b", "provider"), ("x-c", "variant"), ("x-d", "variant")])
    );
}

#[test]
fn variant_without_a_temperature_has_that_of_its_model() {
    let mut c = sample();
    c.variants.insert(s("plain"), variant("big"));
    assert_eq!(data(&c, "plain").temperature, Some(Temperature { bits: 1 }));
}

#[test]
fn name_of_the_model_where_the_provider_has_none() {
    let mut c = sample();
    c.variants.insert(s("tiny"), variant("small"));
    assert_eq!(data(&c, "small").model_name, "small");
    assert_eq!(data(&c, "tiny").model_name, "small");
    let mut odd = model(vec!["main"]);
    odd.providers.insert(
        s("main"),
        ProviderModel { model_name: None, extra_headers: Table::new(), extra_body: vec![] },
    );
    c.models.insert(s("odd"), odd);
    assert_eq!(data(&c, "odd").model_name, "odd");
}

#[test]
fn variant_goes_before_a_model_of_the_same_name() {
    let mut c = sample();
    c.variants.insert(s("small"), variant("big"));
    assert_eq!(data(&c, "small").model_name, "big-2025");
}

#[test]
fn key_from_the_environment() {
    let mut c = sample();
    let none = Table::new();
    let process = table(vec![("SPARE_KEY", "from process")]);
    assert_eq!(c.get_data("small", &none).unwrap().api_key, "");
    assert_eq!(c.get_data("small", &process).unwrap().api_key, "from process");
    c.env = table(vec![("SPARE_KEY", "from file")]);
    assert_eq!(c.get_data("small", &process).unwrap().api_key, "from file");
    assert_eq!(c.get_env("SPARE_KEY", &process), Some(s("from file")));
    assert_eq!(c.get_env("OTHER", &process), None);
}

#[test]
fn provider_without_a_key_gets_the_empty_key() {
    let mut c = sample();
    c.providers.insert(s("spare"), provider(Some("https://spare/v1"), None));
    assert_eq!(data(&c, "small").api_key, "");
}

#[test]
fn undefined_model_is_refused() {
    let e = sample().get_data("nope", &Table::new()).unwrap_err();
    assert!(matches!(&e, DataError::ModelNotDefined(n) if n == "nope"));
    assert_eq!(e.message(), "Model nope not defined");
    let e = Config::default().get_data("", &Table::new()).unwrap_err();
    assert_eq!(e.message(), "Model  not defined");
}

#[test]
fn variant_of_an_undefined_model_is_refused_by_the_model() {
    let mut c = sample();
    c.variants.insert(s("lost"), variant("gone"));
    assert_eq!(c.get_data("lost", &Table::new()).unwrap_err().message(), "Model gone not defined");
}

#[test]
fn model_without_providers_is_refused() {
    let mut c = sample();
    c.models.insert(s("idle"), model(vec![]));
    let e = c.get_data("idle", &Table::new()).unwrap_err();
    assert!(matches!(&e, DataError::NoProviders(n) if n == "idle"));
    assert_eq!(e.message(), "Model idle has no providers");
}

#[test]
fn undefined_provider_is_refused() {
    let mut c = sample();
    c.models.insert(s("stray"), model(vec!["ghost", "main"]));
    let e = c.get_data("stray", &Table::new()).unwrap_err();
    assert!(matches!(&e, DataError::ProviderNotFound(n) if n == "ghost"));
    assert_eq!(e.message(), "Provider ghost not found");
}

#[test]
fn provider_without_a_url_is_refused() {
    let mut c = sample();
    c.providers.insert(s("spare"), provider(None, Some("k")));
    let e = c.get_data("small", &Table::new()).unwrap_err();
    assert!(matches!(&e, DataError::NoUrl(n) if n == "spare"));
    assert_eq!(e.message(), "No url specified for provider spare");
}

#[test]
fn valid_configuration() {
    let c = sample();
    assert!(c.validate(&vec![]));
    assert!(c.problems(&vec![]).is_empty());
    assert!(c.validate(&vec![s("other.txt")]));
    for name in c.list_models() {
        assert!(c.get_data(&name, &Table::new()).is_ok(), "{}", name);
    }
}

#[test]
fn empty_configuration_is_valid_and_serves_nothing() {
    let c = Config::default();
    assert!(c.validate(&vec![]));
    assert!(c.list_models().is_empty());
    assert!(c.prompt_files().is_empty());
}

#[test]
fn each_problem_is_found() {
    let mut c = sample();
    c.models.insert(s("stray"), model(vec!["main", "ghost"]));
    assert!(!c.validate(&vec![]));
    assert!(matches!(&c.problems(&vec![])[..],
        [Problem::UnknownProvider { model, provider }] if model == "stray" && provider == "ghost"));

    let mut c = sample();
    c.providers.insert(s("bare"), provider(None, None));
    assert!(!c.validate(&vec![]));
    assert!(matches!(&c.problems(&vec![])[..],
        [Problem::NoApiBase { provider: a }, Problem::NoApiKey { provider: b }] if a == "bare" && b == "bare"));

    let mut c = sample();
    c.variants.insert(s("lost"), variant("gone"));
    assert!(!c.validate(&vec![]));
    assert!(matches!(&c.problems(&vec![])[..],
        [Problem::UnknownModel { variant, model }] if variant == "lost" && model == "gone"));

    let c = sample();
    assert_eq!(c.prompt_files(), vec![s("poet.txt")]);
    let failed = vec![s("poet.txt")];
    assert!(!c.validate(&failed));
    assert!(matches!(&c.problems(&failed)[..],
        [Problem::PromptNotFound { variant, prompt }] if variant == "poet" && prompt == "poet.txt"));
}

#[test]
fn problems_in_order() {
    let mut c = sample();
    c.models.insert(s("stray"), model(vec!["ghost", "main", "ghost"]));
    c.providers.insert(s("bare"), provider(Some("https://bare"), None));
    let mut lost = variant("gone");
    lost.system_prompt = Some(s("poet.txt"));
    c.variants.insert(s("lost"), lost);
    assert_eq!(c.prompt_files(), vec![s("poet.txt"), s("poet.txt")]);
    assert!(matches!(&c.problems(&vec![s("poet.txt")])[..],
        [
            Problem::UnknownProvider { provider: a, .. },
            Problem::UnknownProvider { provider: b, .. },
            Problem::NoApiKey { provider: d },
            Problem::PromptNotFound { variant: e, .. },
            Problem::UnknownModel { variant: f, .. },
            Problem::PromptNotFound { variant: g, .. },
        ] if a == "ghost" && b == "ghost" && d == "bare" && e == "poet" && f == "lost" && g == "lost"));
}

#[test]
fn remarks() {
    let mut c = sample();
    assert!(c.notes().is_empty());
    let mut odd = model(vec!["main"]);
    odd.providers.insert(
        s("spare"),
        ProviderModel { model_name: None, extra_headers: Table::new(), extra_body: vec![] },
    );
    c.models.insert(s("odd"), odd);
    assert!(c.validate(&vec![]));
    assert!(matches!(&c.notes()[..],
        [Note::NotEnabled { model: a, provider: b }, Note::NoModelName { model: x, provider: y }]
        if a == "odd" && b == "spare" && x == "odd" && y == "spare"));
}

#[test]
fn names_that_are_served() {
    let mut c = sample();
    c.variants.insert(s("small"), variant("big"));
    assert_eq!(c.list_models(), vec![s("big"), s("small"), s("poet")]);
}

#[test]
fn settings_of_the_server() {
    let mut c = Config::default();
    assert_eq!(c.get_port(), 3000);
    assert_eq!(c.get_host(), "localhost");
    assert!(c.is_reload_enabled());
    assert_eq!(c.get_env_file(), None);
    assert_eq!(c.env_file_location(), None);
    c.port = Some(80);
    c.host = Some(s("0.0.0.0"));
    c.no_reload = true;
    c.env_file = Some(s("/etc/keys.env"));
    assert_eq!(c.get_port(), 80);
    assert_eq!(c.get_host(), "0.0.0.0");
    assert!(!c.is_reload_enabled());
    assert_eq!(c.get_env_file(), Some(s("/etc/keys.env")));
    assert_eq!(c.env_file_location(), Some(s("/etc/keys.env")));
}

#[test]
fn key_of_the_application() {
    let mut c = Config::default();
    let process = table(vec![("KEY", "value")]);
    assert_eq!(c.get_api_key(&process), None);
    c.api_key = Some(s("plain"));
    assert_eq!(c.get_api_key(&process), Some(s("plain")));
    c.api_key = Some(s("env::KEY"));
    assert_eq!(c.get_api_key(&process), Some(s("value")));
    c.api_key = Some(s("env::NONE"));
    assert_eq!(c.get_api_key(&process), None);
    c.env = table(vec![("NONE", "file")]);
    assert_eq!(c.get_api_key(&process), None);
}

fn after(content: &str) -> Vec<(String, String)> {
    let mut t = Table::new();
    read_file(&mut t, content);
    entries(&t)
}

#[test]
fn lines_of_an_environment_file() {
    let content = "# comment\n\n  A = 1 \r\nB=two=three\n\t#C=3\nnothing\n D\u{a0}=\u{3000}x y\u{2003}\n=empty\nE=";
    assert_eq!(
        after(content),
        pairs(&[("A", "1"), ("B", "two=three"), ("D", "x y"), ("", "empty"), ("E", "")])
    );
    assert_eq!(after(""), vec![]);
    assert_eq!(after("\n\n"), vec![]);
}

#[test]
fn last_line_for_a_variable_counts() {
    assert_eq!(after("A=1\nB=2\nA=3"), pairs(&[("A", "3"), ("B", "2")]));
}

#[test]
fn files_are_read_in_order() {
    let (a, b) = ("A=1\nB=2", "B=3\nC=4\n");
    let mut t = Table::new();
    read_file(&mut t, a);
    read_file(&mut t, b);
    assert_eq!(entries(&t), after(&format!("{}\n{}", a, b)));
    let once = entries(&t);
    read_file(&mut t, b);
    assert_eq!(entries(&t), once);
}

#[test]
fn white_space_is_that_of_unicode() {
    for c in '\0'..=char::MAX {
        assert_eq!(ollmo::text::is_white_space(c), c.is_whitespace(), "{:?}", c);
    }
}

#[test]
fn environment_file_is_loaded() {
    let mut c = Config::default();
    c.env_file = Some(s("keys.env"));
    let c = Config::load(Some(c), Some("K=v"));
    assert_eq!(entries(&c.env), pairs(&[("K", "v")]));
    let mut c = Config::load(Some(c), None);
    assert_eq!(entries(&c.env), pairs(&[("K", "v")]));
    c.load_env(Some("L=w"));
    assert_eq!(entries(&c.env), pairs(&[("K", "v"), ("L", "w")]));
}

#[test]
fn without_an_environment_file_nothing_is_set() {
    let c = Config::load(Some(Config::default()), Some("K=v"));
    assert_eq!(c.env.len(), 0);
    let c = Config::load(None, Some("K=v"));
    assert_eq!(c.env.len(), 0);
    assert_eq!(c.get_port(), 3000);
}

#[test]
fn files_of_the_configuration() {
    let is = |name: &str| is_config_file(true, &name.as_bytes().to_vec());
    for name in ["config.toml", "a.TOML", "b.ToMl", "x.y.toml", ".hidden.toml"] {
        assert!(is(name), "{}", name);
    }
    for name in [".toml", "toml", "config.toml.bak", "config.tom", "config.", "", "..", "atoml", "a.tomll"] {
        assert!(!is(name), "{}", name);
    }
    assert!(!is_config_file(false, &b"config.toml".to_vec()));
}

#[test]
fn files_to_be_read() {
    let found = |is_file, name: &str| Found { is_file, name: name.as_bytes().to_vec() };
    assert!(matches!(plan_load(&vec![]), LoadStep::WriteDefault));
    assert!(matches!(plan_load(&vec![found(false, "a.toml"), found(true, "b.txt")]), LoadStep::WriteDefault));
    let all = vec![found(false, "cfg"), found(true, "a.toml"), found(true, "b.txt"), found(true, "c.TOML")];
    assert!(matches!(plan_load(&all), LoadStep::Read(at) if at == vec![1, 3]));
}

#[test]
fn contents_one_below_the_other() {
    assert_eq!(merge_contents(&vec![]), "");
    assert_eq!(merge_contents(&vec![s("a")]), "a");
    assert_eq!(merge_contents(&vec![s("a"), s(""), s("b\n")]), "a\n\nb\n");
}

#[test]
fn tilde_stands_for_the_home_directory() {
    for path in ["/etc/x", "", "a/~/b", "~user/x", "x~"] {
        assert_eq!(expand_path(path), path);
    }
    let home = expand_path("~");
    assert_eq!(expand_path("~/x/y"), format!("{}/x/y", home));
}

#[test]
fn last_of_two_entries_counts() {
    let t = Table::from_entries(vec![(s("a"), s("1")), (s("b"), s("2")), (s("a"), s("3"))]);
    assert_eq!(entries(&t), pairs(&[("a", "3"), ("b", "2")]));
}

#[test]
fn tables_replace_in_place() {
    let mut t = table(vec![("a", "1"), ("b", "2")]);
    t.insert(s("a"), s("3"));
    assert_eq!(entries(&t), pairs(&[("a", "3"), ("b", "2")]));
    assert_eq!(t.get("a"), Some(&s("3")));
    assert_eq!(t.get("c"), None);
    assert!(t.contains_key("b"));
    assert!(!t.contains_key("B"));
    t.extend(&table(vec![("b", "9"), ("c", "8")]));
    assert_eq!(entries(&t), pairs(&[("a", "3"), ("b", "9"), ("c", "8")]));
}

#[test]
fn paths_with_a_given_home() {
    assert_eq!(expand_path_with("~/x/y", Some("/home/me")), "/home/me/x/y");
    assert_eq!(expand_path_with("~", Some("/home/me")), "/home/me");
    assert_eq!(expand_path_with("~/x", None), "~/x");
    for path in ["/etc/x", "", "a/~/b", "~user/x", "x~"] {
        assert_eq!(expand_path_with(path, Some("/home/me")), path);
    }
}

#[test]
fn copies_of_a_configuration() {
    let mut c = sample();
    c.env.insert(s("SPARE_KEY"), s("spare"));
    c.port = Some(1);
    let d = c.clone();
    assert_eq!(format!("{:?}", d), format!("{:?}", c));
    let x = data(&d, "poet");
    assert_eq!(format!("{:?}", x.clone()), format!("{:?}", x));
    assert_eq!(entries(&x.extra_headers.clone()), entries(&x.extra_headers));
}

#[test]
fn variables_that_keys_name() {
    let mut c = sample();
    assert_eq!(c.variables(), vec![s("SPARE_KEY")]);
    c.providers.insert(s("other"), provider(None, Some("env::")));
    c.providers.insert(s("last"), provider(None, Some("env:SPARE_KEY")));
    c.api_key = Some(s("env::OWN"));
    assert_eq!(c.variables(), vec![s("SPARE_KEY"), s(""), s("OWN")]);
    assert!(Config::default().variables().is_empty());
    let few = table(vec![("SPARE_KEY", "x"), ("OWN", "y")]);
    let many = table(vec![("PATH", "z"), ("OWN", "y"), ("SPARE_KEY", "x")]);
    for env in [&few, &many] {
        assert_eq!(c.get_data("small", env).unwrap().api_key, "x");
        assert_eq!(c.get_api_key(env), Some(s("y")));
    }
}

#[test]
fn remarks_in_order() {
    let settings =
        || ProviderModel { model_name: None, extra_headers: Table::new(), extra_body: vec![] };
    let mut c = Config::default();
    for name in ["b", "a"] {
        let mut m = model(vec!["y"]);
        for provider in ["z", "y", "x"] {
            m.providers.insert(s(provider), settings());
        }
        c.models.insert(s(name), m);
    }
    let seen: Vec<(bool, String, String)> = c
        .notes()
        .into_iter()
        .map(|n| match n {
            Note::NotEnabled { model, provider } => (true, model, provider),
            Note::NoModelName { model, provider } => (false, model, provider),
        })
        .collect();
    let mut expected = vec![];
    for name in ["b", "a"] {
        for (off, provider) in [(true, "z"), (false, "z"), (false, "y"), (true, "x"), (false, "x")] {
            expected.push((off, s(name), s(provider)));
        }
    }
    assert_eq!(seen, expected);
}

#[test]
fn data_that_says_nothing() {
    let d = RequestData::default();
    assert_eq!(d.provider_kind, ProviderKind::OpenaiCompatible);
    assert_eq!((d.api_base, d.api_key, d.model_name), (s(""), s(""), s("")));
    assert!(d.extra_body.is_empty());
    assert_eq!(d.extra_headers.len(), 0);
    assert_eq!(d.system_prompt, None);
    assert_eq!(d.system_prompt_mode, PromptMode::Fallback);
    assert_eq!(d.temperature, None);
}

#[test]
fn bare_variant_is_sent_as_its_model() {
    let mut c = sample();
    c.variants.insert(s("same"), variant("big"));
    assert_eq!(format!("{:?}", data(&c, "same")), format!("{:?}", data(&c, "big")));
}
