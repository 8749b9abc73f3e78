//! What holds of routing: which provider a request goes to, and the data that it is
//! sent with.

use vstd::prelude::*;

use crate::config;
use crate::config::{ConfigView, DataErrorView, PromptMode, ProviderView, RequestDataView};
use crate::env_file;
use crate::text;
use crate::toml_value;

verus! {

/// A request for `name` is a request for the model `model`: the variant `name` is of
/// that model, or there is no such variant and `name` is that model's name.
pub open spec fn asks_for(c: ConfigView, name: Seq<char>, model: Seq<char>) -> bool {
    if c.variants.contains_key(name) {
        c.variants[name].model == model
    } else {
        name == model
    }
}

/// A request for `name` goes to `provider`, for `model`: that provider is the first that
/// the model is routed to, it is defined, and it has a url.
pub open spec fn leads_to(
    c: ConfigView,
    name: Seq<char>,
    model: Seq<char>,
    provider: Seq<char>,
) -> bool {
    &&& asks_for(c, name, model)
    &&& c.models.contains_key(model)
    &&& c.models[model].routing.len() > 0
    &&& c.models[model].routing[0] == provider
    &&& c.providers.contains_key(provider)
    &&& c.providers[provider].api_base is Some
}

/// A request is refused because of a model that is not defined exactly where the model
/// that it asks for is not defined, and the refusal gives the name of that model.
pub proof fn law_undefined_model_refused(
    c: ConfigView,
    name: Seq<char>,
    process_env: Map<Seq<char>, Seq<char>>,
    model: Seq<char>,
)
    ensures
        c.data(name, process_env) == Err::<RequestDataView, DataErrorView>(
            DataErrorView::ModelNotDefined(model),
        ) <==> asks_for(c, name, model) && !c.models.contains_key(model),
{
}

/// A request is refused for want of providers exactly where its model is defined and
/// routed to none.
pub proof fn law_model_without_providers_refused(
    c: ConfigView,
    name: Seq<char>,
    process_env: Map<Seq<char>, Seq<char>>,
    model: Seq<char>,
)
    ensures
        c.data(name, process_env) == Err::<RequestDataView, DataErrorView>(
            DataErrorView::NoProviders(model),
        ) <==> asks_for(c, name, model) && c.models.contains_key(model)
            && c.models[model].routing.len() == 0,
{
}

/// A request is refused because of its provider exactly where the first provider of its
/// model is not defined, or is defined and has no url. The providers after the first
/// do not matter.
pub proof fn law_bad_provider_refused(
    c: ConfigView,
    name: Seq<char>,
    process_env: Map<Seq<char>, Seq<char>>,
    model: Seq<char>,
    provider: Seq<char>,
)
    requires
        asks_for(c, name, model),
    ensures
        c.data(name, process_env) == Err::<RequestDataView, DataErrorView>(
            DataErrorView::ProviderNotFound(provider),
        ) <==> c.models.contains_key(model) && c.models[model].routing.len() > 0
            && c.models[model].routing[0] == provider && !c.providers.contains_key(provider),
        c.data(name, process_env) == Err::<RequestDataView, DataErrorView>(
            DataErrorView::NoUrl(provider),
        ) <==> c.models.contains_key(model) && c.models[model].routing.len() > 0
            && c.models[model].routing[0] == provider && c.providers.contains_key(provider)
            && c.providers[provider].api_base is None,
{
}

/// A request has data exactly where it leads to a provider.
pub proof fn law_routed_where_it_leads(
    c: ConfigView,
    name: Seq<char>,
    process_env: Map<Seq<char>, Seq<char>>,
)
    ensures
        c.data(name, process_env) is Ok <==> exists|model: Seq<char>, provider: Seq<char>|
            leads_to(c, name, model, provider),
{
    let model = if c.variants.contains_key(name) {
        c.variants[name].model
    } else {
        name
    };
    if c.data(name, process_env) is Ok {
        assert(leads_to(c, name, model, c.models[model].routing[0]));
    }
}

/// A routed request goes to the url and the kind of its provider.
pub proof fn law_provider_reached(
    c: ConfigView,
    name: Seq<char>,
    process_env: Map<Seq<char>, Seq<char>>,
    model: Seq<char>,
    provider: Seq<char>,
)
    requires
        leads_to(c, name, model, provider),
    ensures
        c.data(name, process_env) is Ok,
        Some(c.data(name, process_env)->Ok_0.api_base) == c.providers[provider].api_base,
        c.data(name, process_env)->Ok_0.provider_kind == c.providers[provider].kind,
{
}

/// The model is asked for by the name that its settings for the provider give, however
/// many providers it is routed to, and by its own name where there are no such settings
/// or they give none.
pub proof fn law_model_name_at_provider(
    c: ConfigView,
    name: Seq<char>,
    process_env: Map<Seq<char>, Seq<char>>,
    model: Seq<char>,
    provider: Seq<char>,
)
    requires
        leads_to(c, name, model, provider),
    ensures
        ({
            let settings = c.models[model].providers;
            let sent = c.data(name, process_env)->Ok_0.model_name;
            &&& forall|own: Seq<char>|
                settings.contains_key(provider) && settings[provider].model_name == Some(own)
                    ==> sent == own
            &&& !settings.contains_key(provider) ==> sent == model
            &&& settings.contains_key(provider) && settings[provider].model_name is None
                ==> sent == model
        }),
{
}

/// The key that is sent is that of the provider. One that is spelled `env::` and a name
/// is the value of that variable: from the environment file where it sets the variable,
/// otherwise from the process, and empty where neither has it. A provider without a key
/// is sent an empty one.
pub proof fn law_key_sent(
    c: ConfigView,
    name: Seq<char>,
    process_env: Map<Seq<char>, Seq<char>>,
    model: Seq<char>,
    provider: Seq<char>,
    variable: Seq<char>,
)
    requires
        leads_to(c, name, model, provider),
    ensures
        ({
            let key = c.providers[provider].api_key;
            let sent = c.data(name, process_env)->Ok_0.api_key;
            &&& key is None ==> sent.len() == 0
            &&& key == Some("env::"@ + variable) && c.env.contains_key(variable) ==> sent
                == c.env[variable]
            &&& key == Some("env::"@ + variable) && !c.env.contains_key(variable)
                && process_env.contains_key(variable) ==> sent == process_env[variable]
            &&& key == Some("env::"@ + variable) && !c.env.contains_key(variable)
                && !process_env.contains_key(variable) ==> sent.len() == 0
            &&& key is Some && !begins_with(key->0, "env::"@) ==> sent == key->0
        }),
{
    let key = "env::"@ + variable;
    assert(key.take("env::"@.len() as int) =~= "env::"@);
    assert(key.skip("env::"@.len() as int) =~= variable);
    if c.providers[provider].api_key is Some {
        lemma_begins_with(c.providers[provider].api_key->0, "env::"@);
    }
}

/// `s` is `prefix` and something after it.
pub open spec fn begins_with(s: Seq<char>, prefix: Seq<char>) -> bool {
    exists|rest: Seq<char>| s == #[trigger] prefix.add(rest)
}

/// To begin with a text is to have it as prefix.
proof fn lemma_begins_with(s: Seq<char>, prefix: Seq<char>)
    ensures
        begins_with(s, prefix) <==> text::has_prefix(s, prefix),
{
    if text::has_prefix(s, prefix) {
        assert(s =~= prefix.add(s.skip(prefix.len() as int)));
    }
    if begins_with(s, prefix) {
        let rest = choose|rest: Seq<char>| s == #[trigger] prefix.add(rest);
        assert(prefix.add(rest).take(prefix.len() as int) =~= prefix);
    }
}

/// A text has a prefix exactly where it is the prefix and something after it, and what
/// is left when the prefix is taken off is what came after it.
pub proof fn law_prefix(prefix: Seq<char>, rest: Seq<char>, s: Seq<char>)
    ensures
        text::has_prefix(prefix + rest, prefix),
        (prefix + rest).skip(prefix.len() as int) == rest,
        text::has_prefix(s, prefix) <==> begins_with(s, prefix),
{
    assert((prefix + rest).take(prefix.len() as int) =~= prefix);
    assert((prefix + rest).skip(prefix.len() as int) =~= rest);
    lemma_begins_with(s, prefix);
}

/// The headers that are sent are those of the variant, those of the model's settings for
/// the provider and those of the model; where more than one of them sets a header, the
/// earlier in this list does.
pub proof fn law_headers_sent(
    c: ConfigView,
    name: Seq<char>,
    process_env: Map<Seq<char>, Seq<char>>,
    model: Seq<char>,
    provider: Seq<char>,
    header: Seq<char>,
)
    requires
        leads_to(c, name, model, provider),
    ensures
        ({
            let sent = c.data(name, process_env)->Ok_0.extra_headers;
            let settings = c.models[model].providers;
            let by_variant = c.variants.contains_key(name)
                && c.variants[name].extra_headers.contains_key(header);
            let by_settings = settings.contains_key(provider)
                && settings[provider].extra_headers.contains_key(header);
            let by_model = c.models[model].extra_headers.contains_key(header);
            &&& sent.contains_key(header) <==> by_variant || by_settings || by_model
            &&& by_variant ==> sent[header] == c.variants[name].extra_headers[header]
            &&& !by_variant && by_settings ==> sent[header]
                == settings[provider].extra_headers[header]
            &&& !by_variant && !by_settings && by_model ==> sent[header]
                == c.models[model].extra_headers[header]
        }),
{
}

/// The values that are added to the body are those of the model, then those of its
/// settings for the provider, then those of the variant, each at the place that it
/// names and with its value in JSON, and no others.
pub proof fn law_values_added(
    c: ConfigView,
    name: Seq<char>,
    process_env: Map<Seq<char>, Seq<char>>,
    model: Seq<char>,
    provider: Seq<char>,
    i: int,
)
    requires
        leads_to(c, name, model, provider),
    ensures
        ({
            let sent = c.data(name, process_env)->Ok_0.extra_body;
            let first = c.models[model].extra_body;
            let second = if c.models[model].providers.contains_key(provider) {
                c.models[model].providers[provider].extra_body
            } else {
                Seq::empty()
            };
            let third = if c.variants.contains_key(name) {
                c.variants[name].extra_body
            } else {
                Seq::empty()
            };
            &&& sent.len() == first.len() + second.len() + third.len()
            &&& 0 <= i < first.len() ==> sent[i].pointer == first[i].pointer && sent[i].value
                == toml_value::as_json(first[i].value)
            &&& 0 <= i < second.len() ==> sent[first.len() + i].pointer == second[i].pointer
                && sent[first.len() + i].value == toml_value::as_json(second[i].value)
            &&& 0 <= i < third.len() ==> sent[first.len() + second.len() + i].pointer
                == third[i].pointer && sent[first.len() + second.len() + i].value
                == toml_value::as_json(third[i].value)
        }),
{
}

/// The system prompt and its mode are those of the variant. A request for a model has no
/// system prompt.
pub proof fn law_prompt_of_variant(
    c: ConfigView,
    name: Seq<char>,
    process_env: Map<Seq<char>, Seq<char>>,
    model: Seq<char>,
    provider: Seq<char>,
)
    requires
        leads_to(c, name, model, provider),
    ensures
        ({
            let sent = c.data(name, process_env)->Ok_0;
            &&& c.variants.contains_key(name) ==> sent.system_prompt
                == c.variants[name].system_prompt && sent.system_prompt_mode
                == c.variants[name].system_prompt_mode
            &&& !c.variants.contains_key(name) ==> sent.system_prompt is None
                && sent.system_prompt_mode == PromptMode::Fallback
        }),
{
}

/// The temperature is that of the variant, and that of the model where the variant has
/// none.
pub proof fn law_temperature(
    c: ConfigView,
    name: Seq<char>,
    process_env: Map<Seq<char>, Seq<char>>,
    model: Seq<char>,
    provider: Seq<char>,
)
    requires
        leads_to(c, name, model, provider),
    ensures
        ({
            let sent = c.data(name, process_env)->Ok_0.temperature;
            &&& c.variants.contains_key(name) && c.variants[name].temperature is Some ==> sent
                == c.variants[name].temperature
            &&& c.variants.contains_key(name) && c.variants[name].temperature is None ==> sent
                == c.models[model].temperature
            &&& !c.variants.contains_key(name) ==> sent == c.models[model].temperature
        }),
{
}

/// What is not about a request does not change its data: other variants, other models,
/// other providers, the settings of its model for other providers and the providers
/// after the first, and how the server itself is reached.
pub proof fn law_rest_of_configuration_does_not_matter(
    c: ConfigView,
    d: ConfigView,
    name: Seq<char>,
    process_env: Map<Seq<char>, Seq<char>>,
    model: Seq<char>,
    provider: Seq<char>,
)
    requires
        leads_to(c, name, model, provider),
        leads_to(d, name, model, provider),
        c.variants.get(name) == d.variants.get(name),
        c.models[model].temperature == d.models[model].temperature,
        c.models[model].extra_headers == d.models[model].extra_headers,
        c.models[model].extra_body == d.models[model].extra_body,
        c.models[model].providers.get(provider) == d.models[model].providers.get(provider),
        c.providers[provider] == d.providers[provider],
        c.env == d.env,
    ensures
        c.data(name, process_env) == d.data(name, process_env),
{
}

/// The text of a refusal names what is wrong and where.
pub proof fn law_refusal_texts(name: Seq<char>)
    ensures
        DataErrorView::ModelNotDefined(name).message() == "Model "@ + name + " not defined"@,
        DataErrorView::NoProviders(name).message() == "Model "@ + name + " has no providers"@,
        DataErrorView::ProviderNotFound(name).message() == "Provider "@ + name + " not found"@,
        DataErrorView::NoUrl(name).message() == "No url specified for provider "@ + name,
{
}

/// A variable has the value that the environment file gives it, and otherwise that of
/// the process.
pub proof fn law_variable_looked_up(
    file_env: Map<Seq<char>, Seq<char>>,
    process_env: Map<Seq<char>, Seq<char>>,
    key: Seq<char>,
)
    ensures
        ({
            let found = config::env_value(file_env, process_env, key);
            &&& found is Some <==> file_env.contains_key(key) || process_env.contains_key(key)
            &&& file_env.contains_key(key) ==> found == Some(file_env[key])
            &&& !file_env.contains_key(key) && process_env.contains_key(key) ==> found == Some(
                process_env[key],
            )
        }),
{
}

/// The key of the application is what the configuration gives, and where that is
/// spelled `env::` and a name, the value of that variable of the process, if it has one.
/// The environment file does not matter for it.
pub proof fn law_application_key(
    c: ConfigView,
    process_env: Map<Seq<char>, Seq<char>>,
    variable: Seq<char>,
)
    ensures
        c.api_key is None ==> c.application_key(process_env) is None,
        c.api_key is Some && !begins_with(c.api_key->0, "env::"@) ==> c.application_key(process_env)
            == c.api_key,
        c.api_key == Some("env::"@ + variable) ==> {
            &&& c.application_key(process_env) is Some <==> process_env.contains_key(variable)
            &&& process_env.contains_key(variable) ==> c.application_key(process_env) == Some(
                process_env[variable],
            )
        },
{
    let key = "env::"@ + variable;
    assert(key.take("env::"@.len() as int) =~= "env::"@);
    assert(key.skip("env::"@.len() as int) =~= variable);
    if c.api_key is Some {
        lemma_begins_with(c.api_key->0, "env::"@);
    }
}

/// A configuration names the variables that a key of it is spelled with, after `env::`.
pub proof fn law_named_variables(c: ConfigView, v: Seq<char>)
    ensures
        c.names_variable(v) <==> c.api_key == Some("env::"@ + v) || exists|p: Seq<char>| #[trigger]
            c.providers.contains_key(p) && c.providers[p].api_key == Some("env::"@ + v),
{
    lemma_variable_of(c.api_key, v);
    assert forall|p: Seq<char>| #[trigger]
        c.providers.contains_key(p) implies config::variable_of(
        c.providers[p].api_key,
    ).contains(v) <==> c.providers[p].api_key == Some("env::"@ + v) by {
        lemma_variable_of(c.providers[p].api_key, v);
    }
}

/// The variable that a key names is what it is spelled with.
proof fn lemma_variable_of(key: Option<Seq<char>>, v: Seq<char>)
    ensures
        config::variable_of(key).contains(v) <==> key == Some("env::"@ + v),
{
    let spelled = "env::"@ + v;
    assert(spelled.take("env::"@.len() as int) =~= "env::"@);
    assert(spelled.skip("env::"@.len() as int) =~= v);
    if key is Some {
        let k = key->0;
        if text::has_prefix(k, "env::"@) {
            let rest = k.skip("env::"@.len() as int);
            assert(k =~= "env::"@ + rest);
            assert(config::variable_of(key)[0] == rest);
            if rest == v {
                assert(config::variable_of(key).contains(v));
            }
        }
        if k == spelled {
            assert(config::variable_of(key)[0] == v);
        }
    }
}

/// The variables that the providers of two lists name are those of the one and then
/// those of the other, and one provider names the variable that its key is spelled with.
pub proof fn law_provider_variables(
    a: Seq<(Seq<char>, ProviderView)>,
    b: Seq<(Seq<char>, ProviderView)>,
    one: (Seq<char>, ProviderView),
    v: Seq<char>,
)
    ensures
        config::provider_variables(a + b) == config::provider_variables(a)
            + config::provider_variables(b),
        one.1.api_key == Some("env::"@ + v) ==> config::provider_variables(seq![one]) == seq![v],
        one.1.api_key is None || !begins_with(one.1.api_key->0, "env::"@)
            ==> config::provider_variables(seq![one]).len() == 0,
    decreases b.len(),
{
    if b.len() == 0 {
        assert(a + b =~= a);
        assert(config::provider_variables(a) + config::provider_variables(b)
            =~= config::provider_variables(a));
    } else {
        law_provider_variables(a, b.drop_last(), one, v);
        assert((a + b).drop_last() =~= a + b.drop_last());
        assert(config::provider_variables(a + b) =~= config::provider_variables(a)
            + config::provider_variables(b));
    }
    reveal_with_fuel(config::provider_variables, 2);
    assert(seq![one].drop_last() =~= Seq::empty());
    let spelled = "env::"@ + v;
    assert(spelled.take("env::"@.len() as int) =~= "env::"@);
    assert(spelled.skip("env::"@.len() as int) =~= v);
    if one.1.api_key is Some {
        lemma_begins_with(one.1.api_key->0, "env::"@);
    }
    if one.1.api_key == Some(spelled) {
        assert(config::provider_variables(seq![one]) =~= seq![v]);
    }
}

/// The variables of an environment file are set where the configuration names such a
/// file and it could be read. Nothing else of the configuration changes.
pub proof fn law_environment_loaded(c: ConfigView, content: Option<Seq<char>>)
    ensures
        ({
            let d = c.with_env(content);
            &&& d.providers == c.providers
            &&& d.models == c.models
            &&& d.variants == c.variants
            &&& d.env_file == c.env_file
            &&& d.port == c.port
            &&& d.host == c.host
            &&& d.no_reload == c.no_reload
            &&& d.api_key == c.api_key
            &&& c.env_file is None || content is None ==> d.env == c.env
            &&& c.env_file is Some && content is Some ==> d.env == env_file::after_file(
                c.env,
                content->0,
            )
        }),
{
}

/// What the files of a configuration say is in force, but for the variables of its
/// environment file, and where they cannot be understood nothing is.
pub proof fn law_configuration_in_force(
    c: ConfigView,
    content: Option<Seq<char>>,
    name: Seq<char>,
    process_env: Map<Seq<char>, Seq<char>>,
)
    ensures
        ({
            let d = ConfigView::in_force(Some(c), content);
            &&& d.providers == c.providers
            &&& d.models == c.models
            &&& d.variants == c.variants
            &&& d.env_file == c.env_file
            &&& d.port == c.port
            &&& d.host == c.host
            &&& d.no_reload == c.no_reload
            &&& d.api_key == c.api_key
            &&& c.env_file is None || content is None ==> d.env == c.env
            &&& c.env_file is Some && content is Some ==> d.env == env_file::after_file(
                c.env,
                content->0,
            )
        }),
        ConfigView::in_force(None, content).data(name, process_env) == Err::<
            RequestDataView,
            DataErrorView,
        >(DataErrorView::ModelNotDefined(name)),
        ConfigView::in_force(None, content).env == Map::<Seq<char>, Seq<char>>::empty(),
{
}

/// The configuration in force where the files say nothing, or cannot be understood, has
/// no entries and no settings.
pub proof fn law_empty_configuration(name: Seq<char>)
    ensures
        ({
            let c = ConfigView::empty();
            &&& !c.providers.contains_key(name)
            &&& !c.models.contains_key(name)
            &&& !c.variants.contains_key(name)
            &&& !c.env.contains_key(name)
            &&& c.env_file is None
            &&& c.port is None
            &&& c.host is None
            &&& c.api_key is None
            &&& !c.no_reload
        }),
{
}

} // verus!
