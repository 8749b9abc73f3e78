//! What holds of the library as a whole.

use vstd::prelude::*;

use crate::chat;
use crate::chat::{ChatStepView, ExchangeView};
use crate::config;
use crate::config::{ConfigView, DataErrorView, PromptMode, RequestDataView};
use crate::env_file;
use crate::json::JsonView;
use crate::load;
use crate::pointer;
use crate::pointer::ExtraBodyJsonView;
use crate::template;
use crate::text;
use crate::toml_value;
use crate::toml_value::TomlView;
use crate::validate::ProblemView;
use crate::watcher;
use crate::watcher::ChangeView;

verus! {

/// In a configuration with which nothing is wrong, a request for any model or
/// variant can be routed, as long as its model has a provider at all.
pub proof fn law_valid_config_routes(
    c: ConfigView,
    failed: Seq<Seq<char>>,
    name: Seq<char>,
    process_env: Map<Seq<char>, Seq<char>>,
)
    requires
        c.valid(failed),
        c.serves(name),
        c.models[c.model_of(name)].routing.len() > 0,
    ensures
        c.data(name, process_env) == Ok::<RequestDataView, DataErrorView>(
            c.routed(name, process_env),
        ),
{
    let model = c.model_of(name);
    if c.variants.contains_key(name) {
        assert(!c.has_problem(failed, ProblemView::UnknownModel { variant: name, model }));
    }
    let provider = c.models[model].routing[0];
    assert(c.models[model].routing.contains(provider));
    assert(!c.has_problem(failed, ProblemView::UnknownProvider { model, provider }));
    assert(!c.has_problem(failed, ProblemView::NoApiBase { provider }));
}

/// A name that is neither a model nor a variant is refused, and the answer says
/// which name it was.
pub proof fn law_unknown_name_refused(
    c: ConfigView,
    body: JsonView,
    process_env: Map<Seq<char>, Seq<char>>,
)
    requires
        !c.serves(chat::requested_name(body)),
    ensures
        chat::first_step(c, body, process_env) == (ChatStepView::Reject {
            status: 404,
            body: chat::error_document(
                DataErrorView::ModelNotDefined(chat::requested_name(body)),
            ),
        }),
{
}

/// Every request that cannot be routed is answered with status 404 and a document
/// whose only member, `error`, is a text that gives the reason.
pub proof fn law_refusal_document(
    c: ConfigView,
    body: JsonView,
    process_env: Map<Seq<char>, Seq<char>>,
    e: DataErrorView,
)
    requires
        c.refusal(chat::requested_name(body)) == Some(e),
    ensures
        chat::first_step(c, body, process_env) == (ChatStepView::Reject {
            status: 404,
            body: chat::error_document(e),
        }),
        chat::error_document(e).member("error"@) == Some(
            JsonView::Text("Error extracting model data: "@ + e.message()),
        ),
        forall|k: Seq<char>| k != "error"@ ==> (#[trigger] chat::error_document(e).member(k)) is None,
{
}

/// The configuration that says nothing serves no request.
pub proof fn law_empty_config_refuses(name: Seq<char>, process_env: Map<Seq<char>, Seq<char>>)
    ensures
        ConfigView::empty().data(name, process_env) == Err::<RequestDataView, DataErrorView>(
            DataErrorView::ModelNotDefined(name),
        ),
{
}

/// A variant is routed as its model is: to the same provider, by the same name
/// and with the same key, or it is refused for the same reason. Left out are
/// variants of a model whose name is itself the name of a variant, since a request
/// for that name is a request for the other variant.
pub proof fn law_variant_routed_as_model(
    c: ConfigView,
    variant: Seq<char>,
    process_env: Map<Seq<char>, Seq<char>>,
)
    requires
        c.variants.contains_key(variant),
        !c.variants.contains_key(c.variants[variant].model),
    ensures
        match (
            c.data(variant, process_env),
            c.data(c.variants[variant].model, process_env),
        ) {
            (Ok(v), Ok(m)) => {
                &&& v.provider_kind == m.provider_kind
                &&& v.api_base == m.api_base
                &&& v.api_key == m.api_key
                &&& v.model_name == m.model_name
            },
            (Err(a), Err(b)) => a == b,
            _ => false,
        },
{
}

/// A variant that sets nothing of its own is sent as its model is, in every respect.
/// Left out are variants of a model whose name is itself the name of a variant.
pub proof fn law_bare_variant_is_its_model(
    c: ConfigView,
    variant: Seq<char>,
    process_env: Map<Seq<char>, Seq<char>>,
)
    requires
        c.variants.contains_key(variant),
        !c.variants.contains_key(c.variants[variant].model),
        c.variants[variant].system_prompt is None,
        c.variants[variant].system_prompt_mode == PromptMode::Fallback,
        c.variants[variant].extra_headers == Map::<Seq<char>, Seq<char>>::empty(),
        c.variants[variant].extra_body.len() == 0,
        c.variants[variant].temperature is None,
    ensures
        c.data(variant, process_env) == c.data(c.variants[variant].model, process_env),
{
    let v = c.routed(variant, process_env);
    let m = c.routed(c.variants[variant].model, process_env);
    assert(v.extra_body =~= m.extra_body);
    assert(v.extra_headers =~= m.extra_headers);
}

/// A header is sent as the variant sets it; where the variant does not, as the
/// model sets it for the provider; where that does not either, as the model sets
/// it; and no other header is added.
pub proof fn law_header_precedence(
    c: ConfigView,
    name: Seq<char>,
    process_env: Map<Seq<char>, Seq<char>>,
    header: Seq<char>,
)
    requires
        c.refusal(name) is None,
    ensures
        ({
            let sent = c.data(name, process_env)->Ok_0.extra_headers;
            let model = c.models[c.model_of(name)];
            let local = model.providers.get(model.routing[0]);
            let variant = c.variants.get(name);
            if variant is Some && variant->0.extra_headers.contains_key(header) {
                sent.get(header) == Some(variant->0.extra_headers[header])
            } else if local is Some && local->0.extra_headers.contains_key(header) {
                sent.get(header) == Some(local->0.extra_headers[header])
            } else {
                sent.get(header) == model.extra_headers.get(header)
            }
        }),
{
}

/// Where the environment file sets a variable, the environment of the process does
/// not matter: a provider's key that names the variable is the value from the file.
pub proof fn law_env_file_shadows_process(
    c: ConfigView,
    name: Seq<char>,
    variable: Seq<char>,
    a: Map<Seq<char>, Seq<char>>,
    b: Map<Seq<char>, Seq<char>>,
)
    requires
        c.env.contains_key(variable),
        c.refusal(name) is None,
        c.providers[c.models[c.model_of(name)].routing[0]].api_key == Some(
            config::env_prefix() + variable,
        ),
    ensures
        c.data(name, a) == c.data(name, b),
        c.data(name, a)->Ok_0.api_key == c.env[variable],
{
    let key = config::env_prefix() + variable;
    assert(key.take(config::env_prefix().len() as int) =~= config::env_prefix());
    assert(key.skip(config::env_prefix().len() as int) =~= variable);
}

/// Of the environment of the process, only the variables that keys of the
/// configuration name matter.
pub proof fn law_only_named_variables_matter(
    c: ConfigView,
    name: Seq<char>,
    a: Map<Seq<char>, Seq<char>>,
    b: Map<Seq<char>, Seq<char>>,
)
    requires
        forall|v: Seq<char>| #[trigger] c.names_variable(v) ==> a.get(v) == b.get(v),
    ensures
        c.data(name, a) == c.data(name, b),
        c.application_key(a) == c.application_key(b),
{
    let own = config::variable_of(c.api_key);
    if own.len() > 0 {
        assert(own.contains(own[0]));
        assert(c.names_variable(own[0]));
    }
    if c.refusal(name) is None {
        let p = c.models[c.model_of(name)].routing[0];
        let named = config::variable_of(c.providers[p].api_key);
        if named.len() > 0 {
            assert(named.contains(named[0]));
            assert(c.names_variable(named[0]));
        }
    }
}

/// A key that does not begin with `env::` is sent as it stands, whatever the
/// environment.
pub proof fn law_plain_key_sent(
    c: ConfigView,
    name: Seq<char>,
    key: Seq<char>,
    process_env: Map<Seq<char>, Seq<char>>,
)
    requires
        c.refusal(name) is None,
        c.providers[c.models[c.model_of(name)].routing[0]].api_key == Some(key),
        !text::has_prefix(key, config::env_prefix()),
    ensures
        c.data(name, process_env)->Ok_0.api_key == key,
{
}

/// The members of a table become members of the same names in JSON, and no
/// others.
pub proof fn law_toml_members(m: Map<Seq<char>, TomlView>, k: Seq<char>)
    ensures
        toml_value::as_json(TomlView::Table(m)).member(k) == (if m.contains_key(k) {
            Some(toml_value::as_json(m[k]))
        } else {
            None
        }),
{
}

/// Nothing that comes from TOML is null in JSON, nor holds a null at any depth.
pub proof fn law_toml_no_null(t: TomlView, path: Seq<Seq<char>>)
    ensures
        pointer::value_at(toml_value::as_json(t), path) != Some(JsonView::Null),
    decreases path.len(),
{
    if path.len() > 0 {
        let rest = path.drop_first();
        match t {
            TomlView::Array(elements) => {
                if let Some(i) = pointer::numeral(path[0]) {
                    if i < elements.len() {
                        law_toml_no_null(elements[i as int], rest);
                    }
                }
            },
            TomlView::Table(m) => {
                if m.contains_key(path[0]) {
                    law_toml_no_null(m[path[0]], rest);
                }
            },
            _ => {},
        }
    }
}

/// A numeral is read as the number that it is of.
proof fn lemma_numeral(i: nat)
    ensures
        pointer::numeral(text::decimal(i)) == Some(i),
{
    let name = text::decimal(i);
    let k = choose|k: nat| #[trigger] text::decimal(k) == name;
    assert(text::decimal(k) == name);
    text::lemma_decimal_apart(i, k);
}

/// The numeral of zero.
proof fn lemma_zero()
    ensures
        "0"@ == text::decimal(0),
        "0"@ != "-"@,
        pointer::numeral("0"@) == Some(0nat),
{
    reveal_strlit("0");
    reveal_strlit("-");
    assert("0"@ =~= text::decimal(0));
    assert("0"@[0] == '0' && "-"@[0] == '-');
    lemma_numeral(0);
}

/// The path that leads to a value made for `path`: the item of an array that `-` asks
/// for is its first.
pub open spec fn made_path(path: Seq<Seq<char>>) -> Seq<Seq<char>> {
    path.map_values(
        |name: Seq<char>|
            if name == "-"@ {
                "0"@
            } else {
                name
            },
    )
}

/// The path that leads to a value once it is assigned at the end of `path`: the path
/// itself, but for `-` where it asks for a new item of an array, which is then found
/// by its position.
pub open spec fn landing(dest: JsonView, path: Seq<Seq<char>>) -> Seq<Seq<char>>
    decreases path.len(),
{
    if path.len() == 0 {
        path
    } else {
        let rest = path.drop_first();
        match pointer::part(dest, path[0]) {
            Some(below) => seq![path[0]] + landing(below, rest),
            None => match dest {
                JsonView::Array(items) => seq![
                    if path[0] == "-"@ {
                        text::decimal(items.len())
                    } else {
                        path[0]
                    },
                ] + made_path(rest),
                JsonView::Object(_) => seq![path[0]] + made_path(rest),
                _ => made_path(path),
            },
        }
    }
}

/// A value is found below the first name of a path.
proof fn lemma_value_below(dest: JsonView, name: Seq<char>, rest: Seq<Seq<char>>)
    ensures
        pointer::value_at(dest, seq![name] + rest) == (match pointer::part(dest, name) {
            Some(below) => pointer::value_at(below, rest),
            None => None,
        }),
{
    assert((seq![name] + rest).drop_first() =~= rest);
}

/// `-` is no position that an array has.
proof fn lemma_dash(items: Seq<JsonView>)
    ensures
        pointer::numeral("-"@) is None,
        pointer::part(JsonView::Array(items), "-"@) is None,
{
    reveal_strlit("-");
    assert forall|i: nat| #[trigger] text::decimal(i) != "-"@ by {
        text::lemma_decimal_digits(i);
        assert("-"@[0] == '-');
    }
}

/// A made document has the value at the end of the path that it was made for.
proof fn lemma_expanded_found(path: Seq<Seq<char>>, value: JsonView)
    ensures
        pointer::value_at(pointer::expanded(path, value), made_path(path)) == Some(value),
    decreases path.len(),
{
    if path.len() > 0 {
        let rest = path.drop_first();
        lemma_zero();
        lemma_expanded_found(rest, value);
        assert(made_path(path) =~= seq![made_path(path)[0]] + made_path(rest));
        lemma_value_below(pointer::expanded(path, value), made_path(path)[0], made_path(rest));
    } else {
        assert(made_path(path) =~= path);
    }
}

/// What was assigned is found where it landed.
pub proof fn law_assigned_found(dest: JsonView, path: Seq<Seq<char>>, value: JsonView)
    ensures
        pointer::assigned(dest, path, value) matches Some(after) ==> pointer::value_at(
            after,
            landing(dest, path),
        ) == Some(value),
    decreases path.len(),
{
    if path.len() > 0 && pointer::assigned(dest, path, value) is Some {
        let after = pointer::assigned(dest, path, value)->0;
        let name = path[0];
        let rest = path.drop_first();
        match dest {
            JsonView::Array(items) => {
                lemma_dash(items);
                let i = pointer::slot(name, items.len())->0;
                if i < items.len() {
                    law_assigned_found(items[i as int], rest, value);
                    lemma_value_below(after, name, landing(items[i as int], rest));
                } else {
                    let shown = if name == "-"@ {
                        text::decimal(items.len())
                    } else {
                        name
                    };
                    lemma_numeral(items.len());
                    lemma_expanded_found(rest, value);
                    lemma_value_below(after, shown, made_path(rest));
                }
            },
            JsonView::Object(m) => {
                if m.contains_key(name) {
                    law_assigned_found(m[name], rest, value);
                    lemma_value_below(after, name, landing(m[name], rest));
                } else {
                    lemma_expanded_found(rest, value);
                    lemma_value_below(after, name, made_path(rest));
                }
            },
            _ => {
                lemma_expanded_found(path, value);
            },
        }
    }
}

/// Where no name of a path is `-`, a value that is assigned at its end is found at
/// its end.
pub proof fn law_assigned_found_there(dest: JsonView, path: Seq<Seq<char>>, value: JsonView)
    requires
        !path.contains("-"@),
    ensures
        pointer::assigned(dest, path, value) matches Some(after) ==> pointer::value_at(after, path)
            == Some(value),
{
    lemma_landing_plain(dest, path);
    law_assigned_found(dest, path, value);
}

/// Without `-`, a value lands at the end of its path.
proof fn lemma_landing_plain(dest: JsonView, path: Seq<Seq<char>>)
    requires
        !path.contains("-"@),
    ensures
        landing(dest, path) == path,
        made_path(path) == path,
    decreases path.len(),
{
    assert forall|i: int| 0 <= i < path.len() implies path[i] != "-"@ by {
        assert(path.contains(path[i]));
    }
    assert(made_path(path) =~= path);
    if path.len() > 0 {
        let rest = path.drop_first();
        assert forall|i: int| 0 <= i < rest.len() implies rest[i] != "-"@ by {
            assert(rest[i] == path[i + 1]);
        }
        assert(path =~= seq![path[0]] + rest);
        assert(made_path(rest) =~= rest);
        if let Some(below) = pointer::part(dest, path[0]) {
            lemma_landing_plain(below, rest);
        }
    }
}

/// Neither path leads through the end of the other.
pub open spec fn apart(p: Seq<Seq<char>>, q: Seq<Seq<char>>) -> bool {
    !p.is_prefix_of(q) && !q.is_prefix_of(p)
}

/// Paths that are apart have a first name each, and where it is the same they are
/// apart below it.
proof fn lemma_apart_below(p: Seq<Seq<char>>, q: Seq<Seq<char>>)
    requires
        apart(p, q),
    ensures
        p.len() > 0,
        q.len() > 0,
        p[0] == q[0] ==> apart(p.drop_first(), q.drop_first()),
{
    let a = p.drop_first();
    let b = q.drop_first();
    if p[0] == q[0] {
        assert(p =~= seq![p[0]] + a);
        assert(q =~= seq![q[0]] + b);
        if a.is_prefix_of(b) {
            assert(p =~= q.subrange(0, p.len() as int));
        }
        if b.is_prefix_of(a) {
            assert(q =~= p.subrange(0, q.len() as int));
        }
    }
}

/// A made document has nothing apart from the path that it was made for.
proof fn lemma_expanded_elsewhere(
    path: Seq<Seq<char>>,
    value: JsonView,
    other: Seq<Seq<char>>,
)
    requires
        apart(made_path(path), other),
    ensures
        pointer::value_at(pointer::expanded(path, value), other) is None,
    decreases path.len(),
{
    lemma_apart_below(made_path(path), other);
    lemma_zero();
    let rest = path.drop_first();
    assert(made_path(path).drop_first() =~= made_path(rest));
    if made_path(path)[0] == other[0] {
        lemma_expanded_elsewhere(rest, value, other.drop_first());
    }
}

/// What a document has at the end of a path does not change when a value is assigned
/// that lands apart from it.
pub proof fn law_assigned_elsewhere(
    dest: JsonView,
    path: Seq<Seq<char>>,
    value: JsonView,
    other: Seq<Seq<char>>,
)
    requires
        apart(landing(dest, path), other),
    ensures
        pointer::assigned(dest, path, value) matches Some(after) ==> pointer::value_at(after, other)
            == pointer::value_at(dest, other),
    decreases path.len(),
{
    let there = landing(dest, path);
    lemma_apart_below(there, other);
    if pointer::assigned(dest, path, value) is Some {
        let after = pointer::assigned(dest, path, value)->0;
        let name = path[0];
        let rest = path.drop_first();
        let below = other.drop_first();
        match dest {
            JsonView::Array(items) => {
                lemma_dash(items);
                lemma_numeral(items.len());
                let i = pointer::slot(name, items.len())->0;
                if i < items.len() {
                    assert(there.drop_first() =~= landing(items[i as int], rest));
                    if name == other[0] {
                        law_assigned_elsewhere(items[i as int], rest, value, below);
                    }
                } else {
                    assert(there.drop_first() =~= made_path(rest));
                    if there[0] == other[0] {
                        lemma_expanded_elsewhere(rest, value, below);
                    }
                }
            },
            JsonView::Object(m) => {
                if m.contains_key(name) {
                    assert(there.drop_first() =~= landing(m[name], rest));
                    if name == other[0] {
                        law_assigned_elsewhere(m[name], rest, value, below);
                    }
                } else {
                    assert(there.drop_first() =~= made_path(rest));
                    if name == other[0] {
                        lemma_expanded_elsewhere(rest, value, below);
                    }
                }
            },
            _ => {
                lemma_expanded_elsewhere(path, value, other);
            },
        }
    }
}

/// An array that the path leads to has no position of the next name.
pub open spec fn refused(dest: JsonView, path: Seq<Seq<char>>) -> bool {
    exists|n: int|
        0 <= n < path.len() && (#[trigger] pointer::value_at(dest, path.take(n)) matches Some(
            JsonView::Array(items),
        ) && pointer::slot(path[n], items.len()) is None)
}

/// A value can be assigned unless an array on the path refuses it.
pub proof fn law_assigned_unless_refused(dest: JsonView, path: Seq<Seq<char>>, value: JsonView)
    ensures
        pointer::assigned(dest, path, value) is None <==> refused(dest, path),
    decreases path.len(),
{
    if path.len() > 0 {
        let name = path[0];
        let rest = path.drop_first();
        assert(path.take(0) =~= Seq::empty());
        assert(pointer::value_at(dest, path.take(0)) == Some(dest));
        assert forall|n: int| 0 <= n < rest.len() implies #[trigger] path.take(n + 1) == seq![name]
            + rest.take(n) by {
            assert(path.take(n + 1) =~= seq![name] + rest.take(n));
        }
        if let JsonView::Array(items) = dest {
            lemma_dash(items);
        }
        if let Some(below) = pointer::part(dest, name) {
            law_assigned_unless_refused(below, rest, value);
            if refused(below, rest) {
                let n = choose|n: int|
                    0 <= n < rest.len() && (#[trigger] pointer::value_at(
                        below,
                        rest.take(n),
                    ) matches Some(JsonView::Array(items)) && pointer::slot(rest[n], items.len())
                        is None);
                assert(path.take(n + 1) == seq![name] + rest.take(n));
                lemma_value_below(dest, name, rest.take(n));
                assert(path[n + 1] == rest[n]);
                assert(pointer::value_at(dest, path.take(n + 1)) == pointer::value_at(
                    below,
                    rest.take(n),
                ));
            }
        }
        if refused(dest, path) {
            let n = choose|n: int|
                0 <= n < path.len() && (#[trigger] pointer::value_at(dest, path.take(n)) matches Some(
                    JsonView::Array(items),
                ) && pointer::slot(path[n], items.len()) is None);
            if n > 0 {
                assert(path.take((n - 1) + 1) == seq![name] + rest.take(n - 1));
                lemma_value_below(dest, name, rest.take(n - 1));
                assert(path[n] == rest[n - 1]);
                assert(pointer::part(dest, name) is Some);
                assert(pointer::value_at(pointer::part(dest, name)->0, rest.take(n - 1))
                    == pointer::value_at(dest, path.take(n)));
            }
        }
    }
}

/// Where the value at `j` lands among those that a list adds to a document.
pub open spec fn extra_landing(body: JsonView, extras: Seq<ExtraBodyJsonView>, j: int) -> Seq<
    Seq<char>,
> {
    landing(pointer::extended(body, extras.take(j))->0, pointer::path(extras[j].pointer))
}

/// A list without its last value adds what it added before.
proof fn lemma_extended_init(body: JsonView, extras: Seq<ExtraBodyJsonView>)
    requires
        extras.len() > 0,
    ensures
        pointer::extended(body, extras) is Some ==> pointer::extended(body, extras.drop_last())
            is Some,
        extra_landing(body, extras, extras.len() - 1) == landing(
            pointer::extended(body, extras.drop_last())->0,
            pointer::path(extras.last().pointer),
        ),
        forall|j: int|
            0 <= j < extras.len() - 1 ==> #[trigger] extra_landing(body, extras.drop_last(), j)
                == extra_landing(body, extras, j),
{
    let init = extras.drop_last();
    assert(extras.take(extras.len() - 1) =~= init);
    assert forall|j: int| 0 <= j < init.len() implies #[trigger] extra_landing(body, init, j)
        == extra_landing(body, extras, j) by {
        assert(init.take(j) =~= extras.take(j));
        assert(init[j] == extras[j]);
    }
}

/// A value that the configuration puts into a request by a JSON pointer is found
/// there, in place of what the request had, unless a later value goes to the same
/// place, above it or below it.
pub proof fn law_last_extra_wins(body: JsonView, extras: Seq<ExtraBodyJsonView>, i: int)
    requires
        pointer::extended(body, extras) is Some,
        0 <= i < extras.len(),
        pointer::valid_pointer(extras[i].pointer),
        forall|j: int|
            i < j < extras.len() && pointer::valid_pointer(extras[j].pointer) ==> apart(
                #[trigger] extra_landing(body, extras, j),
                extra_landing(body, extras, i),
            ),
    ensures
        pointer::value_at(
            pointer::extended(body, extras)->0,
            extra_landing(body, extras, i),
        ) == Some(extras[i].value),
    decreases extras.len(),
{
    let init = extras.drop_last();
    let last = extras.last();
    let before = pointer::extended(body, init)->0;
    lemma_extended_init(body, extras);
    if i < extras.len() - 1 {
        assert(init[i] == extras[i]);
        assert(extra_landing(body, init, i) == extra_landing(body, extras, i));
        assert forall|j: int|
            i < j < init.len() && pointer::valid_pointer(init[j].pointer) implies apart(
            #[trigger] extra_landing(body, init, j),
            extra_landing(body, init, i),
        ) by {
            assert(init[j] == extras[j]);
            assert(extra_landing(body, init, j) == extra_landing(body, extras, j));
        }
        law_last_extra_wins(body, init, i);
        if pointer::valid_pointer(last.pointer) {
            assert(extras[extras.len() - 1] == last);
            assert(apart(
                extra_landing(body, extras, extras.len() - 1),
                extra_landing(body, extras, i),
            ));
            law_assigned_elsewhere(
                before,
                pointer::path(last.pointer),
                last.value,
                extra_landing(body, extras, i),
            );
        }
    } else {
        law_assigned_found(before, pointer::path(last.pointer), last.value);
    }
}

/// What a request has at the end of a path is sent as it came where the
/// configuration puts nothing there, above it or below it.
pub proof fn law_rest_of_body_kept(
    body: JsonView,
    extras: Seq<ExtraBodyJsonView>,
    place: Seq<Seq<char>>,
)
    requires
        pointer::extended(body, extras) is Some,
        forall|j: int|
            0 <= j < extras.len() && pointer::valid_pointer(extras[j].pointer) ==> apart(
                #[trigger] extra_landing(body, extras, j),
                place,
            ),
    ensures
        pointer::value_at(pointer::extended(body, extras)->0, place) == pointer::value_at(
            body,
            place,
        ),
    decreases extras.len(),
{
    if extras.len() > 0 {
        let init = extras.drop_last();
        let last = extras.last();
        lemma_extended_init(body, extras);
        assert forall|j: int|
            0 <= j < init.len() && pointer::valid_pointer(init[j].pointer) implies apart(
            #[trigger] extra_landing(body, init, j),
            place,
        ) by {
            assert(init[j] == extras[j]);
            assert(extra_landing(body, init, j) == extra_landing(body, extras, j));
        }
        law_rest_of_body_kept(body, init, place);
        if pointer::valid_pointer(last.pointer) {
            assert(extras[extras.len() - 1] == last);
            assert(apart(extra_landing(body, extras, extras.len() - 1), place));
            law_assigned_elsewhere(
                pointer::extended(body, init)->0,
                pointer::path(last.pointer),
                last.value,
                place,
            );
        }
    }
}

/// No value of a list goes to the member `name` of a document, below it, or to the
/// document as a whole.
pub open spec fn spares(extras: Seq<ExtraBodyJsonView>, name: Seq<char>) -> bool {
    forall|j: int|
        0 <= j < extras.len() && pointer::valid_pointer((#[trigger] extras[j]).pointer)
            ==> extras[j].pointer.len() > 0 && pointer::path(extras[j].pointer)[0] != name
}

/// A JSON pointer that is not empty has a first name.
proof fn lemma_path_some(pointer: Seq<char>)
    requires
        pointer::valid_pointer(pointer),
        pointer.len() > 0,
    ensures
        pointer::path(pointer).len() > 0,
{
    let none = Seq::<char>::empty();
    let rest = pointer.skip(1);
    assert(pointer =~= none.push('/') + rest);
    text::lemma_split_concat(none, '/', rest);
    text::lemma_split_none(none, '/');
    text::lemma_split_some(rest, '/');
}

/// A member of a request that no value of the configuration goes to is sent as it
/// came, or left out where it was missing, wherever in the other members the values
/// go.
pub proof fn law_spared_member_kept(
    body: JsonView,
    extras: Seq<ExtraBodyJsonView>,
    name: Seq<char>,
)
    requires
        body is Object,
        spares(extras, name),
    ensures
        pointer::extended(body, extras) matches Some(after) ==> after is Object && after.member(
            name,
        ) == body.member(name),
    decreases extras.len(),
{
    if extras.len() > 0 && pointer::extended(body, extras) is Some {
        let init = extras.drop_last();
        let last = extras.last();
        assert forall|j: int|
            0 <= j < init.len() && pointer::valid_pointer(
                (#[trigger] init[j]).pointer,
            ) implies init[j].pointer.len() > 0 && pointer::path(init[j].pointer)[0] != name by {
            assert(init[j] == extras[j]);
        }
        law_spared_member_kept(body, init, name);
        if pointer::valid_pointer(last.pointer) {
            assert(extras[extras.len() - 1] == last);
            lemma_path_some(last.pointer);
        }
    }
}

/// The values of a list can all be added unless one of them is refused.
pub proof fn law_extended_unless_refused(body: JsonView, extras: Seq<ExtraBodyJsonView>)
    ensures
        pointer::extended(body, extras) is None <==> exists|j: int|
            0 <= j < extras.len() && pointer::valid_pointer(
                (#[trigger] extras[j]).pointer,
            ) && pointer::extended(body, extras.take(j)) is Some && refused(
                pointer::extended(body, extras.take(j))->0,
                pointer::path(extras[j].pointer),
            ),
    decreases extras.len(),
{
    if extras.len() > 0 {
        let init = extras.drop_last();
        let last = extras.last();
        law_extended_unless_refused(body, init);
        assert(extras.take(extras.len() - 1) =~= init);
        assert(extras[extras.len() - 1] == last);
        if pointer::extended(body, init) is Some {
            law_assigned_unless_refused(
                pointer::extended(body, init)->0,
                pointer::path(last.pointer),
                last.value,
            );
        }
        assert forall|j: int| 0 <= j < init.len() implies #[trigger] init[j] == extras[j]
            && init.take(j) == extras.take(j) by {
            assert(init.take(j) =~= extras.take(j));
        }
        if pointer::extended(body, init) is None {
            let j = choose|j: int|
                0 <= j < init.len() && pointer::valid_pointer(
                    (#[trigger] init[j]).pointer,
                ) && pointer::extended(body, init.take(j)) is Some && refused(
                    pointer::extended(body, init.take(j))->0,
                    pointer::path(init[j].pointer),
                );
            assert(init[j] == extras[j]);
        }
        if exists|j: int|
            0 <= j < extras.len() && pointer::valid_pointer(
                (#[trigger] extras[j]).pointer,
            ) && pointer::extended(body, extras.take(j)) is Some && refused(
                pointer::extended(body, extras.take(j))->0,
                pointer::path(extras[j].pointer),
            ) {
            let j = choose|j: int|
                0 <= j < extras.len() && pointer::valid_pointer(
                    (#[trigger] extras[j]).pointer,
                ) && pointer::extended(body, extras.take(j)) is Some && refused(
                    pointer::extended(body, extras.take(j))->0,
                    pointer::path(extras[j].pointer),
                );
            if j < init.len() {
                assert(init[j] == extras[j]);
            }
        }
    }
}

/// A name as a JSON pointer spells it: with `~0` for a tilde and `~1` for a slash.
pub open spec fn escaped(name: Seq<char>) -> Seq<char>
    decreases name.len(),
{
    if name.len() == 0 {
        Seq::empty()
    } else {
        let first = if name[0] == '~' {
            seq!['~', '0']
        } else if name[0] == '/' {
            seq!['~', '1']
        } else {
            seq![name[0]]
        };
        first + escaped(name.skip(1))
    }
}

/// To spell a name and to read it gives it back, and what is spelled is one part of
/// a JSON pointer.
pub proof fn lemma_escaped(name: Seq<char>)
    ensures
        pointer::unescaped(escaped(name)) == name,
        !escaped(name).contains('/'),
        pointer::valid_pointer(seq!['/'] + escaped(name)),
    decreases name.len(),
{
    let e = escaped(name);
    if name.len() > 0 {
        let rest = escaped(name.skip(1));
        lemma_escaped(name.skip(1));
        let n = e.len() - rest.len();
        assert(e.skip(n) =~= rest);
        assert(name =~= seq![name[0]] + name.skip(1));
        assert(pointer::unescaped(e) =~= name);
        assert forall|i: int| 0 <= i < e.len() implies e[i] != '/' by {
            if i >= n {
                assert(e[i] == rest[i - n]);
                assert(rest.contains(rest[i - n]));
            }
        }
        let p = seq!['/'] + e;
        let q = seq!['/'] + rest;
        assert forall|i: int| 0 <= i < p.len() && (#[trigger] p[i]) == '~' implies i + 1 < p.len()
            && (p[i + 1] == '0' || p[i + 1] == '1') by {
            if i > n {
                assert(q[i - n] == p[i]);
                assert(q[i - n + 1] == p[i + 1]);
            }
        }
    }
}

/// The pointer of a slash and a name, with its tildes and slashes escaped, leads to
/// the member of that name, and in an object a value can be assigned there.
pub proof fn law_member_pointer(m: Map<Seq<char>, JsonView>, name: Seq<char>, value: JsonView)
    ensures
        pointer::path(seq!['/'] + escaped(name)) == seq![name],
        pointer::valid_pointer(seq!['/'] + escaped(name)),
        pointer::assigned(
            JsonView::Object(m),
            pointer::path(seq!['/'] + escaped(name)),
            value,
        ) == Some(JsonView::Object(m.insert(name, value))),
{
    let e = escaped(name);
    let p = seq!['/'] + e;
    let none = Seq::<char>::empty();
    lemma_escaped(name);
    assert(p =~= none.push('/') + e);
    text::lemma_split_concat(none, '/', e);
    text::lemma_split_none(none, '/');
    text::lemma_split_none(e, '/');
    assert(text::split(p, '/').skip(1) =~= seq![e]);
    assert(pointer::path(p) =~= seq![name]);
    reveal_with_fuel(pointer::assigned, 2);
    reveal_with_fuel(pointer::expanded, 2);
}

/// The numeral of a position that an array has leads to the item there.
pub proof fn law_item_part(items: Seq<JsonView>, i: nat)
    requires
        i < items.len(),
    ensures
        pointer::part(JsonView::Array(items), text::decimal(i)) == Some(items[i as int]),
{
    lemma_numeral(i);
}

/// The values of a variant are added after those of its model, so that what the
/// variant puts somewhere last is what is sent there.
pub proof fn law_variant_extra_wins(
    c: ConfigView,
    name: Seq<char>,
    process_env: Map<Seq<char>, Seq<char>>,
    body: JsonView,
    i: int,
)
    requires
        c.refusal(name) is None,
        c.variants.contains_key(name),
        pointer::extended(body, c.data(name, process_env)->Ok_0.extra_body) is Some,
        0 <= i < c.variants[name].extra_body.len(),
        pointer::valid_pointer(c.variants[name].extra_body[i].pointer),
        ({
            let extras = c.data(name, process_env)->Ok_0.extra_body;
            let n = extras.len() - c.variants[name].extra_body.len();
            forall|j: int|
                n + i < j < extras.len() && pointer::valid_pointer(extras[j].pointer) ==> apart(
                    #[trigger] extra_landing(body, extras, j),
                    extra_landing(body, extras, n + i),
                )
        }),
    ensures
        ({
            let extras = c.data(name, process_env)->Ok_0.extra_body;
            let n = extras.len() - c.variants[name].extra_body.len();
            &&& pointer::path(extras[n + i].pointer) == pointer::path(
                c.variants[name].extra_body[i].pointer,
            )
            &&& pointer::value_at(
                pointer::extended(body, extras)->0,
                extra_landing(body, extras, n + i),
            ) == Some(toml_value::as_json(c.variants[name].extra_body[i].value))
        }),
{
    let extras = c.data(name, process_env)->Ok_0.extra_body;
    let own = c.variants[name].extra_body;
    let n = extras.len() - own.len();
    assert(extras[n + i] == own[i].as_json());
    law_last_extra_wins(body, extras, n + i);
}

/// A request that can be routed asks its provider for the model by the name that
/// the provider has for it, and keeps all its other members until a system prompt
/// is put into it.
pub proof fn law_model_name_set(body: JsonView, data: RequestDataView, k: Seq<char>)
    requires
        body is Object,
    ensures
        ({
            let exchange = match chat::routed_step(body, data) {
                ChatStepView::Render { exchange, .. } => exchange,
                ChatStepView::Ready { exchange } => exchange,
                ChatStepView::Reject { .. } => arbitrary(),
            };
            &&& chat::routed_step(body, data) !is Reject
            &&& exchange.data == data
            &&& exchange.body.member("model"@) == Some(JsonView::Text(data.model_name))
            &&& k != "model"@ ==> exchange.body.member(k) == body.member(k)
        }),
{
}

/// A new system prompt is the first message. The messages of the request follow
/// it in their order, all but for a first message of the system, which is left out
/// unless the mode falls back. No other member changes.
pub proof fn law_prompt_first(
    body: JsonView,
    mode: PromptMode,
    rendered: Option<Seq<char>>,
    mentioned: bool,
    k: Seq<char>,
)
    requires
        chat::messages(body).len() > 0,
    ensures
        ({
            let before = chat::messages(body);
            let after = chat::messages(chat::with_prompt(body, mode, rendered, mentioned));
            &&& after[0] == chat::system_message(
                chat::prompt_text(mode, body, rendered, mentioned),
            )
            &&& chat::is_system(after[0])
            &&& after.skip(1) == before || after.skip(1) == before.skip(1)
            &&& after.skip(1) == before.skip(1) <==> chat::is_system(before[0]) && mode
                != PromptMode::Fallback
            &&& k != "messages"@ ==> chat::with_prompt(
                body,
                mode,
                rendered,
                mentioned,
            ).member(k) == body.member(k)
        }),
{
    let before = chat::messages(body);
    let next = chat::with_prompt(body, mode, rendered, mentioned);
    let after = chat::messages(next);
    assert(after.skip(1) =~= chat::kept_messages(mode, body));
    assert(before.len() != before.skip(1).len());
    reveal_strlit("role");
    reveal_strlit("content");
    assert("role"@.len() != "content"@.len());
}

/// In the mode that combines, what the first message says is not lost: a template
/// either looks it up, and is given it, or it ends the new system prompt.
pub proof fn law_combined_prompt_kept(
    body: JsonView,
    rendered: Option<Seq<char>>,
    mentioned: bool,
)
    requires
        chat::messages(body).len() > 0,
    ensures
        chat::template_prompt(PromptMode::Combine, body) == chat::first_content(body),
        !mentioned ==> chat::first_content(body).is_suffix_of(
            chat::prompt_text(PromptMode::Combine, body, rendered, mentioned),
        ),
{
    let p = chat::prompt_text(PromptMode::Combine, body, rendered, mentioned);
    let c = chat::first_content(body);
    if !mentioned {
        assert(p.subrange(p.len() - c.len(), p.len() as int) =~= c);
    }
}

/// Outside the mode that combines, the new system prompt is what the template
/// rendered to, and the template is given nothing of the request.
pub proof fn law_other_modes_ignore_request(
    a: JsonView,
    b: JsonView,
    mode: PromptMode,
    rendered: Option<Seq<char>>,
    mentioned: bool,
)
    requires
        mode != PromptMode::Combine,
    ensures
        chat::template_prompt(mode, a) == chat::template_prompt(mode, b),
        chat::prompt_text(mode, a, rendered, mentioned) == chat::prompt_text(
            mode,
            b,
            rendered,
            mentioned,
        ),
{
}

/// The request as `outgoing` takes it up, once it has been routed and its template
/// has been looked for. `found` is the source of the template and what it rendered to,
/// where there is a template.
pub open spec fn prepared(
    body: JsonView,
    data: RequestDataView,
    found: Option<(Seq<char>, Option<Seq<char>>)>,
) -> ExchangeView {
    match chat::routed_step(body, data) {
        ChatStepView::Render { exchange, .. } => match found {
            Some((source, rendered)) => chat::prompted(exchange, source, rendered),
            None => exchange,
        },
        ChatStepView::Ready { exchange } => exchange,
        ChatStepView::Reject { .. } => arbitrary(),
    }
}

/// The body that is sent for a request that can be routed, or `None` where a value of
/// the configuration is refused.
pub open spec fn sent_body(
    body: JsonView,
    data: RequestDataView,
    found: Option<(Seq<char>, Option<Seq<char>>)>,
) -> Option<JsonView> {
    pointer::extended(prepared(body, data, found).body, data.extra_body)
}

/// The members of a request that no setting names are sent as they came, or left out
/// where they were missing: all but `model`, `messages` and those that values of the
/// configuration go to.
pub proof fn law_other_members_sent(
    body: JsonView,
    data: RequestDataView,
    found: Option<(Seq<char>, Option<Seq<char>>)>,
    k: Seq<char>,
)
    requires
        body is Object,
        k != "model"@,
        k != "messages"@,
        spares(data.extra_body, k),
    ensures
        sent_body(body, data, found) matches Some(sent) ==> sent.member(k) == body.member(k),
{
    law_spared_member_kept(prepared(body, data, found).body, data.extra_body, k);
}

/// The name that the provider has for the model is sent, unless a value of the
/// configuration goes there.
pub proof fn law_model_name_sent(
    body: JsonView,
    data: RequestDataView,
    found: Option<(Seq<char>, Option<Seq<char>>)>,
)
    requires
        body.takes_members(),
        spares(data.extra_body, "model"@),
    ensures
        sent_body(body, data, found) matches Some(sent) ==> sent.member("model"@) == Some(
            JsonView::Text(data.model_name),
        ),
{
    lemma_member_names();
    law_spared_member_kept(prepared(body, data, found).body, data.extra_body, "model"@);
}

/// The two members that the library sets are different.
proof fn lemma_member_names()
    ensures
        "model"@ != "messages"@,
{
    reveal_strlit("model");
    reveal_strlit("messages");
    assert("model"@.len() != "messages"@.len());
}

/// Where a template is found for a request with messages, what is sent begins with
/// the new system prompt, and the messages of the request follow in their order, but
/// for a first message of the system, which stays only in the mode that falls back.
/// Outside the mode that combines, the new system prompt is what the template rendered
/// to, and nothing where it did not.
pub proof fn law_prompt_sent(
    body: JsonView,
    data: RequestDataView,
    source: Seq<char>,
    rendered: Option<Seq<char>>,
)
    requires
        data.system_prompt is Some,
        chat::messages(body).len() > 0,
        spares(data.extra_body, "messages"@),
    ensures
        sent_body(body, data, Some((source, rendered))) matches Some(sent) ==> {
            let old = chat::messages(body);
            let mode = data.system_prompt_mode;
            let text = chat::prompt_text(
                mode,
                body,
                rendered,
                template::undeclared_variables(source).contains("system_prompt"@),
            );
            &&& sent.member("messages"@) == Some(
                JsonView::Array(
                    seq![chat::system_message(text)] + if chat::is_system(old[0]) && mode
                        != PromptMode::Fallback {
                        old.skip(1)
                    } else {
                        old
                    },
                ),
            )
            &&& mode != PromptMode::Combine ==> text == (match rendered {
                Some(t) => t,
                None => Seq::empty(),
            })
        },
{
    lemma_member_names();
    let found = Some((source, rendered));
    let named = body.with_member("model"@, JsonView::Text(data.model_name));
    assert(named.member("messages"@) == body.member("messages"@));
    law_spared_member_kept(prepared(body, data, found).body, data.extra_body, "messages"@);
}

/// Where there is no system prompt, no message or no template, the messages are sent
/// as they came, or left out where they were missing.
pub proof fn law_messages_sent_as_they_came(
    body: JsonView,
    data: RequestDataView,
    found: Option<(Seq<char>, Option<Seq<char>>)>,
)
    requires
        body.takes_members(),
        data.system_prompt is None || chat::messages(body).len() == 0 || found is None,
        spares(data.extra_body, "messages"@),
    ensures
        sent_body(body, data, found) matches Some(sent) ==> sent.member("messages"@)
            == body.member("messages"@),
{
    lemma_member_names();
    let named = body.with_member("model"@, JsonView::Text(data.model_name));
    assert(named.member("messages"@) == body.member("messages"@));
    law_spared_member_kept(prepared(body, data, found).body, data.extra_body, "messages"@);
}

/// A request that can be routed is sent, whatever becomes of its template, unless an
/// array in it refuses a value of the configuration.
pub proof fn law_sent_unless_refused(
    body: JsonView,
    data: RequestDataView,
    found: Option<(Seq<char>, Option<Seq<char>>)>,
)
    ensures
        ({
            let ready = prepared(body, data, found).body;
            let extras = data.extra_body;
            sent_body(body, data, found) is None <==> exists|j: int|
                0 <= j < extras.len() && pointer::valid_pointer(
                    (#[trigger] extras[j]).pointer,
                ) && pointer::extended(ready, extras.take(j)) is Some && refused(
                    pointer::extended(ready, extras.take(j))->0,
                    pointer::path(extras[j].pointer),
                )
        }),
{
    law_extended_unless_refused(prepared(body, data, found).body, data.extra_body);
}

/// A line feed between two files keeps their lines apart.
pub proof fn law_lines_of_two(a: Seq<char>, b: Seq<char>)
    ensures
        env_file::lines(a + "\n"@ + b) == env_file::lines(a) + env_file::lines(b),
{
    reveal_strlit("\n");
    assert(a + "\n"@ + b =~= a.push('\n') + b);
    text::lemma_split_concat(a, '\n', b);
}

/// Lines one after the other set their variables one after the other.
proof fn lemma_after_lines_concat(
    env: Map<Seq<char>, Seq<char>>,
    a: Seq<Seq<char>>,
    b: Seq<Seq<char>>,
)
    ensures
        env_file::after_lines(env, a + b) == env_file::after_lines(
            env_file::after_lines(env, a),
            b,
        ),
    decreases b.len(),
{
    if b.len() == 0 {
        assert(a + b =~= a);
    } else {
        assert((a + b).drop_last() =~= a + b.drop_last());
        lemma_after_lines_concat(env, a, b.drop_last());
    }
}

/// To read two files as one, with a line feed between, is to read one after the
/// other.
pub proof fn law_env_files_in_order(
    env: Map<Seq<char>, Seq<char>>,
    a: Seq<char>,
    b: Seq<char>,
)
    ensures
        env_file::after_file(env, a + "\n"@ + b) == env_file::after_file(
            env_file::after_file(env, a),
            b,
        ),
{
    law_lines_of_two(a, b);
    lemma_after_lines_concat(env, env_file::lines(a), env_file::lines(b));
}

/// What lines set does not depend on what was set before.
proof fn lemma_after_lines_union(env: Map<Seq<char>, Seq<char>>, list: Seq<Seq<char>>)
    ensures
        env_file::after_lines(env, list) == env.union_prefer_right(
            env_file::after_lines(Map::empty(), list),
        ),
    decreases list.len(),
{
    let own = env_file::after_lines(Map::empty(), list);
    if list.len() > 0 {
        lemma_after_lines_union(env, list.drop_last());
    }
    assert(env_file::after_lines(env, list) =~= env.union_prefer_right(own));
}

/// A file sets its variables over what was set before and leaves the others; what
/// it sets does not depend on what was set before.
pub proof fn law_env_file_overrides(env: Map<Seq<char>, Seq<char>>, content: Seq<char>)
    ensures
        env_file::after_file(env, content) == env.union_prefer_right(
            env_file::after_file(Map::empty(), content),
        ),
{
    lemma_after_lines_union(env, env_file::lines(content));
}

/// To read a file twice is to read it once.
pub proof fn law_env_file_twice(env: Map<Seq<char>, Seq<char>>, content: Seq<char>)
    ensures
        env_file::after_file(env_file::after_file(env, content), content)
            == env_file::after_file(env, content),
{
    law_env_file_overrides(env, content);
    law_env_file_overrides(env_file::after_file(env, content), content);
    assert(env_file::after_file(env_file::after_file(env, content), content)
        =~= env_file::after_file(env, content));
}

/// A line whose first character other than white space is `#` sets nothing, and
/// neither does one of white space alone or one without `=`.
pub proof fn law_comment_sets_nothing(env: Map<Seq<char>, Seq<char>>, line: Seq<char>)
    requires
        text::trim(line).len() == 0 || text::trim(line)[0] == '#' || !text::trim(line).contains(
            '=',
        ),
    ensures
        env_file::after_line(env, line) == env,
{
    text::trim(line).index_of_first_ensures('=');
}

/// Of the files of a configuration, no line runs into the next file: the lines of
/// the whole are those of the files, in order.
pub proof fn law_merged_lines(contents: Seq<Seq<char>>)
    requires
        contents.len() > 0,
    ensures
        env_file::lines(load::merged(contents)) == contents.map_values(
            |c: Seq<char>| env_file::lines(c),
        ).flatten(),
    decreases contents.len(),
{
    let f = |c: Seq<char>| env_file::lines(c);
    let all = contents.map_values(f);
    let init = contents.drop_last();
    assert(all.drop_last() =~= init.map_values(f));
    assert(all =~= all.drop_last().push(all.last()));
    all.drop_last().lemma_flatten_push(all.last());
    if contents.len() == 1 {
        assert(all.drop_last() =~= Seq::<Seq<Seq<char>>>::empty());
        assert(all.drop_last().flatten() =~= Seq::<Seq<char>>::empty());
        assert(all.flatten() =~= env_file::lines(contents[0]));
    } else {
        law_merged_lines(init);
        law_lines_of_two(load::merged(init), contents.last());
    }
}

/// Whether and where a change calls for the configuration to be read anew.
pub proof fn lemma_first_call(
    changes: Seq<ChangeView>,
    dir: Seq<Seq<u8>>,
    env: Option<Seq<Seq<u8>>>,
)
    ensures
        ({
            let n = watcher::first_call(changes, dir, env);
            &&& 0 <= n <= changes.len()
            &&& n < changes.len() ==> changes[n].calls_for_reload(dir, env)
            &&& forall|i: int| 0 <= i < n ==> !(#[trigger] changes[i]).calls_for_reload(dir, env)
        }),
    decreases changes.len(),
{
    if changes.len() > 0 && !changes[0].calls_for_reload(dir, env) {
        let rest = changes.drop_first();
        lemma_first_call(rest, dir, env);
        let n = watcher::first_call(rest, dir, env);
        assert forall|i: int| 0 <= i < n + 1 implies !(#[trigger] changes[i]).calls_for_reload(
            dir,
            env,
        ) by {
            if i > 0 {
                assert(changes[i] == rest[i - 1]);
            }
        }
    }
}

/// The configuration is read anew exactly where some change calls for it, and the
/// directory of the environment file is given up only then, and only where there
/// is such a file.
pub proof fn law_reload_when_called_for(
    changes: Seq<ChangeView>,
    dir: Seq<Seq<u8>>,
    env: Option<Seq<Seq<u8>>>,
)
    ensures
        watcher::reaction(changes, dir, env).reload <==> exists|i: int|
            0 <= i < changes.len() && (#[trigger] changes[i]).calls_for_reload(dir, env),
        watcher::reaction(changes, dir, env).unwatch_env ==> watcher::reaction(
            changes,
            dir,
            env,
        ).reload && env is Some && exists|i: int|
            0 <= i < changes.len() && (#[trigger] changes[i]).removes(env),
{
    lemma_first_call(changes, dir, env);
}

/// Once a change calls for the configuration to be read anew, those after it do
/// not matter.
pub proof fn law_later_changes_ignored(
    a: Seq<ChangeView>,
    b: Seq<ChangeView>,
    dir: Seq<Seq<u8>>,
    env: Option<Seq<Seq<u8>>>,
)
    requires
        watcher::reaction(a, dir, env).reload,
    ensures
        watcher::reaction(a + b, dir, env) == watcher::reaction(a, dir, env),
{
    lemma_first_call(a, dir, env);
    lemma_first_call(a + b, dir, env);
    let n = watcher::first_call(a, dir, env);
    let m = watcher::first_call(a + b, dir, env);
    assert((a + b)[n] == a[n]);
    if m < n {
        assert((a + b)[m] == a[m]);
    }
}

} // verus!
