//! What holds of the reports on a configuration, of when it is read anew, and of what
//! the server says of itself.

use vstd::prelude::*;
use vstd::utf8::*;

use crate::config::{
    ConfigView, Model, ModelView, ProviderKind, ProviderModelView, ProviderView, VariantView,
};
use crate::laws;
use crate::startup;
use crate::startup::LogLevel;
use crate::text;
use crate::validate;
use crate::validate::{NoteView, ProblemView};
use crate::watcher;
use crate::watcher::{ChangeKind, ChangeView};

verus! {

/// A configuration is valid exactly where every provider that a model is routed to is
/// defined, every provider has a url and a key, every variant is of a model that is
/// defined, and no system prompt of a variant is among those that could not be looked
/// for.
pub proof fn law_valid(c: ConfigView, failed: Seq<Seq<char>>)
    ensures
        c.valid(failed) <==> {
            &&& forall|m: Seq<char>, i: int|
                c.models.contains_key(m) && 0 <= i < c.models[m].routing.len()
                    ==> c.providers.contains_key(#[trigger] c.models[m].routing[i])
            &&& forall|p: Seq<char>| #[trigger]
                c.providers.contains_key(p) ==> c.providers[p].api_base is Some
                    && c.providers[p].api_key is Some
            &&& forall|v: Seq<char>| #[trigger]
                c.variants.contains_key(v) ==> c.models.contains_key(c.variants[v].model)
            &&& forall|v: Seq<char>| #[trigger]
                c.variants.contains_key(v) ==> c.variants[v].system_prompt is None
                    || !failed.contains(c.variants[v].system_prompt->0)
        },
{
    if c.valid(failed) {
        assert forall|m: Seq<char>, i: int|
            c.models.contains_key(m) && 0 <= i
                < c.models[m].routing.len() implies c.providers.contains_key(
            #[trigger] c.models[m].routing[i],
        ) by {
            let provider = c.models[m].routing[i];
            assert(c.models[m].routing.contains(provider));
            assert(!c.has_problem(failed, ProblemView::UnknownProvider { model: m, provider }));
        }
        assert forall|p: Seq<char>| #[trigger]
            c.providers.contains_key(p) implies c.providers[p].api_base is Some
            && c.providers[p].api_key is Some by {
            assert(!c.has_problem(failed, ProblemView::NoApiBase { provider: p }));
            assert(!c.has_problem(failed, ProblemView::NoApiKey { provider: p }));
        }
        assert forall|v: Seq<char>| #[trigger]
            c.variants.contains_key(v) implies c.models.contains_key(c.variants[v].model) && (
        c.variants[v].system_prompt is None || !failed.contains(
            c.variants[v].system_prompt->0,
        )) by {
            assert(!c.has_problem(
                failed,
                ProblemView::UnknownModel { variant: v, model: c.variants[v].model },
            ));
            assert(!c.has_problem(
                failed,
                ProblemView::PromptNotFound {
                    variant: v,
                    prompt: c.variants[v].system_prompt->0,
                },
            ));
        }
    } else {
        let p = choose|p: ProblemView| c.has_problem(failed, p);
        if let ProblemView::UnknownProvider { model, provider } = p {
            let i = choose|i: int|
                0 <= i < c.models[model].routing.len() && c.models[model].routing[i] == provider;
            assert(!c.providers.contains_key(c.models[model].routing[i]));
        }
    }
}

/// A problem is what it says: an undefined provider that a defined model is routed to, a
/// defined provider without a url or without a key, a variant of an undefined model, and
/// a system prompt of a variant that could not be looked for.
pub proof fn law_problems_meant(
    c: ConfigView,
    failed: Seq<Seq<char>>,
    a: Seq<char>,
    b: Seq<char>,
)
    ensures
        c.has_problem(failed, ProblemView::UnknownProvider { model: a, provider: b })
            <==> c.models.contains_key(a) && c.models[a].routing.contains(b)
            && !c.providers.contains_key(b),
        c.has_problem(failed, ProblemView::NoApiBase { provider: a }) <==> c.providers.contains_key(
            a,
        ) && c.providers[a].api_base is None,
        c.has_problem(failed, ProblemView::NoApiKey { provider: a }) <==> c.providers.contains_key(
            a,
        ) && c.providers[a].api_key is None,
        c.has_problem(failed, ProblemView::UnknownModel { variant: a, model: b })
            <==> c.variants.contains_key(a) && c.variants[a].model == b && !c.models.contains_key(
            b,
        ),
        c.has_problem(failed, ProblemView::PromptNotFound { variant: a, prompt: b })
            <==> c.variants.contains_key(a) && c.variants[a].system_prompt == Some(b)
            && failed.contains(b),
{
}

/// What is wrong with the routing of a model is what is wrong with the one part and then
/// with the other: each provider that is not defined, as often as it stands there.
pub proof fn law_routing_reported(
    providers: Map<Seq<char>, ProviderView>,
    model: Seq<char>,
    a: Seq<Seq<char>>,
    b: Seq<Seq<char>>,
    provider: Seq<char>,
)
    ensures
        validate::routing_problems(providers, model, a + b) == validate::routing_problems(
            providers,
            model,
            a,
        ) + validate::routing_problems(providers, model, b),
        providers.contains_key(provider) ==> validate::routing_problems(
            providers,
            model,
            seq![provider],
        ).len() == 0,
        !providers.contains_key(provider) ==> validate::routing_problems(
            providers,
            model,
            seq![provider],
        ) == seq![ProblemView::UnknownProvider { model, provider }],
    decreases b.len(),
{
    reveal_with_fuel(validate::routing_problems, 2);
    assert(seq![provider].drop_last() =~= Seq::empty());
    let none = Seq::<ProblemView>::empty();
    let last = ProblemView::UnknownProvider { model, provider };
    assert(none + seq![last] =~= seq![last]);
    let sum = validate::routing_problems(providers, model, a) + validate::routing_problems(
        providers,
        model,
        b,
    );
    if b.len() == 0 {
        assert(a + b =~= a);
        assert(sum =~= validate::routing_problems(providers, model, a));
    } else {
        law_routing_reported(providers, model, a, b.drop_last(), provider);
        assert((a + b).drop_last() =~= a + b.drop_last());
        assert((a + b).last() == b.last());
        assert(validate::routing_problems(providers, model, a + b) =~= sum);
    }
}

/// What is wrong with the models of two lists is what is wrong with those of the one and
/// then with those of the other, and of one model it is what is wrong with its routing.
pub proof fn law_models_reported(
    providers: Map<Seq<char>, ProviderView>,
    a: Seq<(Seq<char>, ModelView)>,
    b: Seq<(Seq<char>, ModelView)>,
    one: (Seq<char>, ModelView),
)
    ensures
        validate::model_problems(providers, a + b) == validate::model_problems(providers, a)
            + validate::model_problems(providers, b),
        validate::model_problems(providers, seq![one]) == validate::routing_problems(
            providers,
            one.0,
            one.1.routing,
        ),
    decreases b.len(),
{
    reveal_with_fuel(validate::model_problems, 2);
    assert(seq![one].drop_last() =~= Seq::empty());
    assert(validate::model_problems(providers, seq![one]) =~= validate::routing_problems(
        providers,
        one.0,
        one.1.routing,
    ));
    let sum = validate::model_problems(providers, a) + validate::model_problems(providers, b);
    if b.len() == 0 {
        assert(a + b =~= a);
        assert(sum =~= validate::model_problems(providers, a));
    } else {
        law_models_reported(providers, a, b.drop_last(), one);
        assert((a + b).drop_last() =~= a + b.drop_last());
        assert((a + b).last() == b.last());
        assert(validate::model_problems(providers, a + b) =~= sum);
    }
}

/// What is wrong with the providers of two lists is what is wrong with those of the one
/// and then with those of the other. Of one provider it is first that it has no url and
/// then that it has no key.
pub proof fn law_providers_reported(
    a: Seq<(Seq<char>, ProviderView)>,
    b: Seq<(Seq<char>, ProviderView)>,
    one: (Seq<char>, ProviderView),
)
    ensures
        validate::provider_problems(a + b) == validate::provider_problems(a)
            + validate::provider_problems(b),
        ({
            let found = validate::provider_problems(seq![one]);
            let base = ProblemView::NoApiBase { provider: one.0 };
            let key = ProblemView::NoApiKey { provider: one.0 };
            &&& one.1.api_base is Some && one.1.api_key is Some ==> found.len() == 0
            &&& one.1.api_base is None && one.1.api_key is Some ==> found == seq![base]
            &&& one.1.api_base is Some && one.1.api_key is None ==> found == seq![key]
            &&& one.1.api_base is None && one.1.api_key is None ==> found == seq![base, key]
        }),
    decreases b.len(),
{
    reveal_with_fuel(validate::provider_problems, 2);
    assert(seq![one].drop_last() =~= Seq::empty());
    let base = ProblemView::NoApiBase { provider: one.0 };
    let key = ProblemView::NoApiKey { provider: one.0 };
    let none = Seq::<ProblemView>::empty();
    assert(one.1.kind == ProviderKind::OpenaiCompatible);
    assert(none + (none + none) =~= none);
    assert(none + (seq![base] + none) =~= seq![base]);
    assert(none + (none + seq![key]) =~= seq![key]);
    assert(none + (seq![base] + seq![key]) =~= seq![base, key]);
    let sum = validate::provider_problems(a) + validate::provider_problems(b);
    if b.len() == 0 {
        assert(a + b =~= a);
        assert(sum =~= validate::provider_problems(a));
    } else {
        law_providers_reported(a, b.drop_last(), one);
        assert((a + b).drop_last() =~= a + b.drop_last());
        assert((a + b).last() == b.last());
        assert(validate::provider_problems(a + b) =~= sum);
    }
}

/// What is wrong with the variants of two lists is what is wrong with those of the one
/// and then with those of the other. Of one variant it is first that its model is not
/// defined and then that its system prompt could not be looked for.
pub proof fn law_variants_reported(
    models: Map<Seq<char>, ModelView>,
    failed: Seq<Seq<char>>,
    a: Seq<(Seq<char>, VariantView)>,
    b: Seq<(Seq<char>, VariantView)>,
    one: (Seq<char>, VariantView),
)
    ensures
        validate::variant_problems(models, failed, a + b) == validate::variant_problems(
            models,
            failed,
            a,
        ) + validate::variant_problems(models, failed, b),
        ({
            let found = validate::variant_problems(models, failed, seq![one]);
            let model = ProblemView::UnknownModel { variant: one.0, model: one.1.model };
            let lost = one.1.system_prompt is Some && failed.contains(one.1.system_prompt->0);
            let prompt = ProblemView::PromptNotFound {
                variant: one.0,
                prompt: one.1.system_prompt->0,
            };
            &&& models.contains_key(one.1.model) && !lost ==> found.len() == 0
            &&& !models.contains_key(one.1.model) && !lost ==> found == seq![model]
            &&& models.contains_key(one.1.model) && lost ==> found == seq![prompt]
            &&& !models.contains_key(one.1.model) && lost ==> found == seq![model, prompt]
        }),
    decreases b.len(),
{
    reveal_with_fuel(validate::variant_problems, 2);
    assert(seq![one].drop_last() =~= Seq::empty());
    let model = ProblemView::UnknownModel { variant: one.0, model: one.1.model };
    let prompt = ProblemView::PromptNotFound { variant: one.0, prompt: one.1.system_prompt->0 };
    let none = Seq::<ProblemView>::empty();
    assert(none + (none + none) =~= none);
    assert(none + (seq![model] + none) =~= seq![model]);
    assert(none + (none + seq![prompt]) =~= seq![prompt]);
    assert(none + (seq![model] + seq![prompt]) =~= seq![model, prompt]);
    let sum = validate::variant_problems(models, failed, a) + validate::variant_problems(
        models,
        failed,
        b,
    );
    if b.len() == 0 {
        assert(a + b =~= a);
        assert(sum =~= validate::variant_problems(models, failed, a));
    } else {
        law_variants_reported(models, failed, a, b.drop_last(), one);
        assert((a + b).drop_last() =~= a + b.drop_last());
        assert((a + b).last() == b.last());
        assert(validate::variant_problems(models, failed, a + b) =~= sum);
    }
}

/// A remark is what it says: settings of a model for a provider that it is not routed
/// to, and settings that give no name for the model.
pub proof fn law_notes_meant(c: ConfigView, model: Seq<char>, provider: Seq<char>)
    ensures
        c.has_note(NoteView::NotEnabled { model, provider }) <==> c.models.contains_key(model)
            && c.models[model].providers.contains_key(provider)
            && !c.models[model].routing.contains(provider),
        c.has_note(NoteView::NoModelName { model, provider }) <==> c.models.contains_key(model)
            && c.models[model].providers.contains_key(provider)
            && c.models[model].providers[provider].model_name is None,
{
    if c.models.contains_key(model) {
        let a = NoteView::NotEnabled { model, provider };
        let b = NoteView::NoModelName { model, provider };
        assert(c.has_note(a) || !c.models[model].has_note(model, a));
        assert(c.has_note(b) || !c.models[model].has_note(model, b));
    }
}

/// The remarks on two lists of settings are those on the one and then those on the
/// other. On one they are first that the provider is not enabled and then that it gives
/// no name for the model.
pub proof fn law_settings_remarked(
    model: Seq<char>,
    routing: Seq<Seq<char>>,
    a: Seq<(Seq<char>, ProviderModelView)>,
    b: Seq<(Seq<char>, ProviderModelView)>,
    one: (Seq<char>, ProviderModelView),
)
    ensures
        validate::setting_notes(model, routing, a + b) == validate::setting_notes(model, routing, a)
            + validate::setting_notes(model, routing, b),
        ({
            let found = validate::setting_notes(model, routing, seq![one]);
            let off = NoteView::NotEnabled { model, provider: one.0 };
            let nameless = NoteView::NoModelName { model, provider: one.0 };
            &&& routing.contains(one.0) && one.1.model_name is Some ==> found.len() == 0
            &&& !routing.contains(one.0) && one.1.model_name is Some ==> found == seq![off]
            &&& routing.contains(one.0) && one.1.model_name is None ==> found == seq![nameless]
            &&& !routing.contains(one.0) && one.1.model_name is None ==> found == seq![
                off,
                nameless,
            ]
        }),
    decreases b.len(),
{
    reveal_with_fuel(validate::setting_notes, 2);
    assert(seq![one].drop_last() =~= Seq::empty());
    let off = NoteView::NotEnabled { model, provider: one.0 };
    let nameless = NoteView::NoModelName { model, provider: one.0 };
    let none = Seq::<NoteView>::empty();
    assert(none + (none + none) =~= none);
    assert(none + (seq![off] + none) =~= seq![off]);
    assert(none + (none + seq![nameless]) =~= seq![nameless]);
    assert(none + (seq![off] + seq![nameless]) =~= seq![off, nameless]);
    let sum = validate::setting_notes(model, routing, a) + validate::setting_notes(
        model,
        routing,
        b,
    );
    if b.len() == 0 {
        assert(a + b =~= a);
        assert(sum =~= validate::setting_notes(model, routing, a));
    } else {
        law_settings_remarked(model, routing, a, b.drop_last(), one);
        assert((a + b).drop_last() =~= a + b.drop_last());
        assert((a + b).last() == b.last());
        assert(validate::setting_notes(model, routing, a + b) =~= sum);
    }
}

/// The remarks on two lists of models are those on the one and then those on the other,
/// and on one model they are those on its settings, in the order of their table.
pub proof fn law_models_remarked(
    a: Seq<(String, Model)>,
    b: Seq<(String, Model)>,
    one: (String, Model),
)
    ensures
        validate::model_notes(a + b) == validate::model_notes(a) + validate::model_notes(b),
        validate::model_notes(seq![one]) == validate::setting_notes(
            one.0@,
            text::texts(one.1.routing@),
            one.1.providers.listing(),
        ),
    decreases b.len(),
{
    reveal_with_fuel(validate::model_notes, 2);
    assert(seq![one].drop_last() =~= Seq::empty());
    assert(validate::model_notes(seq![one]) =~= validate::setting_notes(
        one.0@,
        text::texts(one.1.routing@),
        one.1.providers.listing(),
    ));
    let sum = validate::model_notes(a) + validate::model_notes(b);
    if b.len() == 0 {
        assert(a + b =~= a);
        assert(sum =~= validate::model_notes(a));
    } else {
        law_models_remarked(a, b.drop_last(), one);
        assert((a + b).drop_last() =~= a + b.drop_last());
        assert((a + b).last() == b.last());
        assert(validate::model_notes(a + b) =~= sum);
    }
}

/// The system prompts of two lists of variants are those of the one and then those of
/// the other, and of one variant it is the one that it has, if any.
pub proof fn law_prompts_listed(
    a: Seq<(Seq<char>, VariantView)>,
    b: Seq<(Seq<char>, VariantView)>,
    one: (Seq<char>, VariantView),
    prompt: Seq<char>,
)
    ensures
        validate::prompts(a + b) == validate::prompts(a) + validate::prompts(b),
        one.1.system_prompt is None ==> validate::prompts(seq![one]).len() == 0,
        one.1.system_prompt == Some(prompt) ==> validate::prompts(seq![one]) == seq![prompt],
    decreases b.len(),
{
    reveal_with_fuel(validate::prompts, 2);
    assert(seq![one].drop_last() =~= Seq::empty());
    assert(Seq::<Seq<char>>::empty().push(prompt) =~= seq![prompt]);
    let sum = validate::prompts(a) + validate::prompts(b);
    if b.len() == 0 {
        assert(a + b =~= a);
        assert(sum =~= validate::prompts(a));
    } else {
        law_prompts_listed(a, b.drop_last(), one, prompt);
        assert((a + b).drop_last() =~= a + b.drop_last());
        assert((a + b).last() == b.last());
        assert(validate::prompts(a + b) =~= sum);
    }
}

/// A name is served exactly where it is that of a model or of a variant.
pub proof fn law_served(c: ConfigView, name: Seq<char>)
    ensures
        c.serves(name) <==> c.models.contains_key(name) || c.variants.contains_key(name),
{
}

/// The names that are served are those of the models, each in its place, and after them
/// those of the variants, in order, but for those that are names of models.
pub proof fn law_served_names(
    models: Map<Seq<char>, ModelView>,
    list: Seq<(Seq<char>, ModelView)>,
    a: Seq<(Seq<char>, VariantView)>,
    b: Seq<(Seq<char>, VariantView)>,
    one: (Seq<char>, VariantView),
    i: int,
)
    ensures
        ({
            let nobody = Seq::<(Seq<char>, ModelView)>::empty();
            let alone = validate::served_names(models, list, Seq::empty());
            &&& alone.len() == list.len()
            &&& 0 <= i < list.len() ==> alone[i] == list[i].0
            &&& validate::served_names(models, list, a + b) == validate::served_names(
                models,
                list,
                a,
            ) + validate::served_names(models, nobody, b)
            &&& models.contains_key(one.0) ==> validate::served_names(
                models,
                nobody,
                seq![one],
            ).len() == 0
            &&& !models.contains_key(one.0) ==> validate::served_names(models, nobody, seq![one])
                == seq![one.0]
        }),
    decreases b.len(),
{
    let nobody = Seq::<(Seq<char>, ModelView)>::empty();
    let none = Seq::<Seq<char>>::empty();
    reveal_with_fuel(validate::served_names, 2);
    assert(seq![one].drop_last() =~= Seq::empty());
    assert(nobody.map_values(|e: (Seq<char>, ModelView)| e.0) =~= none);
    assert(none.push(one.0) =~= seq![one.0]);
    let sum = validate::served_names(models, list, a) + validate::served_names(models, nobody, b);
    if b.len() == 0 {
        assert(a + b =~= a);
        assert(sum =~= validate::served_names(models, list, a));
    } else {
        law_served_names(models, list, a, b.drop_last(), one, i);
        assert((a + b).drop_last() =~= a + b.drop_last());
        assert((a + b).last() == b.last());
        assert(validate::served_names(models, list, a + b) =~= sum);
    }
}

/// The change wrote, created or removed something and, where there is an environment
/// file, one of its paths is that file or at or below the configuration directory.
pub open spec fn concerns(
    change: ChangeView,
    dir: Seq<Seq<u8>>,
    env: Option<Seq<Seq<u8>>>,
) -> bool {
    &&& change.kind == ChangeKind::Modify || change.kind == ChangeKind::Create || change.kind
        == ChangeKind::Remove
    &&& env is Some ==> exists|i: int|
        0 <= i < change.paths.len() && (#[trigger] change.paths[i] == env->0 || dir.is_prefix_of(
            change.paths[i],
        ))
}

/// A change calls for the configuration to be read anew exactly where it concerns it.
proof fn lemma_concerns(change: ChangeView, dir: Seq<Seq<u8>>, env: Option<Seq<Seq<u8>>>)
    ensures
        change.calls_for_reload(dir, env) <==> concerns(change, dir, env),
{
    if env is Some {
        if change.touches(env->0) {
            let i = choose|i: int| 0 <= i < change.paths.len() && change.paths[i] == env->0;
            assert(change.paths[i] == env->0);
        }
        if concerns(change, dir, env) {
            let i = choose|i: int|
                0 <= i < change.paths.len() && (#[trigger] change.paths[i] == env->0
                    || dir.is_prefix_of(change.paths[i]));
            assert(change.paths.contains(change.paths[i]));
        }
    }
}

/// The configuration is read anew exactly where some change of a batch concerns it. The
/// directory of the environment file is given up exactly where the first such change
/// removed that file.
pub proof fn law_reaction(
    changes: Seq<ChangeView>,
    dir: Seq<Seq<u8>>,
    env: Option<Seq<Seq<u8>>>,
)
    ensures
        ({
            let r = watcher::reaction(changes, dir, env);
            &&& r.reload <==> exists|i: int|
                0 <= i < changes.len() && concerns(#[trigger] changes[i], dir, env)
            &&& r.unwatch_env <==> exists|i: int|
                0 <= i < changes.len() && concerns(#[trigger] changes[i], dir, env) && (forall|
                    j: int,
                |
                    0 <= j < i ==> !concerns(#[trigger] changes[j], dir, env)) && changes[i].kind
                    == ChangeKind::Remove && env is Some && changes[i].paths.contains(env->0)
        }),
{
    let n = watcher::first_call(changes, dir, env);
    laws::lemma_first_call(changes, dir, env);
    assert forall|i: int| 0 <= i < changes.len() implies (concerns(#[trigger] changes[i], dir, env)
        <==> changes[i].calls_for_reload(dir, env)) by {
        lemma_concerns(changes[i], dir, env);
    }
    if n < changes.len() {
        assert(concerns(changes[n], dir, env));
        assert forall|j: int| 0 <= j < n implies !concerns(#[trigger] changes[j], dir, env) by {
            assert(!changes[j].calls_for_reload(dir, env));
        }
    }
}

/// Of a key of five bytes or more, its first three bytes, eleven stars and its last two
/// bytes are shown, and of a shorter one sixteen stars.
pub proof fn law_masked_bytes(key: Seq<char>)
    requires
        startup::maskable(key),
    ensures
        ({
            let bytes = encode_utf8(key);
            let n = bytes.len() as int;
            let shown = encode_utf8(startup::masked(key));
            &&& n < 5 ==> shown == Seq::new(16, |i: int| 42u8)
            &&& n >= 5 ==> shown == bytes.subrange(0, 3) + Seq::new(11, |i: int| 42u8)
                + bytes.subrange(n - 2, n)
        }),
{
    let bytes = encode_utf8(key);
    is_ascii_chars_encode_utf8(startup::stars(16));
    is_ascii_chars_encode_utf8(startup::stars(11));
    assert(encode_utf8(startup::stars(16)) =~= Seq::new(16, |i: int| 42u8));
    assert(encode_utf8(startup::stars(11)) =~= Seq::new(11, |i: int| 42u8));
    if bytes.len() >= 5 {
        let head = bytes.take(3);
        let tail = bytes.skip(bytes.len() - 2);
        encode_utf8_valid_utf8(key);
        valid_utf8_split(bytes, 3);
        valid_utf8_split(bytes, bytes.len() - 2);
        assert(head =~= bytes.subrange(0, 3));
        assert(tail =~= bytes.subrange(bytes.len() - 2, bytes.len() as int));
        decode_utf8_encode_utf8(head);
        decode_utf8_encode_utf8(tail);
        startup::lemma_encode_concat(decode_utf8(head), startup::stars(11));
        startup::lemma_encode_concat(decode_utf8(head) + startup::stars(11), decode_utf8(tail));
    }
}

/// The server listens on the host and the port that the configuration gives, with a
/// colon between, and on `localhost` and 3000 where it gives none.
pub proof fn law_address(c: ConfigView)
    ensures
        ({
            let host = if c.host is Some {
                c.host->0
            } else {
                "localhost"@
            };
            let port: nat = if c.port is Some {
                c.port->0 as nat
            } else {
                3000
            };
            &&& c.address() == host + seq![':'] + text::decimal(port)
            &&& c.chosen_port() == port
            &&& c.chosen_host() == host
            &&& c.reloads() <==> !c.no_reload
        }),
{
    reveal_strlit(":");
    assert(":"@ =~= seq![':']);
}

/// More is logged when more was asked for: once for debugging, and from twice on
/// everything.
pub proof fn law_log_level(verbose: u8)
    ensures
        startup::level(verbose) == LogLevel::Info <==> verbose == 0,
        startup::level(verbose) == LogLevel::Debug <==> verbose == 1,
        startup::level(verbose) == LogLevel::Trace <==> verbose > 1,
{
}

} // verus!
