//! What can be wrong with a configuration, and the names that it serves.

use vstd::prelude::*;
use vstd::seq_lib::*;

use crate::config::{
    Config, ConfigView, Model, ModelView, ProviderKind, ProviderModelView, ProviderView,
    VariantView,
};
use crate::table;
use crate::text;
use crate::text::contains_text;

verus! {

/// Something wrong with a configuration.
#[derive(Debug)]
pub enum Problem {
    /// A model is routed to a provider that is not defined.
    UnknownProvider { model: String, provider: String },
    /// A provider has no base url.
    NoApiBase { provider: String },
    /// A provider has no key.
    NoApiKey { provider: String },
    /// A variant is of a model that is not defined.
    UnknownModel { variant: String, model: String },
    /// The system prompt of a variant could not be looked for.
    PromptNotFound { variant: String, prompt: String },
}

/// What a `Problem` says.
pub enum ProblemView {
    UnknownProvider { model: Seq<char>, provider: Seq<char> },
    NoApiBase { provider: Seq<char> },
    NoApiKey { provider: Seq<char> },
    UnknownModel { variant: Seq<char>, model: Seq<char> },
    PromptNotFound { variant: Seq<char>, prompt: Seq<char> },
}

impl View for Problem {
    type V = ProblemView;

    open spec fn view(&self) -> ProblemView {
        match self {
            Problem::UnknownProvider { model, provider } => ProblemView::UnknownProvider {
                model: model@,
                provider: provider@,
            },
            Problem::NoApiBase { provider } => ProblemView::NoApiBase { provider: provider@ },
            Problem::NoApiKey { provider } => ProblemView::NoApiKey { provider: provider@ },
            Problem::UnknownModel { variant, model } => ProblemView::UnknownModel {
                variant: variant@,
                model: model@,
            },
            Problem::PromptNotFound { variant, prompt } => ProblemView::PromptNotFound {
                variant: variant@,
                prompt: prompt@,
            },
        }
    }
}

/// What a list of `Problem` says.
pub open spec fn problem_views(list: Seq<Problem>) -> Seq<ProblemView> {
    list.map_values(|p: Problem| p@)
}

impl ConfigView {
    /// `p` is wrong with the configuration, where `failed` are the system prompts
    /// that could not be looked for.
    pub open spec fn has_problem(self, failed: Seq<Seq<char>>, p: ProblemView) -> bool {
        match p {
            ProblemView::UnknownProvider { model, provider } => {
                &&& self.models.contains_key(model)
                &&& self.models[model].routing.contains(provider)
                &&& !self.providers.contains_key(provider)
            },
            ProblemView::NoApiBase { provider } => {
                &&& self.providers.contains_key(provider)
                &&& self.providers[provider].kind == ProviderKind::OpenaiCompatible
                &&& self.providers[provider].api_base is None
            },
            ProblemView::NoApiKey { provider } => {
                &&& self.providers.contains_key(provider)
                &&& self.providers[provider].kind == ProviderKind::OpenaiCompatible
                &&& self.providers[provider].api_key is None
            },
            ProblemView::UnknownModel { variant, model } => {
                &&& self.variants.contains_key(variant)
                &&& self.variants[variant].model == model
                &&& !self.models.contains_key(model)
            },
            ProblemView::PromptNotFound { variant, prompt } => {
                &&& self.variants.contains_key(variant)
                &&& self.variants[variant].system_prompt == Some(prompt)
                &&& failed.contains(prompt)
            },
        }
    }

    /// Nothing is wrong with the configuration.
    pub open spec fn valid(self, failed: Seq<Seq<char>>) -> bool {
        forall|p: ProblemView| !self.has_problem(failed, p)
    }

    /// A request can be made for `name`: it is a model or a variant.
    pub open spec fn serves(self, name: Seq<char>) -> bool {
        self.models.contains_key(name) || self.variants.contains_key(name)
    }
}

/// Something in a configuration that is worth a remark, though not wrong.
#[derive(Debug)]
pub enum Note {
    /// A model has settings for a provider that it is not routed to.
    NotEnabled { model: String, provider: String },
    /// The settings of a model for a provider give no name for the model there, so
    /// that its own name is used.
    NoModelName { model: String, provider: String },
}

/// What a `Note` says.
pub enum NoteView {
    NotEnabled { model: Seq<char>, provider: Seq<char> },
    NoModelName { model: Seq<char>, provider: Seq<char> },
}

impl View for Note {
    type V = NoteView;

    open spec fn view(&self) -> NoteView {
        match self {
            Note::NotEnabled { model, provider } => NoteView::NotEnabled {
                model: model@,
                provider: provider@,
            },
            Note::NoModelName { model, provider } => NoteView::NoModelName {
                model: model@,
                provider: provider@,
            },
        }
    }
}

/// What a list of `Note` says.
pub open spec fn note_views(list: Seq<Note>) -> Seq<NoteView> {
    list.map_values(|n: Note| n@)
}

impl ModelView {
    /// `n` is worth a remark about the model, which goes by `name`.
    pub open spec fn has_note(self, name: Seq<char>, n: NoteView) -> bool {
        match n {
            NoteView::NotEnabled { model, provider } => {
                &&& model == name
                &&& self.providers.contains_key(provider)
                &&& !self.routing.contains(provider)
            },
            NoteView::NoModelName { model, provider } => {
                &&& model == name
                &&& self.providers.contains_key(provider)
                &&& self.providers[provider].model_name is None
            },
        }
    }
}

impl ConfigView {
    /// `n` is worth a remark.
    pub open spec fn has_note(self, n: NoteView) -> bool {
        exists|name: Seq<char>| #[trigger]
            self.models.contains_key(name) && self.models[name].has_note(name, n)
    }
}

/// What is worth a remark about the settings of a model for one provider: first that
/// the model is not routed to it, then that they give no name for the model there.
pub open spec fn own_notes(
    model: Seq<char>,
    routing: Seq<Seq<char>>,
    provider: Seq<char>,
    settings: ProviderModelView,
) -> Seq<NoteView> {
    (if routing.contains(provider) {
        Seq::empty()
    } else {
        seq![NoteView::NotEnabled { model, provider }]
    }) + (if settings.model_name is None {
        seq![NoteView::NoModelName { model, provider }]
    } else {
        Seq::empty()
    })
}

/// What is worth a remark about a list of settings of a model, in order.
pub open spec fn setting_notes(
    model: Seq<char>,
    routing: Seq<Seq<char>>,
    list: Seq<(Seq<char>, ProviderModelView)>,
) -> Seq<NoteView>
    decreases list.len(),
{
    if list.len() == 0 {
        Seq::empty()
    } else {
        setting_notes(model, routing, list.drop_last()) + own_notes(
            model,
            routing,
            list.last().0,
            list.last().1,
        )
    }
}

/// What is worth a remark about the models of a list, in order, each with its settings
/// in the order of their table.
pub open spec fn model_notes(list: Seq<(String, Model)>) -> Seq<NoteView>
    decreases list.len(),
{
    if list.len() == 0 {
        Seq::empty()
    } else {
        let (name, model) = list.last();
        model_notes(list.drop_last()) + setting_notes(
            name@,
            model@.routing,
            model.providers.listing(),
        )
    }
}

/// Adds a note to a list that does not hold it.
fn remark(out: &mut Vec<Note>, n: Note)
    requires
        note_views(old(out)@).no_duplicates(),
        !note_views(old(out)@).contains(n@),
    ensures
        note_views(final(out)@) == note_views(old(out)@) + seq![n@],
        note_views(final(out)@).no_duplicates(),
        forall|q: NoteView| #[trigger]
            note_views(final(out)@).contains(q) <==> note_views(old(out)@).contains(q) || q == n@,
{
    let ghost before = note_views(out@);
    out.push(n);
    assert(note_views(out@) =~= before.push(n@));
    assert forall|q: NoteView| #[trigger]
        note_views(out@).contains(q) <==> before.contains(q) || q == n@ by {
        lemma_seq_contains_after_push(before, n@, q);
    }
    assert forall|a: int, b: int|
        0 <= a < before.push(n@).len() && 0 <= b < before.push(n@).len() && a != b implies before.push(
        n@,
    )[a] != before.push(n@)[b] by {
        if a < before.len() {
            assert(before.contains(before[a]));
        }
        if b < before.len() {
            assert(before.contains(before[b]));
        }
    }
}

/// Adds what is worth a remark about a model to a list that holds none of it.
fn remark_model(name: &String, model: &Model, out: &mut Vec<Note>)
    requires
        note_views(old(out)@).no_duplicates(),
        forall|q: NoteView|
            model@.has_note(name@, q) ==> !#[trigger] note_views(old(out)@).contains(q),
    ensures
        note_views(final(out)@) == note_views(old(out)@) + setting_notes(
            name@,
            model@.routing,
            model.providers.listing(),
        ),
        note_views(final(out)@).no_duplicates(),
        forall|q: NoteView| #[trigger]
            note_views(final(out)@).contains(q) <==> note_views(old(out)@).contains(q)
                || model@.has_note(name@, q),
{
    let ghost before = note_views(out@);
    let n: usize = model.providers.len();
    let ghost list = model.providers.listing();
    let mut i: usize = 0;
    assert(before + setting_notes(name@, model@.routing, list.take(0)) =~= before);
    while i < n
        invariant
            i <= n,
            n == list.len(),
            list == model.providers.listing(),
            table::distinct_names(list),
            model@.providers == table::table_of(list),
            forall|q: NoteView| model@.has_note(name@, q) ==> !#[trigger] before.contains(q),
            note_views(out@) == before + setting_notes(
                name@,
                model@.routing,
                list.take(i as int),
            ),
            note_views(out@).no_duplicates(),
            forall|q: NoteView| #[trigger]
                note_views(out@).contains(q) <==> before.contains(q) || (
                q matches NoteView::NotEnabled { model: m, provider } && m == name@ && exists|
                    j: int,
                |
                    0 <= j < i && (#[trigger] list[j]).0 == provider && !model@.routing.contains(
                        provider,
                    )) || (q matches NoteView::NoModelName { model: m, provider } && m == name@
                    && exists|j: int|
                    0 <= j < i && (#[trigger] list[j]).0 == provider && list[j].1.model_name
                        is None),
        decreases n - i,
    {
        let provider = model.providers.name_at(i);
        let settings = model.providers.value_at(i);
        assert(list[i as int] == (provider@, settings@));
        proof {
            table::lemma_table_last(list, i as int);
        }
        if !contains_text(&model.routing, provider.as_str()) {
            remark(out, Note::NotEnabled { model: name.clone(), provider: provider.clone() });
        }
        if settings.model_name.is_none() {
            remark(out, Note::NoModelName { model: name.clone(), provider: provider.clone() });
        }
        assert(list.take(i + 1).drop_last() =~= list.take(i as int));
        assert(list.take(i + 1).last() == (provider@, settings@));
        assert(note_views(out@) =~= before + setting_notes(
            name@,
            model@.routing,
            list.take(i + 1),
        ));
        i = i + 1;
    }
    assert(list.take(i as int) =~= list);
    proof {
        assert forall|q: NoteView| #[trigger]
            note_views(out@).contains(q) <==> before.contains(q) || model@.has_note(name@, q) by {
            let p = match q {
                NoteView::NotEnabled { provider, .. } => provider,
                NoteView::NoModelName { provider, .. } => provider,
            };
            if exists|j: int| 0 <= j < n && (#[trigger] list[j]).0 == p {
                let j = choose|j: int| 0 <= j < n && (#[trigger] list[j]).0 == p;
                table::lemma_table_last(list, j);
            }
            if model@.providers.contains_key(p) {
                table::lemma_table_value(list, p);
            }
        }
    }
}

/// The names of a list of models, and then those of a list of variants that are not
/// among `models`.
pub open spec fn served_names(
    models: Map<Seq<char>, ModelView>,
    list: Seq<(Seq<char>, ModelView)>,
    more: Seq<(Seq<char>, VariantView)>,
) -> Seq<Seq<char>>
    decreases more.len(),
{
    if more.len() == 0 {
        list.map_values(|e: (Seq<char>, ModelView)| e.0)
    } else {
        let before = served_names(models, list, more.drop_last());
        if models.contains_key(more.last().0) {
            before
        } else {
            before.push(more.last().0)
        }
    }
}

/// The system prompts of the variants of a list, in order.
pub open spec fn prompts(list: Seq<(Seq<char>, VariantView)>) -> Seq<Seq<char>>
    decreases list.len(),
{
    if list.len() == 0 {
        Seq::empty()
    } else {
        match list.last().1.system_prompt {
            Some(prompt) => prompts(list.drop_last()).push(prompt),
            None => prompts(list.drop_last()),
        }
    }
}

/// What is wrong with the routing of the model that goes by `model`: for each
/// provider of it that is not defined, in order.
pub open spec fn routing_problems(
    providers: Map<Seq<char>, ProviderView>,
    model: Seq<char>,
    routing: Seq<Seq<char>>,
) -> Seq<ProblemView>
    decreases routing.len(),
{
    if routing.len() == 0 {
        Seq::empty()
    } else {
        routing_problems(providers, model, routing.drop_last()) + if providers.contains_key(
            routing.last(),
        ) {
            Seq::empty()
        } else {
            seq![ProblemView::UnknownProvider { model, provider: routing.last() }]
        }
    }
}

/// What is wrong with the models of a list, in order.
pub open spec fn model_problems(
    providers: Map<Seq<char>, ProviderView>,
    list: Seq<(Seq<char>, ModelView)>,
) -> Seq<ProblemView>
    decreases list.len(),
{
    if list.len() == 0 {
        Seq::empty()
    } else {
        model_problems(providers, list.drop_last()) + routing_problems(
            providers,
            list.last().0,
            list.last().1.routing,
        )
    }
}

/// What is wrong with one provider.
pub open spec fn own_provider_problems(name: Seq<char>, provider: ProviderView) -> Seq<ProblemView> {
    (if provider.kind == ProviderKind::OpenaiCompatible && provider.api_base is None {
        seq![ProblemView::NoApiBase { provider: name }]
    } else {
        Seq::empty()
    }) + (if provider.kind == ProviderKind::OpenaiCompatible && provider.api_key is None {
        seq![ProblemView::NoApiKey { provider: name }]
    } else {
        Seq::empty()
    })
}

/// What is wrong with the providers of a list, in order.
pub open spec fn provider_problems(list: Seq<(Seq<char>, ProviderView)>) -> Seq<ProblemView>
    decreases list.len(),
{
    if list.len() == 0 {
        Seq::empty()
    } else {
        provider_problems(list.drop_last()) + own_provider_problems(
            list.last().0,
            list.last().1,
        )
    }
}

/// What is wrong with one variant.
pub open spec fn own_variant_problems(
    models: Map<Seq<char>, ModelView>,
    failed: Seq<Seq<char>>,
    name: Seq<char>,
    variant: VariantView,
) -> Seq<ProblemView> {
    (if models.contains_key(variant.model) {
        Seq::empty()
    } else {
        seq![ProblemView::UnknownModel { variant: name, model: variant.model }]
    }) + (if variant.system_prompt is Some && failed.contains(variant.system_prompt->0) {
        seq![ProblemView::PromptNotFound { variant: name, prompt: variant.system_prompt->0 }]
    } else {
        Seq::empty()
    })
}

/// What is wrong with the variants of a list, in order.
pub open spec fn variant_problems(
    models: Map<Seq<char>, ModelView>,
    failed: Seq<Seq<char>>,
    list: Seq<(Seq<char>, VariantView)>,
) -> Seq<ProblemView>
    decreases list.len(),
{
    if list.len() == 0 {
        Seq::empty()
    } else {
        variant_problems(models, failed, list.drop_last()) + own_variant_problems(
            models,
            failed,
            list.last().0,
            list.last().1,
        )
    }
}

/// Which problems the routing of a model has.
proof fn lemma_routing_problems(
    providers: Map<Seq<char>, ProviderView>,
    model: Seq<char>,
    routing: Seq<Seq<char>>,
    q: ProblemView,
)
    ensures
        routing_problems(providers, model, routing).contains(q) <==> (
        q matches ProblemView::UnknownProvider { model: m, provider } && m == model
            && routing.contains(provider) && !providers.contains_key(provider)),
    decreases routing.len(),
{
    if routing.len() > 0 {
        let init = routing.drop_last();
        let last = ProblemView::UnknownProvider { model, provider: routing.last() };
        lemma_routing_problems(providers, model, init, q);
        text::lemma_concat_contains(routing_problems(providers, model, init), seq![last], q);
        assert(seq![last].contains(q) <==> q == last) by {
            assert(seq![last][0] == last);
        }
        if let ProblemView::UnknownProvider { model: m, provider } = q {
            assert(routing =~= init.push(routing.last()));
            lemma_seq_contains_after_push(init, routing.last(), provider);
        }
        assert(routing_problems(providers, model, init) + Seq::<ProblemView>::empty()
            =~= routing_problems(providers, model, init));
    }
}

/// Which problems the models of a list have.
proof fn lemma_model_problems(
    providers: Map<Seq<char>, ProviderView>,
    list: Seq<(Seq<char>, ModelView)>,
    q: ProblemView,
)
    ensures
        model_problems(providers, list).contains(q) <==> exists|j: int|
            0 <= j < list.len() && routing_problems(
                providers,
                (#[trigger] list[j]).0,
                list[j].1.routing,
            ).contains(q),
    decreases list.len(),
{
    if list.len() > 0 {
        let init = list.drop_last();
        let own = routing_problems(providers, list.last().0, list.last().1.routing);
        lemma_model_problems(providers, init, q);
        text::lemma_concat_contains(model_problems(providers, init), own, q);
        if model_problems(providers, init).contains(q) {
            let j = choose|j: int|
                0 <= j < init.len() && routing_problems(
                    providers,
                    (#[trigger] init[j]).0,
                    init[j].1.routing,
                ).contains(q);
            assert(list[j] == init[j]);
        }
        if own.contains(q) {
            assert(list[list.len() - 1] == list.last());
        }
        if exists|j: int|
            0 <= j < list.len() && routing_problems(
                providers,
                (#[trigger] list[j]).0,
                list[j].1.routing,
            ).contains(q) {
            let j = choose|j: int|
                0 <= j < list.len() && routing_problems(
                    providers,
                    (#[trigger] list[j]).0,
                    list[j].1.routing,
                ).contains(q);
            if j < init.len() {
                assert(init[j] == list[j]);
            }
        }
    }
}

/// Which problems the providers of a list have.
proof fn lemma_provider_problems(list: Seq<(Seq<char>, ProviderView)>, q: ProblemView)
    ensures
        provider_problems(list).contains(q) <==> exists|j: int|
            0 <= j < list.len() && own_provider_problems(
                (#[trigger] list[j]).0,
                list[j].1,
            ).contains(q),
    decreases list.len(),
{
    if list.len() > 0 {
        let init = list.drop_last();
        let own = own_provider_problems(list.last().0, list.last().1);
        lemma_provider_problems(init, q);
        text::lemma_concat_contains(provider_problems(init), own, q);
        if provider_problems(init).contains(q) {
            let j = choose|j: int|
                0 <= j < init.len() && own_provider_problems(
                    (#[trigger] init[j]).0,
                    init[j].1,
                ).contains(q);
            assert(list[j] == init[j]);
        }
        if own.contains(q) {
            assert(list[list.len() - 1] == list.last());
        }
        if exists|j: int|
            0 <= j < list.len() && own_provider_problems(
                (#[trigger] list[j]).0,
                list[j].1,
            ).contains(q) {
            let j = choose|j: int|
                0 <= j < list.len() && own_provider_problems(
                    (#[trigger] list[j]).0,
                    list[j].1,
                ).contains(q);
            if j < init.len() {
                assert(init[j] == list[j]);
            }
        }
    }
}

/// Which problems the variants of a list have.
proof fn lemma_variant_problems(
    models: Map<Seq<char>, ModelView>,
    failed: Seq<Seq<char>>,
    list: Seq<(Seq<char>, VariantView)>,
    q: ProblemView,
)
    ensures
        variant_problems(models, failed, list).contains(q) <==> exists|j: int|
            0 <= j < list.len() && own_variant_problems(
                models,
                failed,
                (#[trigger] list[j]).0,
                list[j].1,
            ).contains(q),
    decreases list.len(),
{
    if list.len() > 0 {
        let init = list.drop_last();
        let own = own_variant_problems(models, failed, list.last().0, list.last().1);
        lemma_variant_problems(models, failed, init, q);
        text::lemma_concat_contains(variant_problems(models, failed, init), own, q);
        if variant_problems(models, failed, init).contains(q) {
            let j = choose|j: int|
                0 <= j < init.len() && own_variant_problems(
                    models,
                    failed,
                    (#[trigger] init[j]).0,
                    init[j].1,
                ).contains(q);
            assert(list[j] == init[j]);
        }
        if own.contains(q) {
            assert(list[list.len() - 1] == list.last());
        }
        if exists|j: int|
            0 <= j < list.len() && own_variant_problems(
                models,
                failed,
                (#[trigger] list[j]).0,
                list[j].1,
            ).contains(q) {
            let j = choose|j: int|
                0 <= j < list.len() && own_variant_problems(
                    models,
                    failed,
                    (#[trigger] list[j]).0,
                    list[j].1,
                ).contains(q);
            if j < init.len() {
                assert(init[j] == list[j]);
            }
        }
    }
}

/// Which problems one provider has.
proof fn lemma_own_provider_problems(name: Seq<char>, provider: ProviderView, q: ProblemView)
    ensures
        own_provider_problems(name, provider).contains(q) <==> (provider.kind
            == ProviderKind::OpenaiCompatible && ((q == ProblemView::NoApiBase { provider: name }
            && provider.api_base is None) || (q == ProblemView::NoApiKey { provider: name }
            && provider.api_key is None))),
{
    let base = ProblemView::NoApiBase { provider: name };
    let key = ProblemView::NoApiKey { provider: name };
    let none = Seq::<ProblemView>::empty();
    assert(seq![base][0] == base && seq![key][0] == key);
    text::lemma_concat_contains(none, none, q);
    text::lemma_concat_contains(seq![base], none, q);
    text::lemma_concat_contains(none, seq![key], q);
    text::lemma_concat_contains(seq![base], seq![key], q);
}

/// Which problems one variant has.
proof fn lemma_own_variant_problems(
    models: Map<Seq<char>, ModelView>,
    failed: Seq<Seq<char>>,
    name: Seq<char>,
    variant: VariantView,
    q: ProblemView,
)
    ensures
        own_variant_problems(models, failed, name, variant).contains(q) <==> ((q
            == ProblemView::UnknownModel { variant: name, model: variant.model }
            && !models.contains_key(variant.model)) || (
        q matches ProblemView::PromptNotFound { variant: v, prompt } && v == name
            && variant.system_prompt == Some(prompt) && failed.contains(prompt))),
{
    let model = ProblemView::UnknownModel { variant: name, model: variant.model };
    let prompt = ProblemView::PromptNotFound { variant: name, prompt: variant.system_prompt->0 };
    let none = Seq::<ProblemView>::empty();
    assert(seq![model][0] == model && seq![prompt][0] == prompt);
    text::lemma_concat_contains(none, none, q);
    text::lemma_concat_contains(seq![model], none, q);
    text::lemma_concat_contains(none, seq![prompt], q);
    text::lemma_concat_contains(seq![model], seq![prompt], q);
}

/// What is listed as wrong with the models is what is wrong with them.
proof fn lemma_models_wrong(
    providers: Map<Seq<char>, ProviderView>,
    list: Seq<(Seq<char>, ModelView)>,
    q: ProblemView,
)
    requires
        table::distinct_names(list),
    ensures
        model_problems(providers, list).contains(q) <==> (
        q matches ProblemView::UnknownProvider { model, provider } && table::table_of(
            list,
        ).contains_key(model) && table::table_of(list)[model].routing.contains(provider)
            && !providers.contains_key(provider)),
{
    lemma_model_problems(providers, list, q);
    if model_problems(providers, list).contains(q) {
        let j = choose|j: int|
            0 <= j < list.len() && routing_problems(
                providers,
                (#[trigger] list[j]).0,
                list[j].1.routing,
            ).contains(q);
        lemma_routing_problems(providers, list[j].0, list[j].1.routing, q);
        table::lemma_table_last(list, j);
    }
    if let ProblemView::UnknownProvider { model, provider } = q {
        if table::table_of(list).contains_key(model) {
            table::lemma_table_value(list, model);
            let j = choose|j: int|
                0 <= j < list.len() && (#[trigger] list[j]) == (
                    model,
                    table::table_of(list)[model],
                );
            lemma_routing_problems(providers, list[j].0, list[j].1.routing, q);
        }
    }
}

/// What is listed as wrong with the providers is what is wrong with them.
proof fn lemma_providers_wrong(list: Seq<(Seq<char>, ProviderView)>, q: ProblemView)
    requires
        table::distinct_names(list),
    ensures
        provider_problems(list).contains(q) <==> {
            let m = table::table_of(list);
            match q {
                ProblemView::NoApiBase { provider } => m.contains_key(provider)
                    && m[provider].kind == ProviderKind::OpenaiCompatible && m[provider].api_base
                    is None,
                ProblemView::NoApiKey { provider } => m.contains_key(provider)
                    && m[provider].kind == ProviderKind::OpenaiCompatible && m[provider].api_key
                    is None,
                _ => false,
            }
        },
{
    lemma_provider_problems(list, q);
    if provider_problems(list).contains(q) {
        let j = choose|j: int|
            0 <= j < list.len() && own_provider_problems(
                (#[trigger] list[j]).0,
                list[j].1,
            ).contains(q);
        lemma_own_provider_problems(list[j].0, list[j].1, q);
        table::lemma_table_last(list, j);
    }
    let name = match q {
        ProblemView::NoApiBase { provider } => provider,
        ProblemView::NoApiKey { provider } => provider,
        _ => Seq::empty(),
    };
    if table::table_of(list).contains_key(name) {
        table::lemma_table_value(list, name);
        let j = choose|j: int|
            0 <= j < list.len() && (#[trigger] list[j]) == (name, table::table_of(list)[name]);
        lemma_own_provider_problems(list[j].0, list[j].1, q);
    }
}

/// What is listed as wrong with the variants is what is wrong with them.
proof fn lemma_variants_wrong(
    models: Map<Seq<char>, ModelView>,
    failed: Seq<Seq<char>>,
    list: Seq<(Seq<char>, VariantView)>,
    q: ProblemView,
)
    requires
        table::distinct_names(list),
    ensures
        variant_problems(models, failed, list).contains(q) <==> {
            let m = table::table_of(list);
            match q {
                ProblemView::UnknownModel { variant, model } => m.contains_key(variant)
                    && m[variant].model == model && !models.contains_key(model),
                ProblemView::PromptNotFound { variant, prompt } => m.contains_key(variant)
                    && m[variant].system_prompt == Some(prompt) && failed.contains(prompt),
                _ => false,
            }
        },
{
    lemma_variant_problems(models, failed, list, q);
    if variant_problems(models, failed, list).contains(q) {
        let j = choose|j: int|
            0 <= j < list.len() && own_variant_problems(
                models,
                failed,
                (#[trigger] list[j]).0,
                list[j].1,
            ).contains(q);
        lemma_own_variant_problems(models, failed, list[j].0, list[j].1, q);
        table::lemma_table_last(list, j);
    }
    let name = match q {
        ProblemView::UnknownModel { variant, .. } => variant,
        ProblemView::PromptNotFound { variant, .. } => variant,
        _ => Seq::empty(),
    };
    if table::table_of(list).contains_key(name) {
        table::lemma_table_value(list, name);
        let j = choose|j: int|
            0 <= j < list.len() && (#[trigger] list[j]) == (name, table::table_of(list)[name]);
        lemma_own_variant_problems(models, failed, list[j].0, list[j].1, q);
    }
}

/// Adds a problem to the list.
fn report(out: &mut Vec<Problem>, p: Problem)
    ensures
        problem_views(final(out)@) == problem_views(old(out)@) + seq![p@],
{
    let ghost before = problem_views(out@);
    out.push(p);
    assert(problem_views(out@) =~= before + seq![p@]);
}

impl Config {
    /// Adds what is wrong with the routing of one model.
    fn report_routing(&self, name: &String, model: &Model, out: &mut Vec<Problem>)
        ensures
            problem_views(final(out)@) == problem_views(old(out)@) + routing_problems(
                self@.providers,
                name@,
                model@.routing,
            ),
    {
        let ghost before = problem_views(out@);
        let ghost routing = model@.routing;
        let mut i: usize = 0;
        assert(before + routing_problems(self@.providers, name@, routing.take(0)) =~= before);
        while i < model.routing.len()
            invariant
                i <= model.routing@.len(),
                routing == model@.routing,
                problem_views(out@) == before + routing_problems(
                    self@.providers,
                    name@,
                    routing.take(i as int),
                ),
            decreases model.routing@.len() - i,
        {
            let provider = &model.routing[i];
            assert(routing.take(i + 1).drop_last() =~= routing.take(i as int));
            assert(routing.take(i + 1).last() == provider@);
            if !self.providers.contains_key(provider.as_str()) {
                report(
                    out,
                    Problem::UnknownProvider { model: name.clone(), provider: provider.clone() },
                );
            }
            assert(problem_views(out@) =~= before + routing_problems(
                self@.providers,
                name@,
                routing.take(i + 1),
            ));
            i = i + 1;
        }
        assert(routing.take(i as int) =~= routing);
    }

    /// Adds what is wrong with the models.
    fn report_models(&self, out: &mut Vec<Problem>)
        ensures
            problem_views(final(out)@) == problem_views(old(out)@) + model_problems(
                self@.providers,
                self.models.listing(),
            ),
            table::distinct_names(self.models.listing()),
            self@.models == table::table_of(self.models.listing()),
    {
        let ghost before = problem_views(out@);
        let n: usize = self.models.len();
        let ghost list = self.models.listing();
        let mut i: usize = 0;
        assert(before + model_problems(self@.providers, list.take(0)) =~= before);
        while i < n
            invariant
                i <= n,
                n == list.len(),
                list == self.models.listing(),
                problem_views(out@) == before + model_problems(
                    self@.providers,
                    list.take(i as int),
                ),
            decreases n - i,
        {
            let name = self.models.name_at(i);
            let model = self.models.value_at(i);
            self.report_routing(name, model, out);
            assert(list.take(i + 1).drop_last() =~= list.take(i as int));
            assert(list.take(i + 1).last() == (name@, model@));
            assert(problem_views(out@) =~= before + model_problems(
                self@.providers,
                list.take(i + 1),
            ));
            i = i + 1;
        }
        assert(list.take(i as int) =~= list);
    }

    /// Adds what is wrong with the providers.
    fn report_providers(&self, out: &mut Vec<Problem>)
        ensures
            problem_views(final(out)@) == problem_views(old(out)@) + provider_problems(
                self.providers.listing(),
            ),
            table::distinct_names(self.providers.listing()),
            self@.providers == table::table_of(self.providers.listing()),
    {
        let ghost before = problem_views(out@);
        let n: usize = self.providers.len();
        let ghost list = self.providers.listing();
        let mut i: usize = 0;
        assert(before + provider_problems(list.take(0)) =~= before);
        while i < n
            invariant
                i <= n,
                n == list.len(),
                list == self.providers.listing(),
                problem_views(out@) == before + provider_problems(list.take(i as int)),
            decreases n - i,
        {
            let name = self.providers.name_at(i);
            let provider = self.providers.value_at(i);
            match provider.kind {
                ProviderKind::OpenaiCompatible => {
                    if provider.api_base.is_none() {
                        report(out, Problem::NoApiBase { provider: name.clone() });
                    }
                    if provider.api_key.is_none() {
                        report(out, Problem::NoApiKey { provider: name.clone() });
                    }
                },
            }
            assert(list.take(i + 1).drop_last() =~= list.take(i as int));
            assert(list.take(i + 1).last() == (name@, provider@));
            assert(problem_views(out@) =~= before + provider_problems(list.take(i + 1)));
            i = i + 1;
        }
        assert(list.take(i as int) =~= list);
    }

    /// Adds what is wrong with the variants.
    fn report_variants(&self, failed: &Vec<String>, out: &mut Vec<Problem>)
        ensures
            problem_views(final(out)@) == problem_views(old(out)@) + variant_problems(
                self@.models,
                text::texts(failed@),
                self.variants.listing(),
            ),
            table::distinct_names(self.variants.listing()),
            self@.variants == table::table_of(self.variants.listing()),
    {
        let ghost before = problem_views(out@);
        let ghost lost = text::texts(failed@);
        let n: usize = self.variants.len();
        let ghost list = self.variants.listing();
        let mut i: usize = 0;
        assert(before + variant_problems(self@.models, lost, list.take(0)) =~= before);
        while i < n
            invariant
                i <= n,
                n == list.len(),
                lost == text::texts(failed@),
                list == self.variants.listing(),
                problem_views(out@) == before + variant_problems(
                    self@.models,
                    lost,
                    list.take(i as int),
                ),
            decreases n - i,
        {
            let name = self.variants.name_at(i);
            let variant = self.variants.value_at(i);
            if !self.models.contains_key(variant.model.as_str()) {
                report(
                    out,
                    Problem::UnknownModel { variant: name.clone(), model: variant.model.clone() },
                );
            }
            if let Some(prompt) = &variant.system_prompt {
                if contains_text(failed, prompt.as_str()) {
                    report(
                        out,
                        Problem::PromptNotFound { variant: name.clone(), prompt: prompt.clone() },
                    );
                }
            }
            assert(list.take(i + 1).drop_last() =~= list.take(i as int));
            assert(list.take(i + 1).last() == (name@, variant@));
            assert(problem_views(out@) =~= before + variant_problems(
                self@.models,
                lost,
                list.take(i + 1),
            ));
            i = i + 1;
        }
        assert(list.take(i as int) =~= list);
    }

    /// Everything that is wrong with the configuration, where `failed` are the
    /// system prompts that could not be looked for: first of the models, then of the
    /// providers, then of the variants, each in the order of their tables.
    pub fn problems(&self, failed: &Vec<String>) -> (r: Vec<Problem>)
        ensures
            problem_views(r@) == model_problems(self@.providers, self.models.listing())
                + provider_problems(self.providers.listing()) + variant_problems(
                self@.models,
                text::texts(failed@),
                self.variants.listing(),
            ),
            forall|p: ProblemView| #[trigger]
                problem_views(r@).contains(p) <==> self@.has_problem(text::texts(failed@), p),
    {
        let mut out: Vec<Problem> = Vec::new();
        self.report_models(&mut out);
        self.report_providers(&mut out);
        self.report_variants(failed, &mut out);
        proof {
            let lost = text::texts(failed@);
            let ms = self.models.listing();
            let ps = self.providers.listing();
            let vs = self.variants.listing();
            let a = model_problems(self@.providers, ms);
            let b = provider_problems(ps);
            let c = variant_problems(self@.models, lost, vs);
            assert(problem_views(out@) =~= a + b + c);
            assert forall|q: ProblemView| #[trigger]
                problem_views(out@).contains(q) <==> self@.has_problem(lost, q) by {
                text::lemma_concat_contains(a, b, q);
                text::lemma_concat_contains(a + b, c, q);
                lemma_models_wrong(self@.providers, ms, q);
                lemma_providers_wrong(ps, q);
                lemma_variants_wrong(self@.models, lost, vs, q);
            }
        }
        out
    }

    /// Validation logic
    pub fn validate(&self, failed: &Vec<String>) -> (r: bool)
        ensures
            r == self@.valid(text::texts(failed@)),
    {
        let found = self.problems(failed);
        let ghost views = problem_views(found@);
        if found.len() == 0 {
            assert forall|p: ProblemView| !self@.has_problem(text::texts(failed@), p) by {
                assert(!views.contains(p));
            }
            true
        } else {
            assert(views.contains(views[0]));
            false
        }
    }

    /// Everything that is worth a remark, each once: for each model and each of its
    /// settings, in the order of their tables.
    pub fn notes(&self) -> (r: Vec<Note>)
        ensures
            note_views(r@) == model_notes(self.models.contents()),
            note_views(r@).no_duplicates(),
            forall|n: NoteView| #[trigger] note_views(r@).contains(n) <==> self@.has_note(n),
    {
        let n: usize = self.models.len();
        let ghost list = self.models.listing();
        let ghost all = self.models.contents();
        let mut out: Vec<Note> = Vec::new();
        let mut i: usize = 0;
        assert(note_views(out@) =~= model_notes(all.take(0)));
        while i < n
            invariant
                i <= n,
                n == list.len(),
                list == self.models.listing(),
                table::distinct_names(list),
                all == self.models.contents(),
                list == table::entry_views(all),
                note_views(out@) == model_notes(all.take(i as int)),
                note_views(out@).no_duplicates(),
                forall|q: NoteView| #[trigger]
                    note_views(out@).contains(q) <==> exists|j: int|
                        0 <= j < i && (#[trigger] list[j]).1.has_note(list[j].0, q),
            decreases n - i,
        {
            let name = self.models.name_at(i);
            let model = self.models.value_at(i);
            assert(list[i as int] == (name@, model@));
            assert(all.take(i + 1).drop_last() =~= all.take(i as int));
            assert(all.take(i + 1).last() == (*name, *model));
            remark_model(name, model, &mut out);
            i = i + 1;
        }
        proof {
            assert(all.take(i as int) =~= all);
            assert forall|q: NoteView| #[trigger]
                note_views(out@).contains(q) <==> self@.has_note(q) by {
                if exists|j: int| 0 <= j < n && (#[trigger] list[j]).1.has_note(list[j].0, q) {
                    let j = choose|j: int|
                        0 <= j < n && (#[trigger] list[j]).1.has_note(list[j].0, q);
                    table::lemma_table_last(list, j);
                    assert(self@.models.contains_key(list[j].0));
                }
                if self@.has_note(q) {
                    let name = choose|name: Seq<char>| #[trigger]
                        self@.models.contains_key(name) && self@.models[name].has_note(name, q);
                    table::lemma_table_value(list, name);
                }
            }
        }
        out
    }

    /// The system prompts of the variants, which are to be looked for, in the order of
    /// the variants.
    pub fn prompt_files(&self) -> (r: Vec<String>)
        ensures
            text::texts(r@) == prompts(self.variants.listing()),
            forall|p: Seq<char>| #[trigger]
                text::texts(r@).contains(p) <==> exists|v: Seq<char>| #[trigger]
                    self@.variants.contains_key(v) && self@.variants[v].system_prompt == Some(p),
    {
        let n: usize = self.variants.len();
        let ghost list = self.variants.listing();
        let mut out: Vec<String> = Vec::new();
        let mut i: usize = 0;
        while i < n
            invariant
                i <= n,
                n == list.len(),
                list == self.variants.listing(),
                text::texts(out@) == prompts(list.take(i as int)),
                forall|p: Seq<char>| #[trigger]
                    text::texts(out@).contains(p) <==> exists|j: int|
                        0 <= j < i && (#[trigger] list[j]).1.system_prompt == Some(p),
            decreases n - i,
        {
            let variant = self.variants.value_at(i);
            assert(list[i as int].1 == variant@);
            assert(list.take(i + 1).drop_last() =~= list.take(i as int));
            assert(list.take(i + 1).last() == list[i as int]);
            if let Some(prompt) = &variant.system_prompt {
                let ghost before = text::texts(out@);
                out.push(prompt.clone());
                assert(text::texts(out@) =~= before.push(prompt@));
                assert forall|p: Seq<char>| #[trigger]
                    text::texts(out@).contains(p) <==> before.contains(p) || p == prompt@ by {
                    lemma_seq_contains_after_push(before, prompt@, p);
                }
            }
            i = i + 1;
        }
        proof {
            assert(list.take(n as int) =~= list);
            assert forall|p: Seq<char>| #[trigger]
                text::texts(out@).contains(p) <==> exists|v: Seq<char>| #[trigger]
                    self@.variants.contains_key(v) && self@.variants[v].system_prompt == Some(
                        p,
                    ) by {
                if exists|j: int| 0 <= j < n && (#[trigger] list[j]).1.system_prompt == Some(p) {
                    let j = choose|j: int|
                        0 <= j < n && (#[trigger] list[j]).1.system_prompt == Some(p);
                    table::lemma_table_last(list, j);
                    assert(self@.variants.contains_key(list[j].0));
                }
                if exists|v: Seq<char>| #[trigger]
                    self@.variants.contains_key(v) && self@.variants[v].system_prompt == Some(p) {
                    let v = choose|v: Seq<char>| #[trigger]
                        self@.variants.contains_key(v) && self@.variants[v].system_prompt == Some(
                            p,
                        );
                    table::lemma_table_value(list, v);
                }
            }
        }
        out
    }

    /// The names that requests can be made for: the models, then the variants that go
    /// by a name of their own, in the order of their tables.
    pub fn list_models(&self) -> (r: Vec<String>)
        ensures
            text::texts(r@) == served_names(
                self@.models,
                self.models.listing(),
                self.variants.listing(),
            ),
            text::texts(r@).no_duplicates(),
            forall|name: Seq<char>| #[trigger]
                text::texts(r@).contains(name) <==> self@.serves(name),
    {
        let n: usize = self.models.len();
        let ghost list = self.models.listing();
        let mut out: Vec<String> = Vec::new();
        let mut i: usize = 0;
        while i < n
            invariant
                i <= n,
                n == list.len(),
                list == self.models.listing(),
                out@.len() == i,
                forall|j: int| 0 <= j < i ==> (#[trigger] out@[j])@ == list[j].0,
            decreases n - i,
        {
            out.push(self.models.name_at(i).clone());
            i = i + 1;
        }
        let ghost first = text::texts(out@);
        proof {
            assert forall|name: Seq<char>| #[trigger]
                first.contains(name) <==> self@.models.contains_key(name) by {
                table::lemma_table_domain(list, name);
                if first.contains(name) {
                    let j = choose|j: int| 0 <= j < first.len() && first[j] == name;
                    assert(list[j].0 == out@[j]@);
                }
                if exists|j: int| 0 <= j < list.len() && (#[trigger] list[j]).0 == name {
                    let j = choose|j: int| 0 <= j < list.len() && (#[trigger] list[j]).0 == name;
                    assert(first[j] == out@[j]@);
                }
            }
            assert forall|j: int, k: int|
                0 <= j < first.len() && 0 <= k < first.len() && j != k implies first[j]
                != first[k] by {
                assert(list[j].0 == out@[j]@ && list[k].0 == out@[k]@);
            }
        }
        let m: usize = self.variants.len();
        let ghost more = self.variants.listing();
        let mut k: usize = 0;
        assert(first =~= served_names(self@.models, list, more.take(0)));
        while k < m
            invariant
                k <= m,
                m == more.len(),
                more == self.variants.listing(),
                table::distinct_names(more),
                text::texts(out@) == served_names(self@.models, list, more.take(k as int)),
                text::texts(out@).no_duplicates(),
                forall|name: Seq<char>| #[trigger]
                    text::texts(out@).contains(name) <==> self@.models.contains_key(name)
                        || exists|j: int| 0 <= j < k && (#[trigger] more[j]).0 == name,
            decreases m - k,
        {
            let name = self.variants.name_at(k);
            assert(more[k as int].0 == name@);
            assert(more.take(k + 1).drop_last() =~= more.take(k as int));
            assert(more.take(k + 1).last() == more[k as int]);
            if !self.models.contains_key(name.as_str()) {
                let ghost before = text::texts(out@);
                out.push(name.clone());
                assert(text::texts(out@) =~= before.push(name@));
                assert forall|p: Seq<char>| #[trigger]
                    text::texts(out@).contains(p) <==> before.contains(p) || p == name@ by {
                    lemma_seq_contains_after_push(before, name@, p);
                }
                assert forall|a: int, b: int|
                    0 <= a < text::texts(out@).len() && 0 <= b < text::texts(out@).len() && a
                        != b implies text::texts(out@)[a] != text::texts(out@)[b] by {
                    if a < before.len() {
                        assert(before.contains(before[a]));
                    }
                    if b < before.len() {
                        assert(before.contains(before[b]));
                    }
                }
            }
            k = k + 1;
        }
        proof {
            assert(more.take(k as int) =~= more);
            assert forall|name: Seq<char>| #[trigger]
                text::texts(out@).contains(name) <==> self@.serves(name) by {
                table::lemma_table_domain(more, name);
            }
        }
        out
    }
}

} // verus!
