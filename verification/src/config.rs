//! The configuration: providers, models, variants of models, and which data a
//! request for a model is sent with.

use vstd::prelude::*;

use crate::pointer;
use crate::pointer::{ExtraBodyJson, ExtraBodyJsonView};
use crate::table;
use crate::table::Table;
use crate::text;
use crate::text::{joined, opt_copy, strip_prefix};
use crate::toml_value;
use crate::toml_value::{toml_to_json, TomlValue, TomlView};

verus! {

/// Type of the API used by provider
#[derive(Debug, Clone, Copy, PartialEq, Eq, Structural)]
pub enum ProviderKind {
    OpenaiCompatible,
}

impl Default for ProviderKind {
    fn default() -> (r: Self)
        ensures
            r == ProviderKind::OpenaiCompatible,
    {
        ProviderKind::OpenaiCompatible
    }
}

/// Prompt conflict handling mode
#[derive(Debug, Clone, Copy, PartialEq, Eq, Structural)]
pub enum PromptMode {
    Replace,
    Combine,
    Fallback,
}

impl Default for PromptMode {
    fn default() -> (r: Self)
        ensures
            r == PromptMode::Fallback,
    {
        PromptMode::Fallback
    }
}

/// A sampling temperature, by the bits of its single-precision number. It is
/// carried as it is.
#[derive(Debug, Clone, Copy, PartialEq, Eq, Structural)]
pub struct Temperature {
    pub bits: u32,
}

/// Model provider api
#[derive(Debug)]
pub struct Provider {
    pub kind: ProviderKind,
    pub api_base: Option<String>,
    pub api_key: Option<String>,
}

/// Extra request body
#[derive(Debug)]
pub struct ExtraBody {
    pub pointer: String,
    pub value: TomlValue,
}

/// Per-provider settings for models
#[derive(Debug)]
pub struct ProviderModel {
    pub model_name: Option<String>,
    pub extra_headers: Table<String>,
    pub extra_body: Vec<ExtraBody>,
}

/// Models with routing to providers
#[derive(Debug)]
pub struct Model {
    pub routing: Vec<String>,
    pub providers: Table<ProviderModel>,
    pub temperature: Option<Temperature>,
    pub extra_headers: Table<String>,
    pub extra_body: Vec<ExtraBody>,
}

/// Model variants with custom parameters and system prompts
#[derive(Debug)]
pub struct Variants {
    pub model: String,
    pub system_prompt: Option<String>,
    pub system_prompt_mode: PromptMode,
    pub extra_headers: Table<String>,
    pub extra_body: Vec<ExtraBody>,
    pub temperature: Option<Temperature>,
}

/// Config file structure, and the variables of the environment file
#[derive(Debug)]
pub struct Config {
    pub providers: Table<Provider>,
    pub models: Table<Model>,
    pub variants: Table<Variants>,
    pub env_file: Option<String>,
    pub port: Option<u16>,
    pub host: Option<String>,
    pub no_reload: bool,
    pub api_key: Option<String>,
    pub env: Table<String>,
}

/// API-agnostic request forwarder data
#[derive(Debug)]
pub struct RequestData {
    pub provider_kind: ProviderKind,
    pub api_base: String,
    pub api_key: String,
    pub model_name: String,
    pub extra_body: Vec<ExtraBodyJson>,
    pub extra_headers: Table<String>,
    pub system_prompt: Option<String>,
    pub system_prompt_mode: PromptMode,
    pub temperature: Option<Temperature>,
}

/// Why there is no data for a model
#[derive(Debug)]
pub enum DataError {
    ModelNotDefined(String),
    NoProviders(String),
    ProviderNotFound(String),
    NoUrl(String),
}

/// What a `Provider` says.
pub struct ProviderView {
    pub kind: ProviderKind,
    pub api_base: Option<Seq<char>>,
    pub api_key: Option<Seq<char>>,
}

/// What an `ExtraBody` says.
pub struct ExtraBodyView {
    pub pointer: Seq<char>,
    pub value: TomlView,
}

/// What a `ProviderModel` says.
pub struct ProviderModelView {
    pub model_name: Option<Seq<char>>,
    pub extra_headers: Map<Seq<char>, Seq<char>>,
    pub extra_body: Seq<ExtraBodyView>,
}

/// What a `Model` says.
pub struct ModelView {
    pub routing: Seq<Seq<char>>,
    pub providers: Map<Seq<char>, ProviderModelView>,
    pub temperature: Option<Temperature>,
    pub extra_headers: Map<Seq<char>, Seq<char>>,
    pub extra_body: Seq<ExtraBodyView>,
}

/// What a `Variants` says.
pub struct VariantView {
    pub model: Seq<char>,
    pub system_prompt: Option<Seq<char>>,
    pub system_prompt_mode: PromptMode,
    pub extra_headers: Map<Seq<char>, Seq<char>>,
    pub extra_body: Seq<ExtraBodyView>,
    pub temperature: Option<Temperature>,
}

/// What a `Config` says.
pub struct ConfigView {
    pub providers: Map<Seq<char>, ProviderView>,
    pub models: Map<Seq<char>, ModelView>,
    pub variants: Map<Seq<char>, VariantView>,
    pub env_file: Option<Seq<char>>,
    pub port: Option<u16>,
    pub host: Option<Seq<char>>,
    pub no_reload: bool,
    pub api_key: Option<Seq<char>>,
    pub env: Map<Seq<char>, Seq<char>>,
}

/// What a `RequestData` says.
pub struct RequestDataView {
    pub provider_kind: ProviderKind,
    pub api_base: Seq<char>,
    pub api_key: Seq<char>,
    pub model_name: Seq<char>,
    pub extra_body: Seq<ExtraBodyJsonView>,
    pub extra_headers: Map<Seq<char>, Seq<char>>,
    pub system_prompt: Option<Seq<char>>,
    pub system_prompt_mode: PromptMode,
    pub temperature: Option<Temperature>,
}

/// What a `DataError` says.
pub enum DataErrorView {
    ModelNotDefined(Seq<char>),
    NoProviders(Seq<char>),
    ProviderNotFound(Seq<char>),
    NoUrl(Seq<char>),
}

impl View for Provider {
    type V = ProviderView;

    open spec fn view(&self) -> ProviderView {
        ProviderView {
            kind: self.kind,
            api_base: text::opt_text(self.api_base),
            api_key: text::opt_text(self.api_key),
        }
    }
}

impl View for ExtraBody {
    type V = ExtraBodyView;

    open spec fn view(&self) -> ExtraBodyView {
        ExtraBodyView { pointer: self.pointer@, value: self.value@ }
    }
}

/// What a list of `ExtraBody` says.
pub open spec fn bodies(list: Seq<ExtraBody>) -> Seq<ExtraBodyView> {
    list.map_values(|e: ExtraBody| e@)
}

impl View for ProviderModel {
    type V = ProviderModelView;

    open spec fn view(&self) -> ProviderModelView {
        ProviderModelView {
            model_name: text::opt_text(self.model_name),
            extra_headers: self.extra_headers@,
            extra_body: bodies(self.extra_body@),
        }
    }
}

impl View for Model {
    type V = ModelView;

    open spec fn view(&self) -> ModelView {
        ModelView {
            routing: text::texts(self.routing@),
            providers: self.providers@,
            temperature: self.temperature,
            extra_headers: self.extra_headers@,
            extra_body: bodies(self.extra_body@),
        }
    }
}

impl View for Variants {
    type V = VariantView;

    open spec fn view(&self) -> VariantView {
        VariantView {
            model: self.model@,
            system_prompt: text::opt_text(self.system_prompt),
            system_prompt_mode: self.system_prompt_mode,
            extra_headers: self.extra_headers@,
            extra_body: bodies(self.extra_body@),
            temperature: self.temperature,
        }
    }
}

impl View for Config {
    type V = ConfigView;

    open spec fn view(&self) -> ConfigView {
        ConfigView {
            providers: self.providers@,
            models: self.models@,
            variants: self.variants@,
            env_file: text::opt_text(self.env_file),
            port: self.port,
            host: text::opt_text(self.host),
            no_reload: self.no_reload,
            api_key: text::opt_text(self.api_key),
            env: self.env@,
        }
    }
}

impl View for RequestData {
    type V = RequestDataView;

    open spec fn view(&self) -> RequestDataView {
        RequestDataView {
            provider_kind: self.provider_kind,
            api_base: self.api_base@,
            api_key: self.api_key@,
            model_name: self.model_name@,
            extra_body: pointer::extras_view(self.extra_body@),
            extra_headers: self.extra_headers@,
            system_prompt: text::opt_text(self.system_prompt),
            system_prompt_mode: self.system_prompt_mode,
            temperature: self.temperature,
        }
    }
}

impl View for DataError {
    type V = DataErrorView;

    open spec fn view(&self) -> DataErrorView {
        match self {
            DataError::ModelNotDefined(s) => DataErrorView::ModelNotDefined(s@),
            DataError::NoProviders(s) => DataErrorView::NoProviders(s@),
            DataError::ProviderNotFound(s) => DataErrorView::ProviderNotFound(s@),
            DataError::NoUrl(s) => DataErrorView::NoUrl(s@),
        }
    }
}

/// A copy of a list of values to add.
fn copy_bodies(list: &Vec<ExtraBody>) -> (r: Vec<ExtraBody>)
    ensures
        bodies(r@) == bodies(list@),
{
    let ghost all = bodies(list@);
    let mut r: Vec<ExtraBody> = Vec::new();
    let mut i: usize = 0;
    assert(bodies(r@) =~= all.take(0));
    while i < list.len()
        invariant
            i <= list@.len(),
            all == bodies(list@),
            bodies(r@) == all.take(i as int),
        decreases list@.len() - i,
    {
        let e = list[i].clone();
        let ghost before = bodies(r@);
        r.push(e);
        assert(bodies(r@) =~= before.push(e@));
        assert(all.take(i + 1) =~= all.take(i as int).push(e@));
        i = i + 1;
    }
    assert(all.take(i as int) =~= all);
    r
}

/// A copy of a list of names.
fn copy_texts(list: &Vec<String>) -> (r: Vec<String>)
    ensures
        text::texts(r@) == text::texts(list@),
{
    let ghost all = text::texts(list@);
    let mut r: Vec<String> = Vec::new();
    let mut i: usize = 0;
    assert(text::texts(r@) =~= all.take(0));
    while i < list.len()
        invariant
            i <= list@.len(),
            all == text::texts(list@),
            text::texts(r@) == all.take(i as int),
        decreases list@.len() - i,
    {
        let ghost before = text::texts(r@);
        r.push(list[i].clone());
        assert(text::texts(r@) =~= before.push(list@[i as int]@));
        assert(all.take(i + 1) =~= all.take(i as int).push(list@[i as int]@));
        i = i + 1;
    }
    assert(all.take(i as int) =~= all);
    r
}

impl Clone for Provider {
    fn clone(&self) -> (r: Self)
        ensures
            r@ == self@,
    {
        Provider {
            kind: self.kind,
            api_base: opt_copy(&self.api_base),
            api_key: opt_copy(&self.api_key),
        }
    }
}

impl Clone for ExtraBody {
    fn clone(&self) -> (r: Self)
        ensures
            r@ == self@,
    {
        ExtraBody { pointer: self.pointer.clone(), value: self.value.clone() }
    }
}

impl Clone for ProviderModel {
    fn clone(&self) -> (r: Self)
        ensures
            r@ == self@,
    {
        ProviderModel {
            model_name: opt_copy(&self.model_name),
            extra_headers: self.extra_headers.clone(),
            extra_body: copy_bodies(&self.extra_body),
        }
    }
}

impl Clone for Model {
    fn clone(&self) -> (r: Self)
        ensures
            r@ == self@,
    {
        Model {
            routing: copy_texts(&self.routing),
            providers: self.providers.clone(),
            temperature: self.temperature,
            extra_headers: self.extra_headers.clone(),
            extra_body: copy_bodies(&self.extra_body),
        }
    }
}

impl Clone for Variants {
    fn clone(&self) -> (r: Self)
        ensures
            r@ == self@,
    {
        Variants {
            model: self.model.clone(),
            system_prompt: opt_copy(&self.system_prompt),
            system_prompt_mode: self.system_prompt_mode,
            extra_headers: self.extra_headers.clone(),
            extra_body: copy_bodies(&self.extra_body),
            temperature: self.temperature,
        }
    }
}

impl Clone for Config {
    fn clone(&self) -> (r: Self)
        ensures
            r@ == self@,
    {
        Config {
            providers: self.providers.clone(),
            models: self.models.clone(),
            variants: self.variants.clone(),
            env_file: opt_copy(&self.env_file),
            port: self.port,
            host: opt_copy(&self.host),
            no_reload: self.no_reload,
            api_key: opt_copy(&self.api_key),
            env: self.env.clone(),
        }
    }
}

impl Clone for RequestData {
    fn clone(&self) -> (r: Self)
        ensures
            r@ == self@,
    {
        let ghost all = pointer::extras_view(self.extra_body@);
        let mut extra_body: Vec<ExtraBodyJson> = Vec::new();
        let mut i: usize = 0;
        assert(pointer::extras_view(extra_body@) =~= all.take(0));
        while i < self.extra_body.len()
            invariant
                i <= self.extra_body@.len(),
                all == pointer::extras_view(self.extra_body@),
                pointer::extras_view(extra_body@) == all.take(i as int),
            decreases self.extra_body@.len() - i,
        {
            let e = self.extra_body[i].clone();
            let ghost before = pointer::extras_view(extra_body@);
            extra_body.push(e);
            assert(pointer::extras_view(extra_body@) =~= before.push(e@));
            assert(all.take(i + 1) =~= all.take(i as int).push(e@));
            i = i + 1;
        }
        assert(all.take(i as int) =~= all);
        RequestData {
            provider_kind: self.provider_kind,
            api_base: self.api_base.clone(),
            api_key: self.api_key.clone(),
            model_name: self.model_name.clone(),
            extra_body,
            extra_headers: self.extra_headers.clone(),
            system_prompt: opt_copy(&self.system_prompt),
            system_prompt_mode: self.system_prompt_mode,
            temperature: self.temperature,
        }
    }
}

impl Default for RequestData {
    fn default() -> (r: Self)
        ensures
            r@ == (RequestDataView {
                provider_kind: ProviderKind::OpenaiCompatible,
                api_base: Seq::empty(),
                api_key: Seq::empty(),
                model_name: Seq::empty(),
                extra_body: Seq::empty(),
                extra_headers: Map::empty(),
                system_prompt: None,
                system_prompt_mode: PromptMode::Fallback,
                temperature: None,
            }),
    {
        let extra_body: Vec<ExtraBodyJson> = Vec::new();
        assert(pointer::extras_view(extra_body@) =~= Seq::<ExtraBodyJsonView>::empty());
        RequestData {
            provider_kind: ProviderKind::default(),
            api_base: String::new(),
            api_key: String::new(),
            model_name: String::new(),
            extra_body,
            extra_headers: Table::new(),
            system_prompt: None,
            system_prompt_mode: PromptMode::default(),
            temperature: None,
        }
    }
}

/// What begins a key that names an environment variable.
pub open spec fn env_prefix() -> Seq<char> {
    "env::"@
}

/// The value of a variable: from the environment file, and from the environment
/// of the process where the file does not set it.
pub open spec fn env_value(
    file_env: Map<Seq<char>, Seq<char>>,
    process_env: Map<Seq<char>, Seq<char>>,
    key: Seq<char>,
) -> Option<Seq<char>> {
    if file_env.contains_key(key) {
        Some(file_env[key])
    } else {
        process_env.get(key)
    }
}

/// The variable that a key names, where it begins with `env::`.
pub open spec fn variable_of(key: Option<Seq<char>>) -> Seq<Seq<char>> {
    match key {
        Some(k) => if text::has_prefix(k, env_prefix()) {
            seq![k.skip(env_prefix().len() as int)]
        } else {
            Seq::empty()
        },
        None => Seq::empty(),
    }
}

/// The variables that the keys of a list of providers name, in order.
pub open spec fn provider_variables(list: Seq<(Seq<char>, ProviderView)>) -> Seq<Seq<char>>
    decreases list.len(),
{
    if list.len() == 0 {
        Seq::empty()
    } else {
        provider_variables(list.drop_last()) + variable_of(list.last().1.api_key)
    }
}

/// Which variables the keys of a list of providers name.
proof fn lemma_provider_variables(list: Seq<(Seq<char>, ProviderView)>, v: Seq<char>)
    ensures
        provider_variables(list).contains(v) <==> exists|j: int|
            0 <= j < list.len() && variable_of((#[trigger] list[j]).1.api_key).contains(v),
    decreases list.len(),
{
    if list.len() > 0 {
        let init = list.drop_last();
        let a = provider_variables(init);
        let b = variable_of(list.last().1.api_key);
        lemma_provider_variables(init, v);
        text::lemma_concat_contains(a, b, v);
        if a.contains(v) {
            let j = choose|j: int|
                0 <= j < init.len() && variable_of((#[trigger] init[j]).1.api_key).contains(v);
            assert(list[j] == init[j]);
        }
        if b.contains(v) {
            assert(list[list.len() - 1] == list.last());
        }
        if exists|j: int|
            0 <= j < list.len() && variable_of((#[trigger] list[j]).1.api_key).contains(v) {
            let j = choose|j: int|
                0 <= j < list.len() && variable_of((#[trigger] list[j]).1.api_key).contains(v);
            if j < init.len() {
                assert(init[j] == list[j]);
            }
        }
    }
}

impl ConfigView {
    /// A key of the configuration names the variable `v`.
    pub open spec fn names_variable(self, v: Seq<char>) -> bool {
        variable_of(self.api_key).contains(v) || exists|p: Seq<char>| #[trigger]
            self.providers.contains_key(p) && variable_of(self.providers[p].api_key).contains(v)
    }
}

/// Adds the variable that a key names to a list.
fn push_variable(key: &Option<String>, out: &mut Vec<String>)
    ensures
        text::texts(final(out)@) == text::texts(old(out)@) + variable_of(text::opt_text(*key)),
{
    let ghost before = text::texts(out@);
    if let Some(k) = key {
        if let Some(name) = strip_prefix(k.as_str(), "env::") {
            out.push(name.to_owned());
        }
    }
    assert(text::texts(out@) =~= before + variable_of(text::opt_text(*key)));
}

impl DataErrorView {
    /// The text of the error.
    pub open spec fn message(self) -> Seq<char> {
        match self {
            DataErrorView::ModelNotDefined(name) => "Model "@ + name + " not defined"@,
            DataErrorView::NoProviders(name) => "Model "@ + name + " has no providers"@,
            DataErrorView::ProviderNotFound(name) => "Provider "@ + name + " not found"@,
            DataErrorView::NoUrl(name) => "No url specified for provider "@ + name,
        }
    }
}

impl DataError {
    /// The text of the error.
    pub fn message(&self) -> (r: String)
        ensures
            r@ == self@.message(),
    {
        match self {
            DataError::ModelNotDefined(name) => joined(
                joined("Model ", name.as_str()).as_str(),
                " not defined",
            ),
            DataError::NoProviders(name) => joined(
                joined("Model ", name.as_str()).as_str(),
                " has no providers",
            ),
            DataError::ProviderNotFound(name) => joined(
                joined("Provider ", name.as_str()).as_str(),
                " not found",
            ),
            DataError::NoUrl(name) => joined("No url specified for provider ", name.as_str()),
        }
    }
}

impl ExtraBodyView {
    /// The value to add, in JSON.
    pub open spec fn as_json(self) -> ExtraBodyJsonView {
        ExtraBodyJsonView { pointer: self.pointer, value: toml_value::as_json(self.value) }
    }
}

/// The values to add, in JSON.
pub open spec fn bodies_json(list: Seq<ExtraBodyView>) -> Seq<ExtraBodyJsonView> {
    list.map_values(|e: ExtraBodyView| e.as_json())
}

impl ConfigView {
    /// The name of the model that a request for `name` uses: the model of the
    /// variant `name` where there is such a variant, else `name` itself.
    pub open spec fn model_of(self, name: Seq<char>) -> Seq<char> {
        if self.variants.contains_key(name) {
            self.variants[name].model
        } else {
            name
        }
    }

    /// The key sent to a provider. A key that begins with `env::` is the value of
    /// the variable named after that, and empty where the variable has none.
    pub open spec fn provider_key(
        self,
        provider: ProviderView,
        process_env: Map<Seq<char>, Seq<char>>,
    ) -> Seq<char> {
        match provider.api_key {
            Some(key) => if text::has_prefix(key, env_prefix()) {
                match env_value(
                    self.env,
                    process_env,
                    key.skip(env_prefix().len() as int),
                ) {
                    Some(value) => value,
                    None => Seq::empty(),
                }
            } else {
                key
            },
            None => Seq::empty(),
        }
    }

    /// Why a request for `name` cannot be routed, if it cannot: its model is not
    /// defined or has no providers, or the first of them is not defined or has no
    /// url.
    pub open spec fn refusal(self, name: Seq<char>) -> Option<DataErrorView> {
        let model_name = self.model_of(name);
        if !self.models.contains_key(model_name) {
            Some(DataErrorView::ModelNotDefined(model_name))
        } else if self.models[model_name].routing.len() == 0 {
            Some(DataErrorView::NoProviders(model_name))
        } else {
            let provider_name = self.models[model_name].routing[0];
            if !self.providers.contains_key(provider_name) {
                Some(DataErrorView::ProviderNotFound(provider_name))
            } else if self.providers[provider_name].api_base is None {
                Some(DataErrorView::NoUrl(provider_name))
            } else {
                None
            }
        }
    }

    /// The data that a request for `name` is sent with, or why there is none.
    pub open spec fn data(
        self,
        name: Seq<char>,
        process_env: Map<Seq<char>, Seq<char>>,
    ) -> Result<RequestDataView, DataErrorView> {
        match self.refusal(name) {
            Some(e) => Err(e),
            None => Ok(self.routed(name, process_env)),
        }
    }

    /// The data that a request for `name` is sent with, where it can be routed:
    /// to the first provider of its model. Settings of the provider for the model
    /// go before those of the model, and settings of the variant before both.
    pub open spec fn routed(
        self,
        name: Seq<char>,
        process_env: Map<Seq<char>, Seq<char>>,
    ) -> RequestDataView {
        let model_name = self.model_of(name);
        let model = self.models[model_name];
        let provider_name = model.routing[0];
        let provider = self.providers[provider_name];
        let local = model.providers.get(provider_name);
        let variant = self.variants.get(name);
        RequestDataView {
            provider_kind: provider.kind,
            api_base: provider.api_base->0,
            api_key: self.provider_key(provider, process_env),
            model_name: match local {
                Some(p) => match p.model_name {
                    Some(n) => n,
                    None => model_name,
                },
                None => model_name,
            },
            extra_body: bodies_json(
                model.extra_body + match local {
                    Some(p) => p.extra_body,
                    None => Seq::empty(),
                } + match variant {
                    Some(v) => v.extra_body,
                    None => Seq::empty(),
                },
            ),
            extra_headers: model.extra_headers.union_prefer_right(
                match local {
                    Some(p) => p.extra_headers,
                    None => Map::empty(),
                },
            ).union_prefer_right(
                match variant {
                    Some(v) => v.extra_headers,
                    None => Map::empty(),
                },
            ),
            system_prompt: match variant {
                Some(v) => v.system_prompt,
                None => None,
            },
            system_prompt_mode: match variant {
                Some(v) => v.system_prompt_mode,
                None => PromptMode::Fallback,
            },
            temperature: match variant {
                Some(v) => if v.temperature is Some {
                    v.temperature
                } else {
                    model.temperature
                },
                None => model.temperature,
            },
        }
    }
}

/// What the outcome of a look-up says.
pub open spec fn outcome(r: Result<RequestData, DataError>) -> Result<
    RequestDataView,
    DataErrorView,
> {
    match r {
        Ok(d) => Ok(d@),
        Err(e) => Err(e@),
    }
}

/// Adds the values of `more` to `list`, in JSON.
fn push_bodies(list: &mut Vec<ExtraBodyJson>, more: &Vec<ExtraBody>)
    ensures
        pointer::extras_view(final(list)@) == pointer::extras_view(old(list)@) + bodies_json(
            bodies(more@),
        ),
{
    let ghost before = pointer::extras_view(list@);
    let ghost added = bodies_json(bodies(more@));
    let mut i: usize = 0;
    assert(before + added.take(0) =~= before);
    while i < more.len()
        invariant
            i <= more@.len(),
            added == bodies_json(bodies(more@)),
            pointer::extras_view(list@) == before + added.take(i as int),
        decreases more@.len() - i,
    {
        let e = ExtraBodyJson {
            pointer: more[i].pointer.clone(),
            value: toml_to_json(&more[i].value),
        };
        let ghost last = list@;
        list.push(e);
        assert(pointer::extras_view(list@) =~= pointer::extras_view(last).push(e@));
        assert(e@ == added[i as int]);
        assert(before + added.take(i + 1) =~= (before + added.take(i as int)).push(e@));
        i = i + 1;
    }
    assert(added.take(i as int) =~= added);
}

impl Config {
    /// The value of a variable: from the environment file, and from the
    /// environment of the process where the file does not set it.
    pub fn get_env(&self, key: &str, process_env: &Table<String>) -> (r: Option<String>)
        ensures
            text::opt_text(r) == env_value(self@.env, process_env@, key@),
    {
        if let Some(value) = self.env.get(key) {
            Some(value.clone())
        } else {
            match process_env.get(key) {
                Some(value) => Some(value.clone()),
                None => None,
            }
        }
    }

    /// The variables that the keys of the configuration name: those of the providers,
    /// in the order of their table, and then that of the application.
    pub fn variables(&self) -> (r: Vec<String>)
        ensures
            text::texts(r@) == provider_variables(self.providers.listing()) + variable_of(
                self@.api_key,
            ),
            forall|v: Seq<char>| #[trigger]
                text::texts(r@).contains(v) <==> self@.names_variable(v),
    {
        let n: usize = self.providers.len();
        let ghost list = self.providers.listing();
        let mut out: Vec<String> = Vec::new();
        let mut i: usize = 0;
        assert(text::texts(out@) =~= provider_variables(list.take(0)));
        while i < n
            invariant
                i <= n,
                n == list.len(),
                list == self.providers.listing(),
                text::texts(out@) == provider_variables(list.take(i as int)),
            decreases n - i,
        {
            let provider = self.providers.value_at(i);
            push_variable(&provider.api_key, &mut out);
            assert(list.take(i + 1).drop_last() =~= list.take(i as int));
            assert(list.take(i + 1).last().1 == provider@);
            i = i + 1;
        }
        assert(list.take(i as int) =~= list);
        push_variable(&self.api_key, &mut out);
        proof {
            let a = provider_variables(list);
            let b = variable_of(self@.api_key);
            assert forall|v: Seq<char>| #[trigger]
                text::texts(out@).contains(v) <==> self@.names_variable(v) by {
                text::lemma_concat_contains(a, b, v);
                lemma_provider_variables(list, v);
                if a.contains(v) {
                    let j = choose|j: int|
                        0 <= j < list.len() && variable_of(
                            (#[trigger] list[j]).1.api_key,
                        ).contains(v);
                    table::lemma_table_last(list, j);
                    assert(self@.providers.contains_key(list[j].0));
                }
                if exists|p: Seq<char>| #[trigger]
                    self@.providers.contains_key(p) && variable_of(
                        self@.providers[p].api_key,
                    ).contains(v) {
                    let p = choose|p: Seq<char>| #[trigger]
                        self@.providers.contains_key(p) && variable_of(
                            self@.providers[p].api_key,
                        ).contains(v);
                    table::lemma_table_value(list, p);
                }
            }
        }
        out
    }

    /// The key sent to a provider.
    fn provider_key(&self, provider: &Provider, process_env: &Table<String>) -> (r: String)
        ensures
            r@ == self@.provider_key(provider@, process_env@),
    {
        match &provider.api_key {
            Some(key) => {
                match strip_prefix(key.as_str(), "env::") {
                    Some(name) => {
                        match self.get_env(name, process_env) {
                            Some(value) => value,
                            None => String::new(),
                        }
                    },
                    None => key.clone(),
                }
            },
            None => String::new(),
        }
    }

    /// The data that a request for `model_name` is sent with.
    pub fn get_data(&self, model_name: &str, process_env: &Table<String>) -> (r: Result<
        RequestData,
        DataError,
    >)
        ensures
            outcome(r) == self@.data(model_name@, process_env@),
    {
        // Check variant
        let variant = self.variants.get(model_name);

        // Get model
        let name: &str = match variant {
            Some(v) => v.model.as_str(),
            None => model_name,
        };
        let model = match self.models.get(name) {
            Some(m) => m,
            None => {
                return Err(DataError::ModelNotDefined(name.to_owned()));
            },
        };

        // Get provider
        if model.routing.len() == 0 {
            return Err(DataError::NoProviders(name.to_owned()));
        }
        let provider_name = &model.routing[0];
        assert(provider_name@ == model@.routing[0]);
        let provider = match self.providers.get(provider_name.as_str()) {
            Some(p) => p,
            None => {
                return Err(DataError::ProviderNotFound(provider_name.clone()));
            },
        };

        // Get base url and api key
        let api_base = match &provider.api_base {
            Some(url) => url.clone(),
            None => {
                return Err(DataError::NoUrl(provider_name.clone()));
            },
        };
        let api_key = self.provider_key(provider, process_env);

        // Add extra body and headers
        let local = model.providers.get(provider_name.as_str());
        let mut extra_body: Vec<ExtraBodyJson> = Vec::new();
        let mut extra_headers: Table<String> = Table::new();
        push_bodies(&mut extra_body, &model.extra_body);
        extra_headers.extend(&model.extra_headers);
        if let Some(p) = local {
            push_bodies(&mut extra_body, &p.extra_body);
            extra_headers.extend(&p.extra_headers);
        }
        if let Some(v) = variant {
            push_bodies(&mut extra_body, &v.extra_body);
            extra_headers.extend(&v.extra_headers);
        }

        // Add system prompt
        let (system_prompt, system_prompt_mode) = match variant {
            Some(v) => (opt_copy(&v.system_prompt), v.system_prompt_mode),
            None => (None, PromptMode::Fallback),
        };

        // Add other parameters
        let temperature = match variant {
            Some(v) => match v.temperature {
                Some(t) => Some(t),
                None => model.temperature,
            },
            None => model.temperature,
        };

        // Check provider-specific model name
        let sent_name = match local {
            Some(p) => match &p.model_name {
                Some(n) => n.clone(),
                None => name.to_owned(),
            },
            None => name.to_owned(),
        };
        let data = RequestData {
            provider_kind: provider.kind,
            api_base,
            api_key,
            model_name: sent_name,
            extra_body,
            extra_headers,
            system_prompt,
            system_prompt_mode,
            temperature,
        };
        proof {
            let expected = self@.routed(model_name@, process_env@);
            assert(data@.extra_body =~= expected.extra_body);
            assert(data@.extra_headers =~= expected.extra_headers);
        }
        Ok(data)
    }
}

} // verus!
