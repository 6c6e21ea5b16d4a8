//! The tuner: which models it knows, what it shows of them, and the course of a
//! conversation on the terminal.
use crate::catalog::ModelCatalog;
use crate::cli::{resolve_tilde, tilde_resolved};
use crate::config::{ModelEntry, ModelEntryView};
use crate::decimal::Decimal;
use crate::models::{
    joined_parts, messages_of, plain_message, text_in, ApiType, EventView, MaxTokensField, Message,
    MessageView, Model, Role, StreamEvent, TokenUsage,
};
use crate::order::{comes_before, sort, sorted, Sortable};
use crate::prompts::{
    all_prompts, category_name, prompt_list, prompts_of, PromptView, TestPrompt,
};
use crate::report::{in_order_once, names_in_order, put, spans_of, Span, Style};
use crate::text::{
    concat, contains, decimal, decimal_text, find_in, lowercase, number_of, opt_str, parse_number,
    same, starts_with, strip_prefix, texts, to_lowercase, trim, trimmed,
};
use vstd::prelude::*;

verus! {

// ---------------------------------------------------------------------------
// Models

/// Nothing to pay.
pub open spec fn free() -> Decimal {
    Decimal { units: 0, scale: 0 }
}

/// Whether a model is the one of a catalog entry.
pub open spec fn is_model_of(model: Model, entry: ModelEntryView) -> bool {
    &&& model.id@ == entry.id
    &&& model.name@ == (match entry.name {
        Some(name) => name,
        None => entry.id,
    })
    &&& model.api == entry.api
    &&& model.provider@ == entry.provider
    &&& model.base_url@ == entry.base_url
    &&& model.api_key@ == entry.api_key
    &&& model.context_window == entry.context_window
    &&& model.max_tokens == entry.max_tokens
    &&& !model.omit_max_tokens
    &&& model.max_tokens_field == MaxTokensField::MaxTokens
    &&& !model.prompt_cache
    &&& model.supports_thinking == (entry.api == ApiType::AnthropicMessages)
    &&& model.supports_vision == entry.supports_vision
    &&& model.cost_per_million_input == free()
    &&& model.cost_per_million_output == free()
    &&& model.timeout_secs is None
}

/// The model of a catalog entry.
pub fn entry_to_model(entry: &ModelEntry) -> (model: Model)
    ensures
        is_model_of(model, entry@),
{
    Model {
        id: entry.id.clone(),
        name: match &entry.name {
            Some(name) => name.clone(),
            None => entry.id.clone(),
        },
        api: entry.api,
        provider: entry.provider.clone(),
        base_url: entry.base_url.clone(),
        api_key: entry.api_key.clone(),
        context_window: entry.context_window,
        max_tokens: entry.max_tokens,
        omit_max_tokens: false,
        max_tokens_field: MaxTokensField::MaxTokens,
        prompt_cache: false,
        supports_thinking: entry.api == ApiType::AnthropicMessages,
        supports_vision: entry.supports_vision,
        cost_per_million_input: Decimal { units: 0, scale: 0 },
        cost_per_million_output: Decimal { units: 0, scale: 0 },
        timeout_secs: None,
    }
}

impl Sortable for Model {
    open spec fn sort_key(&self) -> (Seq<char>, Seq<char>) {
        (self.provider@, self.name@)
    }

    fn sorts_before(&self, other: &Model) -> (b: bool) {
        if comes_before(self.provider.as_str(), other.provider.as_str()) {
            return true;
        }
        same(self.provider.as_str(), other.provider.as_str()) && comes_before(
            self.name.as_str(),
            other.name.as_str(),
        )
    }
}

/// Whether these are the models of a catalog, one for each id.
pub open spec fn models_of(
    models: Seq<Model>,
    ids: Seq<Seq<char>>,
    catalog: Map<Seq<char>, ModelEntryView>,
) -> bool {
    &&& models.len() == ids.len()
    &&& forall|i: int| 0 <= i < ids.len() ==> is_model_of(#[trigger] models[i], catalog[ids[i]])
}

/// The models of a catalog, by provider and name.
pub fn catalog_models(catalog: &ModelCatalog) -> (out: Vec<Model>)
    requires
        catalog.wf(),
    ensures
        sorted(out@),
        exists|models: Seq<Model>|
            models_of(models, catalog.spec_ids(), catalog@) && out@.to_multiset()
                == #[trigger] models.to_multiset(),
{
    let ids = catalog.ids();
    proof {
        catalog.lemma_ids();
    }
    let mut models: Vec<Model> = Vec::new();
    let mut i: usize = 0;
    assert(ids@.len() == catalog.spec_ids().len());
    while i < ids.len()
        invariant
            i <= ids@.len() == catalog.spec_ids().len(),
            catalog.wf(),
            texts(ids@) == catalog.spec_ids(),
            forall|id: Seq<char>|
                catalog.spec_ids().contains(id) <==> #[trigger] catalog@.contains_key(id),
            models@.len() == i,
            forall|j: int|
                0 <= j < i ==> is_model_of(
                    #[trigger] models@[j],
                    catalog@[catalog.spec_ids()[j]],
                ),
        decreases ids@.len() - i,
    {
        assert(catalog.spec_ids()[i as int] == ids@[i as int]@);
        assert(catalog.spec_ids().contains(ids@[i as int]@));
        if let Some(entry) = catalog.get(ids[i].as_str()) {
            models.push(entry_to_model(entry));
        }
        i = i + 1;
    }
    let ghost made = models@;
    assert(models_of(made, catalog.spec_ids(), catalog@));
    let out = sort(models);
    assert(out@.to_multiset() == made.to_multiset());
    out
}

/// The directories in which catalogs are looked for: the given one, or that of
/// the user and then that of the project.
pub open spec fn dirs_for(config_dir: Option<Seq<char>>, home: Option<Seq<char>>) -> (
    Seq<char>,
    Option<Seq<char>>,
) {
    match config_dir {
        Some(dir) => (dir, None),
        None => (tilde_resolved("~/.latte/models.d"@, home), Some(".latte/models.d"@)),
    }
}

/// The directories in which catalogs are looked for.
pub fn model_dirs(config_dir: Option<&str>, home: Option<&str>) -> (dirs: (
    String,
    Option<String>,
))
    ensures
        (dirs.0@, crate::models::opt_text(dirs.1)) == dirs_for(opt_str(config_dir), opt_str(home)),
{
    match config_dir {
        Some(dir) => (dir.to_owned(), None),
        None => (resolve_tilde("~/.latte/models.d", home), Some(".latte/models.d".to_owned())),
    }
}

/// The words where no model is known.
pub fn no_models_text(dir: &str) -> (text: String)
    ensures
        text@ == "no models found; create "@ + dir@
            + " (and/or ./.latte/models.d) or pass --config <dir>"@,
{
    let mut text = concat("no models found; create ", dir);
    text.append(" (and/or ./.latte/models.d) or pass --config <dir>");
    text
}

/// Whether a model is meant by some words: they stand in its id or its name,
/// whatever the case.
pub open spec fn meant_by(model: Model, words: Seq<char>) -> bool {
    find_in(lowercase(model.id@), lowercase(words)) is Some || find_in(
        lowercase(model.name@),
        lowercase(words),
    ) is Some
}

/// The first model from `i` on that is meant by some words.
pub open spec fn first_meant(models: Seq<Model>, words: Seq<char>, i: int) -> Option<int>
    decreases models.len() - i,
{
    if i < 0 || i >= models.len() {
        None
    } else if meant_by(models[i], words) {
        Some(i)
    } else {
        first_meant(models, words, i + 1)
    }
}

/// The model that a query means: the one of that number, counted from one, or
/// else the first that is meant by the words.
pub open spec fn model_for(models: Seq<Model>, query: Seq<char>) -> Option<int> {
    match number_of(query, usize::MAX as nat) {
        Some(n) if 1 <= n <= models.len() => Some(n - 1),
        _ => first_meant(models, query, 0),
    }
}

/// The model that a query means.
pub fn find_model_index(models: &[Model], query: &str) -> (at: Option<usize>)
    ensures
        match at {
            Some(at) => at < models@.len() && model_for(models@, query@) == Some(at as int),
            None => model_for(models@, query@) is None,
        },
{
    if let Some(n) = parse_number(query, usize::MAX as u64) {
        if n >= 1 && n <= models.len() as u64 {
            return Some((n - 1) as usize);
        }
    }
    let q = to_lowercase(query);
    let mut i: usize = 0;
    while i < models.len()
        invariant
            i <= models@.len(),
            q@ == lowercase(query@),
            model_for(models@, query@) == first_meant(models@, query@, i as int),
        decreases models@.len() - i,
    {
        let id = to_lowercase(models[i].id.as_str());
        let name = to_lowercase(models[i].name.as_str());
        if contains(id.as_str(), q.as_str()) || contains(name.as_str(), q.as_str()) {
            return Some(i);
        }
        i = i + 1;
    }
    None
}

/// The model to use: the one that is asked for, or else the first.
pub fn choose_model(models: &[Model], filter: Option<&str>) -> (r: Result<usize, String>)
    ensures
        match r {
            Ok(at) => at < models@.len() && (match filter {
                Some(words) => model_for(models@, words@) == Some(at as int),
                None => at == 0,
            }),
            Err(text) => if models@.len() == 0 {
                text@ == "No models configured."@
            } else {
                filter matches Some(words) && model_for(models@, words@) is None && text@
                    == "Model '"@ + words@ + "' not found in models.d/"@
            },
        },
{
    if models.len() == 0 {
        return Err("No models configured.".to_owned());
    }
    match filter {
        Some(words) => match find_model_index(models, words) {
            Some(at) => Ok(at),
            None => {
                let mut text = concat("Model '", words);
                text.append("' not found in models.d/");
                Err(text)
            },
        },
        None => Ok(0),
    }
}

/// The API that a name on the command line means.
pub open spec fn api_for(name: Seq<char>) -> ApiType {
    if lowercase(name) == "anthropic"@ || lowercase(name) == "anthropic-messages"@ {
        ApiType::AnthropicMessages
    } else {
        ApiType::OpenAiCompletions
    }
}

/// Where an API is reached if nothing else is said.
pub open spec fn home_of(api: ApiType) -> Seq<char> {
    match api {
        ApiType::OpenAiCompletions => "https://api.openai.com"@,
        ApiType::AnthropicMessages => "https://api.anthropic.com"@,
    }
}

/// The model that is described on the command line. `env_key` is the key of the
/// environment, for where none is given.
pub fn build_model(
    model_id: &str,
    api: &str,
    base_url: Option<&str>,
    api_key: Option<&str>,
    env_key: Option<&str>,
    provider: &str,
    max_tokens: u32,
    context_window: u32,
) -> (model: Model)
    ensures
        model.id@ == model_id@,
        model.name@ == model_id@,
        model.api == api_for(api@),
        model.provider@ == provider@,
        model.base_url@ == (match base_url {
            Some(url) => url@,
            None => home_of(api_for(api@)),
        }),
        model.api_key@ == (match (api_key, env_key) {
            (Some(key), _) => key@,
            (None, Some(key)) => key@,
            (None, None) => Seq::empty(),
        }),
        model.context_window == context_window,
        model.max_tokens == max_tokens,
        !model.omit_max_tokens,
        model.max_tokens_field == MaxTokensField::MaxTokens,
        !model.prompt_cache,
        model.supports_thinking == (api_for(api@) == ApiType::AnthropicMessages),
        !model.supports_vision,
        model.cost_per_million_input == free(),
        model.cost_per_million_output == free(),
        model.timeout_secs is None,
{
    let name = to_lowercase(api);
    let api_type = if same(name.as_str(), "anthropic") || same(
        name.as_str(),
        "anthropic-messages",
    ) {
        ApiType::AnthropicMessages
    } else {
        ApiType::OpenAiCompletions
    };
    let url = match base_url {
        Some(url) => url,
        None => match api_type {
            ApiType::OpenAiCompletions => "https://api.openai.com",
            ApiType::AnthropicMessages => "https://api.anthropic.com",
        },
    };
    let key = match api_key {
        Some(key) => key.to_owned(),
        None => match env_key {
            Some(key) => key.to_owned(),
            None => String::new(),
        },
    };
    Model {
        id: model_id.to_owned(),
        name: model_id.to_owned(),
        api: api_type,
        provider: provider.to_owned(),
        base_url: url.to_owned(),
        api_key: key,
        context_window,
        max_tokens,
        omit_max_tokens: false,
        max_tokens_field: MaxTokensField::MaxTokens,
        prompt_cache: false,
        supports_thinking: api_type == ApiType::AnthropicMessages,
        supports_vision: false,
        cost_per_million_input: Decimal { units: 0, scale: 0 },
        cost_per_million_output: Decimal { units: 0, scale: 0 },
        timeout_secs: None,
    }
}

/// The models that a sweep runs on: those that were loaded. Where no directory
/// was given and none could be loaded, it is the one that the command line
/// names.
pub fn sweep_models(
    loaded: Result<Vec<Model>, String>,
    dir_given: bool,
    named: Option<Model>,
) -> (r: Result<Vec<Model>, String>)
    ensures
        match loaded {
            Ok(models) if dir_given || models@.len() > 0 => r == Ok::<Vec<Model>, String>(models),
            Err(message) if dir_given => r == Err::<Vec<Model>, String>(message),
            _ => match named {
                Some(model) => r is Ok && r->Ok_0@ == seq![model],
                None => r is Err && r->Err_0@
                    == "no model specified. Provide a model ID or populate models.d/"@,
            },
        },
{
    match loaded {
        Ok(models) => {
            if dir_given || models.len() > 0 {
                return Ok(models);
            }
        },
        Err(message) => {
            if dir_given {
                return Err(message);
            }
        },
    }
    match named {
        Some(model) => {
            let models: Vec<Model> = vec![model];
            assert(models@ =~= seq![model]);
            Ok(models)
        },
        None => Err("no model specified. Provide a model ID or populate models.d/".to_owned()),
    }
}

/// The prompt of this name among all.
pub open spec fn prompt_at(list: Seq<PromptView>, name: Seq<char>, i: int) -> Option<PromptView>
    decreases list.len() - i,
{
    if i < 0 || i >= list.len() {
        None
    } else if list[i].name == name {
        Some(list[i])
    } else {
        prompt_at(list, name, i + 1)
    }
}

/// The prompt of this name.
pub fn find_prompt(name: &str) -> (r: Result<TestPrompt, String>)
    ensures
        match r {
            Ok(prompt) => prompt_at(prompt_list(), name@, 0) == Some(prompt@),
            Err(text) => prompt_at(prompt_list(), name@, 0) is None && text@ == "Prompt '"@ + name@
                + "' not found. Use `list-prompts` to see available."@,
        },
{
    let all = all_prompts();
    let ghost list = prompts_of(all@);
    let mut i: usize = 0;
    while i < all.len()
        invariant
            i <= all@.len(),
            list == prompts_of(all@),
            list == prompt_list(),
            prompt_at(list, name@, 0) == prompt_at(list, name@, i as int),
        decreases all@.len() - i,
    {
        assert(list[i as int] == all@[i as int]@);
        if same(all[i].name, name) {
            return Ok(all[i]);
        }
        i = i + 1;
    }
    let mut text = concat("Prompt '", name);
    text.append("' not found. Use `list-prompts` to see available.");
    Err(text)
}

// ---------------------------------------------------------------------------
// Lists

/// A number that takes up at least two columns.
pub open spec fn two_columns(n: nat) -> Seq<char> {
    if n < 10 {
        " "@ + decimal_text(n)
    } else {
        decimal_text(n)
    }
}

/// The line for a model.
pub open spec fn model_line(model: Model, index: int, current: Option<usize>) -> Seq<
    (Seq<char>, Style),
> {
    seq![
        ("    "@, Style::Plain),
        if current matches Some(at) && at == index {
            ("◀"@, Style::Green)
        } else {
            (" "@, Style::Plain)
        },
        (" "@, Style::Plain),
        (two_columns((index + 1) as nat), Style::Plain),
        (". "@, Style::Plain),
        (model.name@, Style::Cyan),
        (" "@, Style::Plain),
        (model.id@, Style::Dimmed),
        ("\n"@, Style::Plain),
    ]
}

/// The lines for the models of a provider.
pub open spec fn provider_lines(
    models: Seq<Model>,
    provider: Seq<char>,
    current: Option<usize>,
) -> Seq<(Seq<char>, Style)>
    decreases models.len(),
{
    if models.len() == 0 {
        Seq::empty()
    } else if models.last().provider@ == provider {
        provider_lines(models.drop_last(), provider, current) + model_line(
            models.last(),
            models.len() - 1,
            current,
        )
    } else {
        provider_lines(models.drop_last(), provider, current)
    }
}

/// The lines for the models of all providers.
pub open spec fn providers_lines(
    models: Seq<Model>,
    providers: Seq<Seq<char>>,
    current: Option<usize>,
) -> Seq<(Seq<char>, Style)>
    decreases providers.len(),
{
    if providers.len() == 0 {
        Seq::empty()
    } else {
        providers_lines(models, providers.drop_last(), current) + (seq![
            ("  "@, Style::Plain),
            (providers.last(), Style::BoldUnderline),
            ("\n"@, Style::Plain),
        ] + provider_lines(models, providers.last(), current))
    }
}

/// The providers of models, one for each.
pub open spec fn providers_of(models: Seq<Model>) -> Seq<Seq<char>> {
    models.map_values(|m: Model| m.provider@)
}

/// The list of models, by provider.
pub open spec fn model_list(models: Seq<Model>, current: Option<usize>) -> Seq<
    (Seq<char>, Style),
> {
    seq![("\n"@, Style::Plain)] + providers_lines(
        models,
        in_order_once(providers_of(models)),
        current,
    ) + seq![("\n"@, Style::Plain)]
}

fn put_model(out: &mut Vec<Span>, model: &Model, index: usize, current: Option<usize>)
    requires
        index < usize::MAX,
    ensures
        spans_of(final(out)@) == spans_of(old(out)@) + model_line(*model, index as int, current),
{
    let ghost start = spans_of(out@);
    put(out, "    ", Style::Plain);
    let is_current = match current {
        Some(at) => at == index,
        None => false,
    };
    if is_current {
        put(out, "◀", Style::Green);
    } else {
        put(out, " ", Style::Plain);
    }
    put(out, " ", Style::Plain);
    let number = decimal((index + 1) as u64);
    let number = if index + 1 < 10 {
        concat(" ", number.as_str())
    } else {
        number
    };
    put(out, number.as_str(), Style::Plain);
    put(out, ". ", Style::Plain);
    put(out, model.name.as_str(), Style::Cyan);
    put(out, " ", Style::Plain);
    put(out, model.id.as_str(), Style::Dimmed);
    put(out, "\n", Style::Plain);
    assert(spans_of(out@) =~= start + model_line(*model, index as int, current));
}

fn put_provider(out: &mut Vec<Span>, models: &[Model], provider: &str, current: Option<usize>)
    ensures
        spans_of(final(out)@) == spans_of(old(out)@) + provider_lines(
            models@,
            provider@,
            current,
        ),
{
    let ghost start = spans_of(out@);
    let n: usize = models.len();
    let mut i: usize = 0;
    assert(models@.take(0) =~= Seq::empty());
    assert(start + provider_lines(models@.take(0), provider@, current) =~= start);
    while i < n
        invariant
            i <= n == models@.len(),
            start == spans_of(old(out)@),
            spans_of(out@) == start + provider_lines(models@.take(i as int), provider@, current),
        decreases n - i,
    {
        assert(models@.take(i + 1).drop_last() =~= models@.take(i as int));
        assert(models@.take(i + 1).last() == models@[i as int]);
        if same(models[i].provider.as_str(), provider) {
            put_model(out, &models[i], i, current);
            assert(spans_of(out@) =~= start + provider_lines(
                models@.take(i + 1),
                provider@,
                current,
            ));
        }
        i = i + 1;
    }
    assert(models@.take(n as int) =~= models@);
}

/// The list of models, by provider, with a mark at the current one.
pub fn print_model_list(models: &[Model], current: Option<usize>) -> (out: Vec<Span>)
    ensures
        spans_of(out@) == model_list(models@, current),
{
    let mut names: Vec<String> = Vec::new();
    let mut k: usize = 0;
    while k < models.len()
        invariant
            k <= models@.len(),
            names@.len() == k,
            forall|j: int| 0 <= j < k ==> (#[trigger] names@[j])@ == models@[j].provider@,
        decreases models@.len() - k,
    {
        names.push(models[k].provider.clone());
        k = k + 1;
    }
    assert(texts(names@) =~= providers_of(models@));
    let providers = names_in_order(&names);
    let ghost all = texts(providers@);
    let mut out: Vec<Span> = Vec::new();
    put(&mut out, "\n", Style::Plain);
    let ghost head = spans_of(out@);
    assert(head =~= seq![("\n"@, Style::Plain)]);
    let mut i: usize = 0;
    assert(all.take(0) =~= Seq::empty());
    assert(head + providers_lines(models@, all.take(0), current) =~= head);
    while i < providers.len()
        invariant
            i <= providers@.len(),
            all == texts(providers@),
            spans_of(out@) == head + providers_lines(models@, all.take(i as int), current),
        decreases providers@.len() - i,
    {
        assert(all.take(i + 1).drop_last() =~= all.take(i as int));
        assert(all.take(i + 1).last() == providers@[i as int]@);
        put(&mut out, "  ", Style::Plain);
        put(&mut out, providers[i].as_str(), Style::BoldUnderline);
        put(&mut out, "\n", Style::Plain);
        put_provider(&mut out, models, providers[i].as_str(), current);
        assert(spans_of(out@) =~= head + providers_lines(models@, all.take(i + 1), current));
        i = i + 1;
    }
    assert(all.take(all.len() as int) =~= all);
    put(&mut out, "\n", Style::Plain);
    assert(spans_of(out@) =~= model_list(models@, current));
    out
}

/// The lines for prompts.
pub open spec fn prompt_lines(prompts: Seq<PromptView>) -> Seq<(Seq<char>, Style)>
    decreases prompts.len(),
{
    if prompts.len() == 0 {
        Seq::empty()
    } else {
        prompt_lines(prompts.drop_last()) + seq![
            ("  "@, Style::Plain),
            (prompts.last().name, Style::BoldCyan),
            ("  ["@, Style::Plain),
            (category_name(prompts.last().category), Style::Plain),
            ("]\n    "@, Style::Plain),
            (prompts.last().description, Style::Dimmed),
            ("\n\n"@, Style::Plain),
        ]
    }
}

/// The list of all prompts.
pub fn list_prompts() -> (out: Vec<Span>)
    ensures
        spans_of(out@) == seq![
            ("Available test prompts:"@, Style::BoldUnderline),
            ("\n\n"@, Style::Plain),
        ] + prompt_lines(prompt_list()) + seq![
            ("Total: "@, Style::Plain),
            (decimal_text(prompt_list().len()), Style::Plain),
            (" prompts\n"@, Style::Plain),
        ],
{
    let all = all_prompts();
    let ghost list = prompts_of(all@);
    let mut out: Vec<Span> = Vec::new();
    put(&mut out, "Available test prompts:", Style::BoldUnderline);
    put(&mut out, "\n\n", Style::Plain);
    let ghost head = spans_of(out@);
    assert(head =~= seq![
        ("Available test prompts:"@, Style::BoldUnderline),
        ("\n\n"@, Style::Plain),
    ]);
    let mut i: usize = 0;
    assert(list.take(0) =~= Seq::empty());
    assert(head + prompt_lines(list.take(0)) =~= head);
    while i < all.len()
        invariant
            i <= all@.len(),
            list == prompts_of(all@),
            spans_of(out@) == head + prompt_lines(list.take(i as int)),
        decreases all@.len() - i,
    {
        assert(list.take(i + 1).drop_last() =~= list.take(i as int));
        assert(list.take(i + 1).last() == all@[i as int]@);
        put(&mut out, "  ", Style::Plain);
        put(&mut out, all[i].name, Style::BoldCyan);
        put(&mut out, "  [", Style::Plain);
        put(&mut out, all[i].category.text().as_str(), Style::Plain);
        put(&mut out, "]\n    ", Style::Plain);
        put(&mut out, all[i].description, Style::Dimmed);
        put(&mut out, "\n\n", Style::Plain);
        assert(spans_of(out@) =~= head + prompt_lines(list.take(i + 1)));
        i = i + 1;
    }
    assert(list.take(list.len() as int) =~= list);
    assert(list.len() == all@.len());
    put(&mut out, "Total: ", Style::Plain);
    put(&mut out, decimal(all.len() as u64).as_str(), Style::Plain);
    put(&mut out, " prompts\n", Style::Plain);
    assert(spans_of(out@) =~= head + prompt_lines(list) + seq![
        ("Total: "@, Style::Plain),
        (decimal_text(list.len()), Style::Plain),
        (" prompts\n"@, Style::Plain),
    ]);
    out
}

// ---------------------------------------------------------------------------
// Conversations

/// Whether a conversation is held on the terminal, rather than one question
/// asked.
pub fn enters_repl(forced: bool, has_prompt: bool, piped: bool) -> (b: bool)
    ensures
        b == (forced || (!has_prompt && !piped)),
{
    forced || (!has_prompt && !piped)
}

/// Whether the input is read for the question: where it is piped, and where no
/// prompt is given.
pub fn reads_input(prompt: Option<&str>, piped: bool) -> (b: bool)
    ensures
        b == (piped || given_prompt(opt_str(prompt)).len() == 0),
{
    piped || match prompt {
        Some(prompt) => prompt.unicode_len() == 0,
        None => true,
    }
}

/// The given prompt, which is empty where none is given.
pub open spec fn given_prompt(prompt: Option<Seq<char>>) -> Seq<char> {
    match prompt {
        Some(prompt) => prompt,
        None => Seq::empty(),
    }
}

/// The question to ask: the given prompt, and behind it what stands on the input
/// if that is more than white space. There is none where both are missing.
pub open spec fn asked(prompt: Option<Seq<char>>, input: Seq<char>) -> Option<Seq<char>> {
    let given = given_prompt(prompt);
    if trimmed(input).len() == 0 {
        if given.len() > 0 {
            Some(given)
        } else {
            None
        }
    } else if given.len() > 0 {
        Some(given + "\n\n"@ + input)
    } else {
        Some(input)
    }
}

/// The question to ask, or that there is none.
pub fn question(prompt: Option<&str>, input: &str) -> (r: Result<String, String>)
    ensures
        match r {
            Ok(text) => asked(opt_str(prompt), input@) == Some(text@),
            Err(text) => asked(opt_str(prompt), input@) is None && text@
                == "No prompt provided."@,
        },
{
    let blank = trim(input).unicode_len() == 0;
    if let Some(prompt) = prompt {
        if prompt.unicode_len() > 0 {
            if blank {
                return Ok(prompt.to_owned());
            }
            let mut text = concat(prompt, "\n\n");
            text.append(input);
            return Ok(text);
        }
    }
    if blank {
        return Err("No prompt provided.".to_owned());
    }
    Ok(input.to_owned())
}

/// What the user asks for on the terminal.
#[derive(Debug)]
pub enum ReplAction {
    /// Nothing.
    Skip,
    Exit,
    /// The conversation was forgotten.
    Cleared,
    ListModels,
    /// The conversation goes on, from the start, with this model.
    Switched(usize),
    /// No model is meant by these words.
    NotFound(String),
    Help,
    Unknown(String),
    /// The model is to be asked.
    Ask,
}

/// What a line means, as a value.
pub enum LineView {
    Skip,
    Exit,
    Clear,
    ListModels,
    Switch(Seq<char>),
    Help,
    Unknown(Seq<char>),
    Say(Seq<char>),
}

/// What a line means.
pub open spec fn meaning(line: Seq<char>) -> LineView {
    let input = trimmed(line);
    if input.len() == 0 {
        LineView::Skip
    } else if !"/"@.is_prefix_of(input) {
        LineView::Say(input)
    } else if input == "/exit"@ || input == "/quit"@ || input == "/q"@ {
        LineView::Exit
    } else if input == "/clear"@ || input == "/c"@ {
        LineView::Clear
    } else if input == "/models"@ || input == "/ls"@ {
        LineView::ListModels
    } else if input == "/model"@ || "/model "@.is_prefix_of(input) {
        let words = trimmed(input.skip(6));
        if words.len() == 0 {
            LineView::ListModels
        } else {
            LineView::Switch(words)
        }
    } else if input == "/help"@ || input == "/h"@ || input == "/?"@ {
        LineView::Help
    } else {
        LineView::Unknown(input)
    }
}

/// What a line means.
#[derive(Debug)]
pub enum Line {
    Skip,
    Exit,
    Clear,
    ListModels,
    Switch(String),
    Help,
    Unknown(String),
    Say(String),
}

impl View for Line {
    type V = LineView;

    open spec fn view(&self) -> LineView {
        match self {
            Line::Skip => LineView::Skip,
            Line::Exit => LineView::Exit,
            Line::Clear => LineView::Clear,
            Line::ListModels => LineView::ListModels,
            Line::Switch(words) => LineView::Switch(words@),
            Line::Help => LineView::Help,
            Line::Unknown(input) => LineView::Unknown(input@),
            Line::Say(input) => LineView::Say(input@),
        }
    }
}

/// What a line means.
pub fn read_line(line: &str) -> (meant: Line)
    ensures
        meant@ == meaning(line@),
{
    let input = trim(line);
    if input.unicode_len() == 0 {
        return Line::Skip;
    }
    if !starts_with(input, "/") {
        return Line::Say(input.to_owned());
    }
    if same(input, "/exit") || same(input, "/quit") || same(input, "/q") {
        return Line::Exit;
    }
    if same(input, "/clear") || same(input, "/c") {
        return Line::Clear;
    }
    if same(input, "/models") || same(input, "/ls") {
        return Line::ListModels;
    }
    if same(input, "/model") || starts_with(input, "/model ") {
        proof {
            reveal_strlit("/model");
            reveal_strlit("/model ");
            assert("/model"@.is_prefix_of(input@)) by {
                assert("/model"@ =~= input@.subrange(0, 6)) by {
                    if "/model "@.is_prefix_of(input@) {
                        assert("/model "@ =~= input@.subrange(0, 7));
                        assert forall|i: int| 0 <= i < 6 implies "/model"@[i] == #[trigger] input@[i] by {
                            assert("/model "@[i] == input@.subrange(0, 7)[i]);
                            assert("/model "@[i] == "/model"@[i]);
                        }
                    }
                }
            }
        }
        if let Some(rest) = strip_prefix(input, "/model") {
            let words = trim(rest);
            if words.unicode_len() == 0 {
                return Line::ListModels;
            }
            return Line::Switch(words.to_owned());
        }
    }
    if same(input, "/help") || same(input, "/h") || same(input, "/?") {
        return Line::Help;
    }
    Line::Unknown(input.to_owned())
}

/// A conversation on the terminal.
#[derive(Debug)]
pub struct Repl {
    /// The model that it is held with.
    pub current: usize,
    pub history: Vec<Message>,
}

impl Repl {
    /// The messages so far.
    pub open spec fn said(&self) -> Seq<MessageView> {
        messages_of(self.history@)
    }

    /// A conversation that starts with the model that is asked for, or else with
    /// the first.
    pub fn start(models: &[Model], filter: Option<&str>) -> (r: Result<Repl, String>)
        ensures
            match r {
                Ok(repl) => repl.current < models@.len() && repl.said() == Seq::<
                    MessageView,
                >::empty() && (match filter {
                    Some(words) => model_for(models@, words@) == Some(repl.current as int),
                    None => repl.current == 0,
                }),
                Err(text) => if models@.len() == 0 {
                    text@ == "No models found in models.d/."@
                } else {
                    filter matches Some(words) && model_for(models@, words@) is None && text@
                        == "Model '"@ + words@ + "' not found. Use /models to list."@
                },
            },
    {
        if models.len() == 0 {
            return Err("No models found in models.d/.".to_owned());
        }
        let current: usize = match filter {
            Some(words) => match find_model_index(models, words) {
                Some(at) => at,
                None => {
                    let mut text = concat("Model '", words);
                    text.append("' not found. Use /models to list.");
                    return Err(text);
                },
            },
            None => 0,
        };
        let repl = Repl { current, history: Vec::new() };
        assert(repl.said() =~= Seq::empty());
        Ok(repl)
    }

    /// Takes a line, and says what is to be done.
    pub fn on_line(&mut self, models: &[Model], line: &str) -> (action: ReplAction)
        requires
            old(self).current < models@.len(),
        ensures
            final(self).current < models@.len(),
            match meaning(line@) {
                LineView::Skip => action is Skip && *final(self) == *old(self),
                LineView::Exit => action is Exit && *final(self) == *old(self),
                LineView::Clear => action is Cleared && final(self).current == old(self).current
                    && final(self).said() == Seq::<MessageView>::empty(),
                LineView::ListModels => action is ListModels && *final(self) == *old(self),
                LineView::Switch(words) => match model_for(models@, words) {
                    Some(at) => action == ReplAction::Switched(at as usize) && final(self).current
                        == at && final(self).said() == Seq::<MessageView>::empty(),
                    None => action matches ReplAction::NotFound(text) && text@ == words
                        && *final(self) == *old(self),
                },
                LineView::Help => action is Help && *final(self) == *old(self),
                LineView::Unknown(input) => action matches ReplAction::Unknown(text) && text@
                    == input && *final(self) == *old(self),
                LineView::Say(input) => action is Ask && final(self).current == old(self).current
                    && final(self).said() == old(self).said().push(
                    plain_message(Role::User, input),
                ),
            },
    {
        match read_line(line) {
            Line::Skip => ReplAction::Skip,
            Line::Exit => ReplAction::Exit,
            Line::Clear => {
                self.history = Vec::new();
                assert(self.said() =~= Seq::empty());
                ReplAction::Cleared
            },
            Line::ListModels => ReplAction::ListModels,
            Line::Switch(words) => match find_model_index(models, words.as_str()) {
                Some(at) => {
                    self.current = at;
                    self.history = Vec::new();
                    assert(self.said() =~= Seq::empty());
                    ReplAction::Switched(at)
                },
                None => ReplAction::NotFound(words),
            },
            Line::Help => ReplAction::Help,
            Line::Unknown(input) => ReplAction::Unknown(input),
            Line::Say(input) => {
                let ghost before = self.said();
                self.history.push(Message::user(input.as_str()));
                assert(self.said() =~= before.push(plain_message(Role::User, input@)));
                ReplAction::Ask
            },
        }
    }

    /// Takes the answer of the model.
    pub fn on_answer(&mut self, text: &str)
        ensures
            final(self).current == old(self).current,
            final(self).said() == old(self).said().push(plain_message(Role::Assistant, text@)),
    {
        let ghost before = self.said();
        self.history.push(Message::assistant(text));
        assert(self.said() =~= before.push(plain_message(Role::Assistant, text@)));
    }
}

/// A streamed answer as it is shown.
#[derive(Debug)]
pub struct Turn {
    pub text: String,
    pub usage: TokenUsage,
}

/// The text after an event.
pub open spec fn text_after(text: Seq<char>, event: EventView) -> Seq<char> {
    match event {
        EventView::Delta { content, .. } => text + text_in(content),
        _ => text,
    }
}

/// The usage after an event.
pub open spec fn usage_after(usage: TokenUsage, event: EventView) -> TokenUsage {
    match event {
        EventView::Delta { usage: Some(new), .. } => new,
        EventView::Done { usage: new, .. } => new,
        _ => usage,
    }
}

/// What is shown at once.
#[derive(Debug)]
pub enum Shown {
    Nothing,
    Text(String),
    Error(String),
}

/// The same as a value.
pub enum ShownView {
    Nothing,
    Text(Seq<char>),
    Error(Seq<char>),
}

impl View for Shown {
    type V = ShownView;

    open spec fn view(&self) -> ShownView {
        match self {
            Shown::Nothing => ShownView::Nothing,
            Shown::Text(text) => ShownView::Text(text@),
            Shown::Error(text) => ShownView::Error(text@),
        }
    }
}

impl Turn {
    /// Nothing has come.
    pub fn new() -> (turn: Turn)
        ensures
            turn.text@ == Seq::<char>::empty(),
            turn.usage == crate::models::no_usage(),
    {
        Turn { text: String::new(), usage: TokenUsage::default() }
    }

    /// Takes an event, and gives what is shown of it at once.
    pub fn on_event(&mut self, event: StreamEvent) -> (shown: Shown)
        ensures
            final(self).text@ == text_after(old(self).text@, event@),
            final(self).usage == usage_after(old(self).usage, event@),
            shown@ == (match event@ {
                EventView::Delta { content, .. } => ShownView::Text(text_in(content)),
                EventView::Done { .. } => ShownView::Nothing,
                EventView::HttpError { message, .. } => ShownView::Error(message),
                EventView::Error(message) => ShownView::Error(message),
            }),
    {
        match event {
            StreamEvent::Delta { content, usage } => {
                let text = joined_parts(&content);
                self.text.append(text.as_str());
                if let Some(new) = usage {
                    self.usage = new;
                }
                Shown::Text(text)
            },
            StreamEvent::Done { usage, .. } => {
                self.usage = usage;
                Shown::Nothing
            },
            StreamEvent::HttpError { message, .. } => Shown::Error(message),
            StreamEvent::Error(message) => Shown::Error(message),
        }
    }
}

} // verus!
