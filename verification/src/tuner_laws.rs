//! What the tuner asks, shows and understands.
use crate::config::ModelEntryView;
use crate::client::{says_no, says_yes};
use crate::decimal::{number_text, Decimal};
use crate::models::{
    no_usage, text_in, usage_text, ApiType, EventView, MaxTokensField, Model, TokenUsage,
};
use crate::params::{
    budget_tokens, hundredths, label_pieces, label_text, unset, ParamsView, ThinkingBudget,
};
use crate::prompts::{category_name, PromptCategory, PromptView};
use crate::report::{
    categories_spans, category_spans, compared_spans, comparison_spans, cut_in_the_middle,
    cut_title, first_lines, groups_of, in_order_once, labels_spans, preview_spans, report_spans,
    result_spans, sweep_spans, tokens_text, Grouping, Style,
};
use crate::sweeper::{programming_list, quick_list, wanted, SweepResult, SweepView};
use crate::text::{
    decimal_text, find_in, is_white, lowercase, number_of, trimmed, trimmed_end, trimmed_start,
    white,
};
use crate::text_laws::{numbers_are_read_back, stands_first_at};
use crate::tune::{
    api_for, asked, dirs_for, first_meant, home_of, is_model_of, meaning, model_for, model_line,
    model_list, prompt_at, prompt_lines, provider_lines, providers_lines, providers_of, text_after,
    usage_after, LineView,
};
use vstd::prelude::*;
use vstd::utf8::{decode_utf8, encode_utf8};

verus! {

// ---------------------------------------------------------------------------
// Models

/// Whether the words are part of the id or of the name of a model, in any case.
pub open spec fn is_meant(model: Model, words: Seq<char>) -> bool {
    find_in(lowercase(model.id@), lowercase(words)) is Some || find_in(
        lowercase(model.name@),
        lowercase(words),
    ) is Some
}

proof fn lemma_first_meant(models: Seq<Model>, words: Seq<char>, i: int)
    requires
        0 <= i,
    ensures
        match first_meant(models, words, i) {
            Some(at) => {
                &&& i <= at < models.len()
                &&& is_meant(models[at], words)
                &&& forall|j: int| i <= j < at ==> !is_meant(#[trigger] models[j], words)
            },
            None => forall|j: int| i <= j < models.len() ==> !is_meant(#[trigger] models[j], words),
        },
    decreases models.len() - i,
{
    if i < models.len() && !is_meant(models[i], words) {
        lemma_first_meant(models, words, i + 1);
    }
}

/// A model is found by its number in the list, which counts from one, and by any
/// other words as the first whose id or name they are part of.
pub proof fn models_are_found_by_number_or_words(
    models: Seq<Model>,
    words: Seq<char>,
    n: nat,
)
    requires
        models.len() <= usize::MAX,
    ensures
        1 <= n <= models.len() ==> model_for(models, decimal_text(n)) == Some(n - 1),
        number_of(words, usize::MAX as nat) is None ==> match model_for(models, words) {
            Some(at) => {
                &&& 0 <= at < models.len()
                &&& is_meant(models[at], words)
                &&& forall|j: int| 0 <= j < at ==> !is_meant(#[trigger] models[j], words)
            },
            None => forall|j: int| 0 <= j < models.len() ==> !is_meant(#[trigger] models[j], words),
        },
{
    numbers_are_read_back(n, usize::MAX as nat);
    lemma_first_meant(models, words, 0);
}

/// The model of an entry is what the entry says. It costs nothing, takes no marks
/// and no limit of its own time, and thinks where the Anthropic API serves it.
pub proof fn models_are_what_their_entries_say(model: Model, entry: ModelEntryView)
    requires
        is_model_of(model, entry),
    ensures
        model.id@ == entry.id,
        entry.name is Some ==> model.name@ == entry.name->0,
        entry.name is None ==> model.name@ == entry.id,
        model.api == entry.api,
        model.provider@ == entry.provider,
        model.base_url@ == entry.base_url,
        model.api_key@ == entry.api_key,
        model.context_window == entry.context_window,
        model.max_tokens == entry.max_tokens,
        !model.omit_max_tokens,
        model.max_tokens_field == MaxTokensField::MaxTokens,
        !model.prompt_cache,
        entry.api == ApiType::AnthropicMessages ==> model.supports_thinking,
        entry.api == ApiType::OpenAiCompletions ==> !model.supports_thinking,
        model.supports_vision == entry.supports_vision,
        model.cost_per_million_input.units == 0,
        model.cost_per_million_output.units == 0,
        model.timeout_secs is None,
{
}

/// Two words, in any case, stand for the Anthropic API, and all others for the
/// OpenAI one; each API has its home.
pub proof fn apis_are_named_and_at_home(name: Seq<char>)
    ensures
        lowercase(name) == "anthropic"@ || lowercase(name) == "anthropic-messages"@ ==> api_for(
            name,
        ) == ApiType::AnthropicMessages,
        lowercase(name) != "anthropic"@ && lowercase(name) != "anthropic-messages"@ ==> api_for(
            name,
        ) == ApiType::OpenAiCompletions,
        home_of(ApiType::OpenAiCompletions) == "https://api.openai.com"@,
        home_of(ApiType::AnthropicMessages) == "https://api.anthropic.com"@,
{
}

/// A line of the list shows the number of the model, counted from one and two
/// columns wide, its name and its id, with a mark on the current one.
pub proof fn model_lines_show_number_name_and_id(model: Model, index: int, current: Option<usize>)
    requires
        index >= 0,
    ensures
        ({
            let line = model_line(model, index, current);
            &&& line.len() == 9
            &&& line[0] == ("    "@, Style::Plain)
            &&& line[2] == (" "@, Style::Plain)
            &&& line[6] == (" "@, Style::Plain)
            &&& current is Some && current->0 == index ==> line[1] == ("◀"@, Style::Green)
            &&& current is None || current->0 != index ==> line[1] == (" "@, Style::Plain)
            &&& index < 9 ==> line[3] == (" "@ + decimal_text((index + 1) as nat), Style::Plain)
            &&& index >= 9 ==> line[3] == (decimal_text((index + 1) as nat), Style::Plain)
            &&& line[4] == (". "@, Style::Plain)
            &&& line[5] == (model.name@, Style::Cyan)
            &&& line[7] == (model.id@, Style::Dimmed)
            &&& line[8] == ("\n"@, Style::Plain)
        }),
{
}

// ---------------------------------------------------------------------------
// Conversations

proof fn lemma_blank_before(words: Seq<char>)
    requires
        words.len() > 0,
        !is_white(words.first()),
        !is_white(words.last()),
    ensures
        trimmed(seq![' '] + words) == words,
{
    let s = seq![' '] + words;
    assert(s.first() == ' ');
    assert(s.drop_first() =~= words);
    assert(trimmed_start(words, white()) == words);
    assert(trimmed_start(s, white()) == words);
    assert(trimmed_end(words, white()) == words);
}

proof fn lemma_command_words()
    ensures
        "/"@.len() == 1 && "/"@[0] == '/',
        "/exit"@.len() == 5 && "/exit"@[0] == '/' && "/exit"@[1] == 'e',
        "/quit"@.len() == 5 && "/quit"@[0] == '/' && "/quit"@[1] == 'q',
        "/q"@.len() == 2 && "/q"@[0] == '/' && "/q"@[1] == 'q',
        "/clear"@.len() == 6 && "/clear"@[0] == '/' && "/clear"@[1] == 'c',
        "/c"@.len() == 2 && "/c"@[0] == '/' && "/c"@[1] == 'c',
        "/models"@.len() == 7 && "/models"@[0] == '/' && "/models"@[1] == 'm',
        "/models"@[6] == 's',
        "/ls"@.len() == 3 && "/ls"@[0] == '/' && "/ls"@[1] == 'l',
        "/model"@.len() == 6 && "/model"@[0] == '/' && "/model"@[1] == 'm',
        "/model "@ == "/model"@ + seq![' '],
        "/help"@.len() == 5 && "/help"@[0] == '/' && "/help"@[1] == 'h',
        "/h"@.len() == 2 && "/h"@[0] == '/' && "/h"@[1] == 'h',
        "/?"@.len() == 2 && "/?"@[0] == '/' && "/?"@[1] == '?',
{
    reveal_strlit("/");
    reveal_strlit("/exit");
    reveal_strlit("/quit");
    reveal_strlit("/q");
    reveal_strlit("/clear");
    reveal_strlit("/c");
    reveal_strlit("/models");
    reveal_strlit("/ls");
    reveal_strlit("/model");
    reveal_strlit("/model ");
    reveal_strlit("/help");
    reveal_strlit("/h");
    reveal_strlit("/?");
    assert("/model "@ =~= "/model"@ + seq![' ']);
}

proof fn lemma_starts(input: Seq<char>)
    ensures
        "/"@.is_prefix_of(input) <==> input.len() > 0 && input[0] == '/',
        "/model "@.is_prefix_of(input) ==> input.len() >= 7 && input[0] == '/' && input[1] == 'm'
            && input[6] == ' ',
{
    lemma_command_words();
    if input.len() > 0 && input[0] == '/' {
        assert(input.subrange(0, 1) =~= "/"@);
    }
    if "/"@.is_prefix_of(input) {
        assert(input.subrange(0, 1)[0] == input[0]);
    }
    if "/model "@.is_prefix_of(input) {
        let start = input.subrange(0, 7);
        assert(start[0] == input[0] && start[1] == input[1] && start[6] == input[6]);
    }
}

/// What is typed, without white space round it, is a command where it starts with
/// a slash, and else is said to the model. Each command has its words.
pub proof fn lines_mean_what_they_say(line: Seq<char>, words: Seq<char>)
    ensures
        ({
            let input = trimmed(line);
            &&& input.len() == 0 ==> meaning(line) is Skip
            &&& input.len() > 0 && input[0] != '/' ==> meaning(line) == LineView::Say(input)
            &&& input == "/exit"@ || input == "/quit"@ || input == "/q"@ ==> meaning(line) is Exit
            &&& input == "/clear"@ || input == "/c"@ ==> meaning(line) is Clear
            &&& input == "/models"@ || input == "/ls"@ || input == "/model"@ ==> meaning(
                line,
            ) is ListModels
            &&& input == "/help"@ || input == "/h"@ || input == "/?"@ ==> meaning(line) is Help
            &&& words.len() > 0 && !is_white(words.first()) && !is_white(words.last()) && input
                == "/model"@ + seq![' '] + words ==> meaning(line) == LineView::Switch(words)
            &&& input.len() > 1 && input[0] == '/' && input[1] != 'e' && input[1] != 'q' && input[1]
                != 'c' && input[1] != 'm' && input[1] != 'l' && input[1] != 'h' && input[1] != '?'
                ==> meaning(line) == LineView::Unknown(input)
        }),
{
    let input = trimmed(line);
    lemma_command_words();
    lemma_starts(input);
    if words.len() > 0 && !is_white(words.first()) && !is_white(words.last()) && input
        == "/model"@ + seq![' '] + words {
        lemma_blank_before(words);
        assert(input.skip(6) =~= seq![' '] + words);
        assert("/model "@.is_prefix_of(input)) by {
            assert(input.subrange(0, 7) =~= "/model "@);
        }
        assert(input[1] == 'm');
        assert(input[6] == ' ');
    }
}

/// The question is the prompt, what is read, or both with an empty line between
/// them; where there is neither, or only white space, there is no question.
pub proof fn question_is_prompt_and_input(prompt: Seq<char>, input: Seq<char>)
    ensures
        trimmed(input).len() > 0 ==> {
            &&& asked(None, input) == Some(input)
            &&& prompt.len() == 0 ==> asked(Some(prompt), input) == Some(input)
            &&& prompt.len() > 0 ==> asked(Some(prompt), input) == Some(prompt + "\n\n"@ + input)
        },
        trimmed(input).len() == 0 ==> {
            &&& asked(None, input) is None
            &&& prompt.len() == 0 ==> asked(Some(prompt), input) is None
            &&& prompt.len() > 0 ==> asked(Some(prompt), input) == Some(prompt)
        },
{
}

/// What is heard of an answer grows by the text of each piece, and its cost is
/// what was told last.
pub proof fn answer_is_heard_piece_by_piece(text: Seq<char>, usage: TokenUsage, event: EventView)
    ensures
        match event {
            EventView::Delta { content, usage: told } => {
                &&& text_after(text, event) == text + text_in(content)
                &&& told is Some ==> usage_after(usage, event) == told->0
                &&& told is None ==> usage_after(usage, event) == usage
            },
            EventView::Done { usage: told, .. } => {
                &&& text_after(text, event) == text
                &&& usage_after(usage, event) == told
            },
            _ => text_after(text, event) == text && usage_after(usage, event) == usage,
        },
{
}

/// A switch of the environment is on where it says `1` or `true`, off where it
/// says `0` or `false`, in any case of the letters, and neither where it says
/// anything else or is not set.
pub proof fn switches_say_yes_or_no(text: Seq<char>)
    ensures
        !says_yes(None),
        !says_no(None),
        says_yes(Some("1"@)),
        says_no(Some("0"@)),
        text != "1"@ ==> (says_yes(Some(text)) <==> text.len() == 4 && (text[0] == 't' || text[0]
            == 'T') && (text[1] == 'r' || text[1] == 'R') && (text[2] == 'u' || text[2] == 'U') && (
        text[3] == 'e' || text[3] == 'E')),
        text != "0"@ ==> (says_no(Some(text)) <==> text.len() == 5 && (text[0] == 'f' || text[0]
            == 'F') && (text[1] == 'a' || text[1] == 'A') && (text[2] == 'l' || text[2] == 'L') && (
        text[3] == 's' || text[3] == 'S') && (text[4] == 'e' || text[4] == 'E')),
{
    reveal_strlit("true");
    reveal_strlit("false");
    let plain = crate::text::without_case(text);
    let yes = crate::text::without_case("true"@);
    let no = crate::text::without_case("false"@);
    assert(yes =~= "true"@);
    assert(no =~= "false"@);
    if plain == yes {
        assert(plain[0] == 't' && plain[1] == 'r' && plain[2] == 'u' && plain[3] == 'e');
    }
    if plain == no {
        assert(plain[0] == 'f' && plain[1] == 'a' && plain[2] == 'l' && plain[3] == 's' && plain[4]
            == 'e');
    }
    if text.len() == 4 && (text[0] == 't' || text[0] == 'T') && (text[1] == 'r' || text[1] == 'R')
        && (text[2] == 'u' || text[2] == 'U') && (text[3] == 'e' || text[3] == 'E') {
        assert(plain =~= yes);
    }
    if text.len() == 5 && (text[0] == 'f' || text[0] == 'F') && (text[1] == 'a' || text[1] == 'A')
        && (text[2] == 'l' || text[2] == 'L') && (text[3] == 's' || text[3] == 'S') && (text[4]
        == 'e' || text[4] == 'E') {
        assert(plain =~= no);
    }
}

// ---------------------------------------------------------------------------
// Parameters

/// One where there is something, and nothing where there is not.
pub open spec fn one_if(is_set: bool) -> int {
    if is_set {
        1
    } else {
        0
    }
}

/// The label of parameters names those that are set and no others, each by its
/// letters, in this order: temperature, top p, top k, min p, the three penalties,
/// the budget for thinking and the limit.
pub proof fn labels_name_what_is_set(p: ParamsView)
    ensures
        ({
            let pieces = label_pieces(p);
            let n1 = one_if(p.temperature is Some);
            let n2 = n1 + one_if(p.top_p is Some);
            let n3 = n2 + one_if(p.top_k is Some);
            let n4 = n3 + one_if(p.min_p is Some);
            let n5 = n4 + one_if(p.presence_penalty is Some);
            let n6 = n5 + one_if(p.frequency_penalty is Some);
            let n7 = n6 + one_if(p.repetition_penalty is Some);
            let n8 = n7 + one_if(p.thinking_budget is Some);
            let n9 = n8 + one_if(p.max_tokens is Some);
            &&& pieces.len() == n9
            &&& p.temperature is Some ==> pieces[0] == "t="@ + number_text(p.temperature->0)
            &&& p.top_p is Some ==> pieces[n1] == "p="@ + number_text(p.top_p->0)
            &&& p.top_k is Some ==> pieces[n2] == "k="@ + decimal_text(p.top_k->0 as nat)
            &&& p.min_p is Some ==> pieces[n3] == "mp="@ + number_text(p.min_p->0)
            &&& p.presence_penalty is Some ==> pieces[n4] == "pp="@ + number_text(
                p.presence_penalty->0,
            )
            &&& p.frequency_penalty is Some ==> pieces[n5] == "fp="@ + number_text(
                p.frequency_penalty->0,
            )
            &&& p.repetition_penalty is Some ==> pieces[n6] == "rp="@ + number_text(
                p.repetition_penalty->0,
            )
            &&& p.thinking_budget is Some ==> pieces[n7] == "tb="@ + decimal_text(
                budget_tokens(p.thinking_budget->0) as nat,
            )
            &&& p.max_tokens is Some ==> pieces[n8] == "mt="@ + decimal_text(
                p.max_tokens->0 as nat,
            )
            &&& pieces.len() == 0 ==> label_text(p) == "defaults"@
            &&& pieces.len() > 0 ==> label_text(p) == crate::text::joined(pieces, ","@)
        }),
{
}

/// Parameters that are a temperature and a top p, in hundredths, and nothing else.
pub open spec fn plain_pair(t: i64, p: i64) -> ParamsView {
    ParamsView {
        temperature: Some(Decimal { units: t, scale: 2 }),
        top_p: Some(Decimal { units: p, scale: 2 }),
        ..unset()
    }
}

/// The ten combinations for programming, each by its label.
pub proof fn programming_combinations_are_these()
    ensures
        ({
            let list = programming_list();
            &&& list.len() == 10
            &&& list[0] == SweepView { label: "conservative"@, params: plain_pair(0, 90) }
            &&& list[1] == SweepView {
                label: "low-temp"@,
                params: ParamsView {
                    min_p: Some(Decimal { units: 3, scale: 2 }),
                    ..plain_pair(10, 92)
                },
            }
            &&& list[2] == SweepView { label: "balanced"@, params: plain_pair(30, 90) }
            &&& list[3] == SweepView {
                label: "creative"@,
                params: ParamsView {
                    presence_penalty: Some(Decimal { units: 10, scale: 2 }),
                    ..plain_pair(70, 95)
                },
            }
            &&& list[4] == SweepView { label: "no-minp"@, params: plain_pair(30, 90) }
            &&& list[5] == SweepView {
                label: "anti-repetition"@,
                params: ParamsView {
                    frequency_penalty: Some(Decimal { units: 30, scale: 2 }),
                    ..plain_pair(30, 90)
                },
            }
            &&& list[6] == SweepView {
                label: "thinking-medium"@,
                params: ParamsView {
                    temperature: Some(Decimal { units: 10, scale: 2 }),
                    thinking_budget: Some(ThinkingBudget::Medium),
                    ..unset()
                },
            }
            &&& list[7] == SweepView {
                label: "thinking-high"@,
                params: ParamsView {
                    temperature: Some(Decimal { units: 20, scale: 2 }),
                    thinking_budget: Some(ThinkingBudget::High),
                    ..unset()
                },
            }
            &&& list[8] == SweepView {
                label: "short-output"@,
                params: ParamsView { max_tokens: Some(512), ..plain_pair(30, 90) },
            }
            &&& list[9] == SweepView {
                label: "very-creative"@,
                params: ParamsView { top_k: Some(80), ..plain_pair(90, 99) },
            }
        }),
{
}

/// The four combinations for a quick look, each by its label.
pub proof fn quick_combinations_are_these()
    ensures
        ({
            let list = quick_list();
            &&& list.len() == 4
            &&& list[0] == SweepView { label: "deterministic"@, params: plain_pair(0, 90) }
            &&& list[1] == SweepView {
                label: "default-code"@,
                params: ParamsView {
                    min_p: Some(Decimal { units: 3, scale: 2 }),
                    ..plain_pair(10, 92)
                },
            }
            &&& list[2] == SweepView { label: "balanced"@, params: plain_pair(30, 90) }
            &&& list[3] == SweepView {
                label: "thinking"@,
                params: ParamsView {
                    temperature: Some(Decimal { units: 10, scale: 2 }),
                    thinking_budget: Some(ThinkingBudget::Medium),
                    ..unset()
                },
            }
        }),
{
}

/// Parameters that are not set are not there, and the choice of tools is left to
/// the model.
pub proof fn unset_parameters_are_not_there()
    ensures
        unset().temperature is None,
        unset().top_p is None,
        unset().top_k is None,
        unset().min_p is None,
        unset().presence_penalty is None,
        unset().frequency_penalty is None,
        unset().repetition_penalty is None,
        unset().max_tokens is None,
        unset().stop_sequences.len() == 0,
        unset().thinking_budget is None,
        unset().seed is None,
        unset().tools.len() == 0,
        unset().tool_choice is Auto,
        unset().parallel_tool_calls is None,
        unset().prompt_cache_key is None,
{
}

/// A filter takes what has its text somewhere in its name, and an empty one or
/// none takes everything.
pub proof fn filters_look_for_their_text(name: Seq<char>, filter: Seq<char>, at: int)
    ensures
        wanted(name, None),
        filter.len() == 0 ==> wanted(name, Some(filter)),
        stands_first_at(name, filter, at) ==> wanted(name, Some(filter)),
        filter.len() > 0 && (forall|j: int|
            0 <= j && j + filter.len() <= name.len() ==> #[trigger] name.subrange(
                j,
                j + filter.len(),
            ) != filter) ==> !wanted(name, Some(filter)),
{
    crate::text_laws::patterns_are_found_where_they_first_stand(name, filter, at);
}

/// Each kind of prompt has its word.
pub proof fn categories_have_their_words(category: PromptCategory)
    ensures
        category_name(category) == (match category {
            PromptCategory::CodeGeneration => "code-gen"@,
            PromptCategory::Debugging => "debug"@,
            PromptCategory::Refactoring => "refactor"@,
            PromptCategory::Explanation => "explain"@,
            PromptCategory::Architecture => "architecture"@,
        }),
{
}

/// A prompt is found by its name: the first that has it.
pub proof fn prompts_are_found_by_name(list: Seq<PromptView>, name: Seq<char>, from: int)
    requires
        0 <= from,
    ensures
        match prompt_at(list, name, from) {
            Some(prompt) => prompt.name == name && exists|i: int|
                from <= i < list.len() && #[trigger] list[i] == prompt && forall|j: int|
                    from <= j < i ==> (#[trigger] list[j]).name != name,
            None => forall|i: int| from <= i < list.len() ==> (#[trigger] list[i]).name != name,
        },
    decreases list.len() - from,
{
    if from < list.len() {
        if list[from].name != name {
            prompts_are_found_by_name(list, name, from + 1);
            if let Some(prompt) = prompt_at(list, name, from + 1) {
                let i = choose|i: int|
                    from + 1 <= i < list.len() && #[trigger] list[i] == prompt && forall|j: int|
                        from + 1 <= j < i ==> (#[trigger] list[j]).name != name;
                assert(list[i] == prompt);
                assert forall|j: int| from <= j < i implies (#[trigger] list[j]).name != name by {
                    if j > from {
                        assert(list[j].name != name);
                    }
                }
            }
        } else {
            assert(list[from] == list[from]);
        }
    }
}

// ---------------------------------------------------------------------------
// Reports

/// A text that is not too long is shown whole. A longer one is shown by its first
/// and its last half, with the number of what is left out between them.
pub proof fn long_texts_are_cut_in_the_middle(text: Seq<char>, max: int)
    requires
        max >= 0,
    ensures
        encode_utf8(text).len() <= max ==> cut_in_the_middle(text, max) == text,
        encode_utf8(text).len() > max ==> {
            let bytes = encode_utf8(text);
            cut_in_the_middle(text, max) == decode_utf8(bytes.take(max / 2)) + "…["@
                + decimal_text((bytes.len() - max) as nat) + " chars]…"@ + decode_utf8(
                bytes.skip(bytes.len() - max / 2),
            )
        },
{
    let bytes = encode_utf8(text);
    if bytes.len() > max {
        assert(bytes.take(max / 2) =~= bytes.subrange(0, max / 2));
        assert(bytes.skip(bytes.len() - max / 2) =~= bytes.subrange(
            bytes.len() - max / 2,
            bytes.len() as int,
        ));
    }
}

/// A cost shows the tokens that went in and those that came out, and those of
/// thinking where there were any.
pub proof fn costs_show_what_went_in_and_came_out(usage: TokenUsage)
    ensures
        usage.thinking_tokens == 0 ==> tokens_text(usage) == "↑"@ + decimal_text(
            usage.input_tokens as nat,
        ) + " ↓"@ + decimal_text(usage.output_tokens as nat),
        usage.thinking_tokens > 0 ==> tokens_text(usage) == "↑"@ + decimal_text(
            usage.input_tokens as nat,
        ) + " ↓"@ + decimal_text(usage.output_tokens as nat) + " t:"@ + decimal_text(
            usage.thinking_tokens as nat,
        ),
        no_usage().input_tokens == 0,
        no_usage().output_tokens == 0,
        no_usage().thinking_tokens == 0,
{
}

/// A result shows its category, its prompt, whether it is an error, what it cost
/// and how long it took, and then the error or the first ten lines of the answer.
pub proof fn results_show_how_they_went(result: SweepResult, width: int)
    ensures
        ({
            let spans = result_spans(result, width);
            &&& spans.len() >= 11
            &&& spans[0] == ("  ["@, Style::Plain)
            &&& spans[1] == (result.category@, Style::BoldCyan)
            &&& spans[2] == ("] "@, Style::Plain)
            &&& spans[3] == (result.prompt_name@, Style::Bold)
            &&& spans[4] == (" — "@, Style::Plain)
            &&& spans[6] == (" — "@, Style::Plain)
            &&& spans[8] == (" — "@, Style::Plain)
            &&& result.error is Some ==> spans[5] == ("ERROR"@, Style::BoldRed)
            &&& result.error is None ==> spans[5] == ("OK"@, Style::BoldGreen)
            &&& spans[7] == (
                "↑"@ + decimal_text(result.input_tokens as nat) + " ↓"@ + decimal_text(
                    result.output_tokens as nat,
                ),
                Style::Plain,
            )
            &&& spans[9] == (decimal_text(result.duration_ms as nat) + "ms"@, Style::Plain)
            &&& spans[10] == ("\n"@, Style::Plain)
            &&& result.error is Some ==> spans.skip(11) == seq![
                ("    Error: "@, Style::Plain),
                (result.error->0@, Style::Red),
                ("\n"@, Style::Plain),
            ]
            &&& result.error is None ==> spans.skip(11) == preview_spans(
                first_lines(cut_in_the_middle(result.output@, width), 10),
                Style::Dimmed,
            )
        }),
{
    let spans = result_spans(result, width);
    if result.error is Some {
        assert(spans.skip(11) =~= seq![
            ("    Error: "@, Style::Plain),
            (result.error->0@, Style::Red),
            ("\n"@, Style::Plain),
        ]);
    } else {
        assert(spans.skip(11) =~= preview_spans(
            first_lines(cut_in_the_middle(result.output@, width), 10),
            Style::Dimmed,
        ));
    }
}

/// A preview shows line by line, each behind a bar, and no more lines than are
/// wanted: the first ones.
pub proof fn previews_show_the_first_lines(
    lines: Seq<Seq<char>>,
    line: Seq<char>,
    style: Style,
    text: Seq<char>,
    most: int,
)
    requires
        most >= 0,
    ensures
        preview_spans(Seq::empty(), style).len() == 0,
        preview_spans(lines.push(line), style) == preview_spans(lines, style) + seq![
            ("    │ "@, Style::Plain),
            (line, style),
            ("\n"@, Style::Plain),
        ],
        crate::text::lines_of(text).len() <= most ==> first_lines(text, most)
            == crate::text::lines_of(text),
        crate::text::lines_of(text).len() > most ==> first_lines(text, most)
            == crate::text::lines_of(text).take(most),
{
    assert(lines.push(line).drop_last() =~= lines);
}

/// The results of a category are shown in order, each followed by an empty line,
/// and those of other categories are not.
pub proof fn categories_show_their_results(
    results: Seq<SweepResult>,
    result: SweepResult,
    name: Seq<char>,
)
    ensures
        category_spans(Seq::empty(), name).len() == 0,
        result.category@ == name ==> category_spans(results.push(result), name) == category_spans(
            results,
            name,
        ) + result_spans(result, 600) + seq![("\n"@, Style::Plain)],
        result.category@ != name ==> category_spans(results.push(result), name) == category_spans(
            results,
            name,
        ),
        result.sweep_label@ == name ==> sweep_spans(results.push(result), name) == sweep_spans(
            results,
            name,
        ) + compared_spans(result),
        result.sweep_label@ != name ==> sweep_spans(results.push(result), name) == sweep_spans(
            results,
            name,
        ),
        sweep_spans(Seq::empty(), name).len() == 0,
{
    assert(results.push(result).drop_last() =~= results);
    if result.category@ == name {
        assert(category_spans(results.push(result), name) =~= category_spans(results, name)
            + result_spans(result, 600) + seq![("\n"@, Style::Plain)]);
    }
}

/// A report starts with the model and the label, goes through the categories in
/// order, and ends with how many prompts there were and what they cost.
pub proof fn reports_have_a_head_and_a_summary(
    model: Seq<char>,
    label: Seq<char>,
    results: Seq<SweepResult>,
    usage: TokenUsage,
    names: Seq<Seq<char>>,
    name: Seq<char>,
)
    ensures
        ({
            let spans = report_spans(model, label, results, usage);
            let middle = categories_spans(
                results,
                in_order_once(results.map_values(|r: SweepResult| r.category@)),
            );
            let n = middle.len() as int;
            &&& spans.len() == n + 11
            &&& spans[0] == ("\n═══ "@, Style::Plain)
            &&& spans[1] == (model, Style::BoldWhite)
            &&& spans[2] == (" ─ "@, Style::Plain)
            &&& spans[3] == (label, Style::BoldYellow)
            &&& spans[4] == (" ═══\n\n"@, Style::Plain)
            &&& spans.subrange(5, 5 + n) == middle
            &&& spans[n + 5] == ("Summary"@, Style::Bold)
            &&& spans[n + 6] == (": "@, Style::Plain)
            &&& spans[n + 7] == (decimal_text(results.len()), Style::Plain)
            &&& spans[n + 8] == (" prompts, "@, Style::Plain)
            &&& spans[n + 9] == (tokens_text(usage), Style::Plain)
            &&& spans[n + 10] == (" total\n\n"@, Style::Plain)
        }),
        categories_spans(results, Seq::empty()).len() == 0,
        categories_spans(results, names.push(name)) == categories_spans(results, names) + seq![
            ("  "@, Style::Plain),
            (name, Style::BoldCyanUnderline),
            (":\n"@, Style::Plain),
        ] + category_spans(results, name),
{
    assert(names.push(name).drop_last() =~= names);
    assert(categories_spans(results, names.push(name)) =~= categories_spans(results, names) + seq![
        ("  "@, Style::Plain),
        (name, Style::BoldCyanUnderline),
        (":\n"@, Style::Plain),
    ] + category_spans(results, name));
    let groups = groups_of(Grouping::Category, results);
    assert(groups =~= results.map_values(|r: SweepResult| r.category@));
    let spans = report_spans(model, label, results, usage);
    let middle = categories_spans(results, in_order_once(groups));
    assert(spans.subrange(5, 5 + middle.len() as int) =~= middle);
}

/// A comparison starts with the model and the prompt, and goes through the
/// combinations in order: each result with its error, or with its time, its cost
/// and the first eight lines of the answer.
pub proof fn comparisons_go_through_the_combinations(
    model: Seq<char>,
    prompt: Seq<char>,
    results: Seq<SweepResult>,
    result: SweepResult,
    labels: Seq<Seq<char>>,
    label: Seq<char>,
)
    ensures
        ({
            let spans = comparison_spans(model, prompt, results);
            &&& spans.len() >= 5
            &&& spans[0] == ("═══ "@, Style::Plain)
            &&& spans[1] == (model, Style::BoldWhite)
            &&& spans[2] == (" → "@, Style::Plain)
            &&& spans[3] == (prompt, Style::BoldCyan)
            &&& spans[4] == (" — parameter comparison ═══\n\n"@, Style::Plain)
            &&& spans.skip(5) == labels_spans(
                results,
                in_order_once(results.map_values(|r: SweepResult| r.sweep_label@)),
            )
        }),
        labels_spans(results, Seq::empty()).len() == 0,
        labels_spans(results, labels.push(label)) == labels_spans(results, labels) + seq![
            ("  ─ "@, Style::Plain),
            (label, Style::BoldYellow),
            (" ─\n"@, Style::Plain),
        ] + sweep_spans(results, label),
        result.error is Some ==> compared_spans(result) == seq![
            ("    ⚠ Error: "@, Style::Plain),
            (result.error->0@, Style::Red),
            ("\n"@, Style::Plain),
            ("\n"@, Style::Plain),
        ],
        result.error is None ==> compared_spans(result) == seq![
            ("    "@, Style::Plain),
            (decimal_text(result.duration_ms as nat) + "ms"@, Style::Plain),
            (" · "@, Style::Plain),
            (
                "↑"@ + decimal_text(result.input_tokens as nat) + " ↓"@ + decimal_text(
                    result.output_tokens as nat,
                ),
                Style::Plain,
            ),
            ("\n"@, Style::Plain),
        ] + preview_spans(first_lines(cut_in_the_middle(result.output@, 300), 8), Style::Plain)
            + seq![("\n"@, Style::Plain)],
{
    assert(labels.push(label).drop_last() =~= labels);
    assert(labels_spans(results, labels.push(label)) =~= labels_spans(results, labels) + seq![
        ("  ─ "@, Style::Plain),
        (label, Style::BoldYellow),
        (" ─\n"@, Style::Plain),
    ] + sweep_spans(results, label));
    let groups = groups_of(Grouping::Sweep, results);
    assert(groups =~= results.map_values(|r: SweepResult| r.sweep_label@));
    let spans = comparison_spans(model, prompt, results);
    assert(spans.skip(5) =~= labels_spans(results, in_order_once(groups)));
    if result.error is Some {
        assert(compared_spans(result) =~= seq![
            ("    ⚠ Error: "@, Style::Plain),
            (result.error->0@, Style::Red),
            ("\n"@, Style::Plain),
            ("\n"@, Style::Plain),
        ]);
    } else {
        assert(compared_spans(result) =~= seq![
            ("    "@, Style::Plain),
            (decimal_text(result.duration_ms as nat) + "ms"@, Style::Plain),
            (" · "@, Style::Plain),
            (
                "↑"@ + decimal_text(result.input_tokens as nat) + " ↓"@ + decimal_text(
                    result.output_tokens as nat,
                ),
                Style::Plain,
            ),
            ("\n"@, Style::Plain),
        ] + preview_spans(first_lines(cut_in_the_middle(result.output@, 300), 8), Style::Plain)
            + seq![("\n"@, Style::Plain)]);
    }
}

/// A title that is not too long is shown whole. A longer one is shown by its
/// start, one short of what fits, and a sign that more was there.
pub proof fn long_titles_are_cut_at_the_end(title: Seq<char>, max: int)
    requires
        max >= 0,
    ensures
        title.len() <= max ==> cut_title(title, max) == title,
        title.len() > max && max > 0 ==> cut_title(title, max) == decode_utf8(
            encode_utf8(title).take(max - 1),
        ) + "…"@,
        title.len() > max && max == 0 ==> cut_title(title, max) == decode_utf8(
            encode_utf8(title).take(0),
        ) + "…"@,
{
    let bytes = encode_utf8(title);
    if max > 0 {
        assert(bytes.take(max - 1) =~= bytes.subrange(0, max - 1));
    } else {
        assert(bytes.take(0) =~= bytes.subrange(0, 0));
    }
}

/// The cost of an answer shows what went in and what came out, and in brackets
/// what was thought where there was any.
pub proof fn usage_shows_thinking_in_brackets(usage: TokenUsage)
    ensures
        usage.thinking_tokens == 0 ==> usage_text(usage) == "↑"@ + decimal_text(
            usage.input_tokens as nat,
        ) + " ↓"@ + decimal_text(usage.output_tokens as nat),
        usage.thinking_tokens > 0 ==> usage_text(usage) == "↑"@ + decimal_text(
            usage.input_tokens as nat,
        ) + " ↓"@ + decimal_text(usage.output_tokens as nat) + " ("@ + decimal_text(
            usage.thinking_tokens as nat,
        ) + " thinking)"@,
{
}

/// The catalog of the tuner is in the directory that is given, alone; else in the
/// one of the user, and then in the one of the project.
pub proof fn catalog_is_looked_for_in_order(dir: Seq<char>, home: Option<Seq<char>>)
    ensures
        dirs_for(Some(dir), home) == (dir, None::<Seq<char>>),
        dirs_for(None, home) == (
            crate::cli::tilde_resolved("~/.latte/models.d"@, home),
            Some(".latte/models.d"@),
        ),
{
}

/// The list of models goes through the providers in order, and under each through
/// its models in the order of the list.
pub proof fn models_are_listed_by_provider(
    models: Seq<Model>,
    model: Model,
    providers: Seq<Seq<char>>,
    provider: Seq<char>,
    current: Option<usize>,
)
    ensures
        provider_lines(Seq::empty(), provider, current).len() == 0,
        model.provider@ == provider ==> provider_lines(models.push(model), provider, current)
            == provider_lines(models, provider, current) + model_line(
            model,
            models.len() as int,
            current,
        ),
        model.provider@ != provider ==> provider_lines(models.push(model), provider, current)
            == provider_lines(models, provider, current),
        providers_lines(models, Seq::empty(), current).len() == 0,
        providers_lines(models, providers.push(provider), current) == providers_lines(
            models,
            providers,
            current,
        ) + seq![
            ("  "@, Style::Plain),
            (provider, Style::BoldUnderline),
            ("\n"@, Style::Plain),
        ] + provider_lines(models, provider, current),
        model_list(models, current) == seq![("\n"@, Style::Plain)] + providers_lines(
            models,
            in_order_once(models.map_values(|m: Model| m.provider@)),
            current,
        ) + seq![("\n"@, Style::Plain)],
{
    assert(models.push(model).drop_last() =~= models);
    assert(providers.push(provider).drop_last() =~= providers);
    assert(providers_lines(models, providers.push(provider), current) =~= providers_lines(
        models,
        providers,
        current,
    ) + seq![
        ("  "@, Style::Plain),
        (provider, Style::BoldUnderline),
        ("\n"@, Style::Plain),
    ] + provider_lines(models, provider, current));
    assert(providers_of(models) =~= models.map_values(|m: Model| m.provider@));
}

/// The list of prompts shows of each its name, its kind and what it is for.
pub proof fn prompts_are_listed_one_by_one(prompts: Seq<PromptView>, prompt: PromptView)
    ensures
        prompt_lines(Seq::empty()).len() == 0,
        prompt_lines(prompts.push(prompt)) == prompt_lines(prompts) + seq![
            ("  "@, Style::Plain),
            (prompt.name, Style::BoldCyan),
            ("  ["@, Style::Plain),
            (category_name(prompt.category), Style::Plain),
            ("]\n    "@, Style::Plain),
            (prompt.description, Style::Dimmed),
            ("\n\n"@, Style::Plain),
        ],
{
    assert(prompts.push(prompt).drop_last() =~= prompts);
}

} // verus!
