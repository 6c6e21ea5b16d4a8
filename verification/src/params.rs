//! How a model is asked to generate.
use crate::decimal::{number_text, Decimal};
use crate::models::{opt_text, tools_of, Tool, ToolChoice, ToolChoiceView, ToolView};
use crate::text::{concat, decimal, decimal_text, join, joined, texts};
use vstd::prelude::*;

verus! {

/// How much a model may think before it answers.
#[derive(Clone, Copy, Debug, PartialEq, Eq, Structural)]
pub enum ThinkingBudget {
    Minimal,
    Low,
    Medium,
    High,
    XHigh,
    Custom(u32),
}

/// The tokens of a budget.
pub open spec fn budget_tokens(budget: ThinkingBudget) -> u32 {
    match budget {
        ThinkingBudget::Minimal => 1024,
        ThinkingBudget::Low => 2048,
        ThinkingBudget::Medium => 8192,
        ThinkingBudget::High => 16384,
        ThinkingBudget::XHigh => 32768,
        ThinkingBudget::Custom(n) => n,
    }
}

impl ThinkingBudget {
    /// The tokens of this budget.
    pub fn token_budget(&self) -> (n: u32)
        ensures
            n == budget_tokens(*self),
    {
        match self {
            ThinkingBudget::Minimal => 1024,
            ThinkingBudget::Low => 2048,
            ThinkingBudget::Medium => 8192,
            ThinkingBudget::High => 16384,
            ThinkingBudget::XHigh => 32768,
            ThinkingBudget::Custom(n) => *n,
        }
    }
}

/// How a model is asked to generate. What is not set is left to the provider.
#[derive(Clone, Debug)]
pub struct GenerateParams {
    pub temperature: Option<Decimal>,
    pub top_p: Option<Decimal>,
    pub top_k: Option<u32>,
    pub min_p: Option<Decimal>,
    pub presence_penalty: Option<Decimal>,
    pub frequency_penalty: Option<Decimal>,
    pub repetition_penalty: Option<Decimal>,
    pub max_tokens: Option<u32>,
    pub stop_sequences: Vec<String>,
    pub thinking_budget: Option<ThinkingBudget>,
    pub seed: Option<u64>,
    /// The tools that the model may call.
    pub tools: Vec<Tool>,
    pub tool_choice: ToolChoice,
    /// Whether the model may ask for several calls in one answer.
    pub parallel_tool_calls: Option<bool>,
    /// A key that requests of one conversation share, by which the provider
    /// finds what it has cached of them.
    pub prompt_cache_key: Option<String>,
}

/// The same as a value.
pub struct ParamsView {
    pub temperature: Option<Decimal>,
    pub top_p: Option<Decimal>,
    pub top_k: Option<u32>,
    pub min_p: Option<Decimal>,
    pub presence_penalty: Option<Decimal>,
    pub frequency_penalty: Option<Decimal>,
    pub repetition_penalty: Option<Decimal>,
    pub max_tokens: Option<u32>,
    pub stop_sequences: Seq<Seq<char>>,
    pub thinking_budget: Option<ThinkingBudget>,
    pub seed: Option<u64>,
    pub tools: Seq<ToolView>,
    pub tool_choice: ToolChoiceView,
    pub parallel_tool_calls: Option<bool>,
    pub prompt_cache_key: Option<Seq<char>>,
}

impl View for GenerateParams {
    type V = ParamsView;

    open spec fn view(&self) -> ParamsView {
        ParamsView {
            temperature: self.temperature,
            top_p: self.top_p,
            top_k: self.top_k,
            min_p: self.min_p,
            presence_penalty: self.presence_penalty,
            frequency_penalty: self.frequency_penalty,
            repetition_penalty: self.repetition_penalty,
            max_tokens: self.max_tokens,
            stop_sequences: texts(self.stop_sequences@),
            thinking_budget: self.thinking_budget,
            seed: self.seed,
            tools: tools_of(self.tools@),
            tool_choice: self.tool_choice@,
            parallel_tool_calls: self.parallel_tool_calls,
            prompt_cache_key: opt_text(self.prompt_cache_key),
        }
    }
}

/// Nothing set.
pub open spec fn unset() -> ParamsView {
    ParamsView {
        temperature: None,
        top_p: None,
        top_k: None,
        min_p: None,
        presence_penalty: None,
        frequency_penalty: None,
        repetition_penalty: None,
        max_tokens: None,
        stop_sequences: Seq::empty(),
        thinking_budget: None,
        seed: None,
        tools: Seq::empty(),
        tool_choice: ToolChoiceView::Auto,
        parallel_tool_calls: None,
        prompt_cache_key: None,
    }
}

/// So many hundredths.
pub open spec fn hundredths(n: i64) -> Option<Decimal> {
    Some(Decimal { units: n, scale: 2 })
}

/// A part of a label, where there is something to say.
pub open spec fn piece(name: Seq<char>, value: Option<Seq<char>>) -> Seq<Seq<char>> {
    match value {
        Some(text) => seq![name + text],
        None => Seq::empty(),
    }
}

/// A decimal in words, where there is one.
pub open spec fn opt_number(d: Option<Decimal>) -> Option<Seq<char>> {
    match d {
        Some(d) => Some(number_text(d)),
        None => None,
    }
}

/// A count in words, where there is one.
pub open spec fn opt_count(n: Option<u32>) -> Option<Seq<char>> {
    match n {
        Some(n) => Some(decimal_text(n as nat)),
        None => None,
    }
}

/// The parts of a label.
pub open spec fn label_pieces(p: ParamsView) -> Seq<Seq<char>> {
    piece("t="@, opt_number(p.temperature)) + piece("p="@, opt_number(p.top_p)) + piece(
        "k="@,
        opt_count(p.top_k),
    ) + piece("mp="@, opt_number(p.min_p)) + piece("pp="@, opt_number(p.presence_penalty)) + piece(
        "fp="@,
        opt_number(p.frequency_penalty),
    ) + piece("rp="@, opt_number(p.repetition_penalty)) + piece(
        "tb="@,
        match p.thinking_budget {
            Some(tb) => Some(decimal_text(budget_tokens(tb) as nat)),
            None => None,
        },
    ) + piece("mt="@, opt_count(p.max_tokens))
}

/// A label that sums the settings up.
pub open spec fn label_text(p: ParamsView) -> Seq<char> {
    if label_pieces(p).len() == 0 {
        "defaults"@
    } else {
        joined(label_pieces(p), ","@)
    }
}

fn push_piece(pieces: &mut Vec<String>, name: &str, value: Option<String>)
    ensures
        texts(final(pieces)@) == texts(old(pieces)@) + piece(name@, opt_text(value)),
{
    match value {
        Some(text) => {
            let ghost before = pieces@;
            pieces.push(concat(name, text.as_str()));
            assert(texts(pieces@) =~= texts(before).push(name@ + text@));
            assert(texts(before).push(name@ + text@) =~= texts(before) + seq![name@ + text@]);
        },
        None => {
            assert(texts(pieces@) + Seq::<Seq<char>>::empty() =~= texts(pieces@));
        },
    }
}

fn number_words(d: Option<Decimal>) -> (text: Option<String>)
    ensures
        opt_text(text) == opt_number(d),
{
    match d {
        Some(d) => Some(d.text()),
        None => None,
    }
}

fn count_words(n: Option<u32>) -> (text: Option<String>)
    ensures
        opt_text(text) == opt_count(n),
{
    match n {
        Some(n) => Some(decimal(n as u64)),
        None => None,
    }
}

impl Default for GenerateParams {
    fn default() -> (params: GenerateParams)
        ensures
            params@ == unset(),
    {
        let params = GenerateParams {
            temperature: None,
            top_p: None,
            top_k: None,
            min_p: None,
            presence_penalty: None,
            frequency_penalty: None,
            repetition_penalty: None,
            max_tokens: None,
            stop_sequences: Vec::new(),
            thinking_budget: None,
            seed: None,
            tools: Vec::new(),
            tool_choice: ToolChoice::Auto,
            parallel_tool_calls: None,
            prompt_cache_key: None,
        };
        assert(params@.stop_sequences =~= Seq::empty());
        assert(params@.tools =~= Seq::empty());
        params
    }
}

impl GenerateParams {
    /// Settings for writing code.
    pub fn code_defaults() -> (params: GenerateParams)
        ensures
            params@ == (ParamsView {
                temperature: hundredths(10),
                top_p: hundredths(90),
                top_k: Some(40),
                min_p: hundredths(5),
                max_tokens: Some(4096),
                ..unset()
            }),
    {
        let mut params = GenerateParams::default();
        params.temperature = Some(Decimal { units: 10, scale: 2 });
        params.top_p = Some(Decimal { units: 90, scale: 2 });
        params.top_k = Some(40);
        params.min_p = Some(Decimal { units: 5, scale: 2 });
        params.max_tokens = Some(4096);
        params
    }

    /// Settings for creative work.
    pub fn creative_defaults() -> (params: GenerateParams)
        ensures
            params@ == (ParamsView {
                temperature: hundredths(80),
                top_p: hundredths(95),
                presence_penalty: hundredths(10),
                frequency_penalty: hundredths(10),
                max_tokens: Some(4096),
                ..unset()
            }),
    {
        let mut params = GenerateParams::default();
        params.temperature = Some(Decimal { units: 80, scale: 2 });
        params.top_p = Some(Decimal { units: 95, scale: 2 });
        params.presence_penalty = Some(Decimal { units: 10, scale: 2 });
        params.frequency_penalty = Some(Decimal { units: 10, scale: 2 });
        params.max_tokens = Some(4096);
        params
    }

    /// Settings for analysis and debugging.
    pub fn analysis_defaults() -> (params: GenerateParams)
        ensures
            params@ == (ParamsView {
                temperature: hundredths(20),
                top_p: hundredths(90),
                min_p: hundredths(2),
                max_tokens: Some(8192),
                thinking_budget: Some(ThinkingBudget::Medium),
                ..unset()
            }),
    {
        let mut params = GenerateParams::default();
        params.temperature = Some(Decimal { units: 20, scale: 2 });
        params.top_p = Some(Decimal { units: 90, scale: 2 });
        params.min_p = Some(Decimal { units: 2, scale: 2 });
        params.max_tokens = Some(8192);
        params.thinking_budget = Some(ThinkingBudget::Medium);
        params
    }

    /// A label that sums the settings up.
    pub fn label(&self) -> (text: String)
        ensures
            text@ == label_text(self@),
    {
        let mut pieces: Vec<String> = Vec::new();
        assert(texts(pieces@) =~= Seq::empty());
        push_piece(&mut pieces, "t=", number_words(self.temperature));
        assert(texts(pieces@) =~= piece("t="@, opt_number(self@.temperature)));
        push_piece(&mut pieces, "p=", number_words(self.top_p));
        push_piece(&mut pieces, "k=", count_words(self.top_k));
        push_piece(&mut pieces, "mp=", number_words(self.min_p));
        push_piece(&mut pieces, "pp=", number_words(self.presence_penalty));
        push_piece(&mut pieces, "fp=", number_words(self.frequency_penalty));
        push_piece(&mut pieces, "rp=", number_words(self.repetition_penalty));
        push_piece(
            &mut pieces,
            "tb=",
            match self.thinking_budget {
                Some(tb) => Some(decimal(tb.token_budget() as u64)),
                None => None,
            },
        );
        push_piece(&mut pieces, "mt=", count_words(self.max_tokens));
        assert(texts(pieces@) == label_pieces(self@));
        assert(texts(pieces@).len() == pieces@.len());
        if pieces.len() == 0 {
            "defaults".to_owned()
        } else {
            join(pieces.as_slice(), ",")
        }
    }
}

} // verus!
