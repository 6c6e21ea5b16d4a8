//! Combinations of settings to try a model with, and what comes of a try.
use crate::decimal::Decimal;
use crate::error::{ai_error_text, AiError};
use crate::models::{Completion, TokenUsage};
use crate::params::{
    hundredths, label_text, unset, GenerateParams, ParamsView, ThinkingBudget,
};
use crate::prompts::{all_prompts, prompt_list, prompts_of, PromptView, TestPrompt};
use crate::text::{contains, find_in, opt_str};
use vstd::prelude::*;

verus! {

/// A combination of settings.
#[derive(Clone, Debug)]
pub struct ParamSweep {
    pub label: String,
    pub params: GenerateParams,
}

/// The same as a value.
pub struct SweepView {
    pub label: Seq<char>,
    pub params: ParamsView,
}

impl View for ParamSweep {
    type V = SweepView;

    open spec fn view(&self) -> SweepView {
        SweepView { label: self.label@, params: self.params@ }
    }
}

/// Combinations as values.
pub open spec fn sweeps_of(sweeps: Seq<ParamSweep>) -> Seq<SweepView> {
    sweeps.map_values(|s: ParamSweep| s@)
}

/// What came of trying a combination on a prompt.
#[derive(Clone, Debug)]
pub struct SweepResult {
    pub sweep_label: String,
    pub prompt_name: String,
    pub category: String,
    pub output: String,
    pub input_tokens: u32,
    pub output_tokens: u32,
    pub thinking_tokens: u32,
    pub duration_ms: u64,
    pub error: Option<String>,
}

/// The combinations for writing programs.
pub open spec fn programming_list() -> Seq<SweepView> {
    seq![
        SweepView {
            label: "conservative"@,
            params: ParamsView {
                temperature: hundredths(0),
                top_p: hundredths(90),
                ..unset()
            },
        },
        SweepView {
            label: "low-temp"@,
            params: ParamsView {
                temperature: hundredths(10),
                top_p: hundredths(92),
                min_p: hundredths(3),
                ..unset()
            },
        },
        SweepView {
            label: "balanced"@,
            params: ParamsView {
                temperature: hundredths(30),
                top_p: hundredths(90),
                ..unset()
            },
        },
        SweepView {
            label: "creative"@,
            params: ParamsView {
                temperature: hundredths(70),
                top_p: hundredths(95),
                presence_penalty: hundredths(10),
                ..unset()
            },
        },
        SweepView {
            label: "no-minp"@,
            params: ParamsView {
                temperature: hundredths(30),
                top_p: hundredths(90),
                ..unset()
            },
        },
        SweepView {
            label: "anti-repetition"@,
            params: ParamsView {
                temperature: hundredths(30),
                top_p: hundredths(90),
                frequency_penalty: hundredths(30),
                ..unset()
            },
        },
        SweepView {
            label: "thinking-medium"@,
            params: ParamsView {
                temperature: hundredths(10),
                thinking_budget: Some(ThinkingBudget::Medium),
                ..unset()
            },
        },
        SweepView {
            label: "thinking-high"@,
            params: ParamsView {
                temperature: hundredths(20),
                thinking_budget: Some(ThinkingBudget::High),
                ..unset()
            },
        },
        SweepView {
            label: "short-output"@,
            params: ParamsView {
                temperature: hundredths(30),
                top_p: hundredths(90),
                max_tokens: Some(512),
                ..unset()
            },
        },
        SweepView {
            label: "very-creative"@,
            params: ParamsView {
                temperature: hundredths(90),
                top_p: hundredths(99),
                top_k: Some(80),
                ..unset()
            },
        },
    ]
}

/// A few combinations for a quick look.
pub open spec fn quick_list() -> Seq<SweepView> {
    seq![
        SweepView {
            label: "deterministic"@,
            params: ParamsView {
                temperature: hundredths(0),
                top_p: hundredths(90),
                ..unset()
            },
        },
        SweepView {
            label: "default-code"@,
            params: ParamsView {
                temperature: hundredths(10),
                top_p: hundredths(92),
                min_p: hundredths(3),
                ..unset()
            },
        },
        SweepView {
            label: "balanced"@,
            params: ParamsView {
                temperature: hundredths(30),
                top_p: hundredths(90),
                ..unset()
            },
        },
        SweepView {
            label: "thinking"@,
            params: ParamsView {
                temperature: hundredths(10),
                thinking_budget: Some(ThinkingBudget::Medium),
                ..unset()
            },
        },
    ]
}

/// A combination with a temperature and perhaps a top-p, in hundredths.
fn combination(label: &str, temperature: i64, top_p: Option<i64>) -> (sweep: ParamSweep)
    ensures
        sweep@ == (SweepView {
            label: label@,
            params: ParamsView {
                temperature: hundredths(temperature),
                top_p: match top_p {
                    Some(n) => hundredths(n),
                    None => None,
                },
                ..unset()
            },
        }),
{
    let mut params = GenerateParams::default();
    params.temperature = Some(Decimal { units: temperature, scale: 2 });
    if let Some(n) = top_p {
        params.top_p = Some(Decimal { units: n, scale: 2 });
    }
    ParamSweep { label: label.to_owned(), params }
}

/// The combinations for writing programs.
pub fn programming_sweep() -> (list: Vec<ParamSweep>)
    ensures
        sweeps_of(list@) == programming_list(),
{
    let conservative = combination("conservative", 0, Some(90));
    let mut low_temp = combination("low-temp", 10, Some(92));
    low_temp.params.min_p = Some(Decimal { units: 3, scale: 2 });
    let balanced = combination("balanced", 30, Some(90));
    let mut creative = combination("creative", 70, Some(95));
    creative.params.presence_penalty = Some(Decimal { units: 10, scale: 2 });
    let no_minp = combination("no-minp", 30, Some(90));
    let mut anti_repetition = combination("anti-repetition", 30, Some(90));
    anti_repetition.params.frequency_penalty = Some(Decimal { units: 30, scale: 2 });
    let mut thinking_medium = combination("thinking-medium", 10, None);
    thinking_medium.params.thinking_budget = Some(ThinkingBudget::Medium);
    let mut thinking_high = combination("thinking-high", 20, None);
    thinking_high.params.thinking_budget = Some(ThinkingBudget::High);
    let mut short_output = combination("short-output", 30, Some(90));
    short_output.params.max_tokens = Some(512);
    let mut very_creative = combination("very-creative", 90, Some(99));
    very_creative.params.top_k = Some(80);
    let list: Vec<ParamSweep> = vec![
        conservative,
        low_temp,
        balanced,
        creative,
        no_minp,
        anti_repetition,
        thinking_medium,
        thinking_high,
        short_output,
        very_creative,
    ];
    assert(sweeps_of(list@) =~= programming_list());
    list
}

/// A few combinations for a quick look.
pub fn quick_sweep() -> (list: Vec<ParamSweep>)
    ensures
        sweeps_of(list@) == quick_list(),
{
    let deterministic = combination("deterministic", 0, Some(90));
    let mut default_code = combination("default-code", 10, Some(92));
    default_code.params.min_p = Some(Decimal { units: 3, scale: 2 });
    let balanced = combination("balanced", 30, Some(90));
    let mut thinking = combination("thinking", 10, None);
    thinking.params.thinking_budget = Some(ThinkingBudget::Medium);
    let list: Vec<ParamSweep> = vec![
        deterministic,
        default_code,
        balanced,
        thinking,
    ];
    assert(sweeps_of(list@) =~= quick_list());
    list
}

/// Whether a name is asked for: it holds the text that is looked for, if any.
pub open spec fn wanted(name: Seq<char>, filter: Option<Seq<char>>) -> bool {
    match filter {
        Some(text) => text.len() == 0 || find_in(name, text) is Some,
        None => true,
    }
}

fn is_wanted(name: &str, filter: Option<&str>) -> (b: bool)
    ensures
        b == wanted(name@, opt_str(filter)),
{
    match filter {
        Some(text) => text.unicode_len() == 0 || contains(name, text),
        None => true,
    }
}

/// The prompts that are asked for.
pub open spec fn wanted_prompts(filter: Option<Seq<char>>) -> spec_fn(PromptView) -> bool {
    |p: PromptView| wanted(p.name, filter)
}

/// The combinations that are asked for.
pub open spec fn wanted_sweeps(filter: Option<Seq<char>>) -> spec_fn(SweepView) -> bool {
    |s: SweepView| wanted(s.label, filter)
}

/// The prompts that are asked for.
pub fn filter_prompts(filter: Option<&str>) -> (out: Vec<TestPrompt>)
    ensures
        prompts_of(out@) == prompt_list().filter(wanted_prompts(opt_str(filter))),
{
    let all = all_prompts();
    let ghost list = prompts_of(all@);
    let ghost keep = wanted_prompts(opt_str(filter));
    let mut out: Vec<TestPrompt> = Vec::new();
    let mut i: usize = 0;
    assert(prompts_of(out@) =~= list.take(0).filter(keep)) by {
        reveal(Seq::filter);
    }
    while i < all.len()
        invariant
            i <= all@.len(),
            list == prompts_of(all@),
            keep == wanted_prompts(opt_str(filter)),
            prompts_of(out@) == list.take(i as int).filter(keep),
        decreases all@.len() - i,
    {
        let ghost before = prompts_of(out@);
        proof {
            reveal(Seq::filter);
            assert(list.take(i + 1).drop_last() =~= list.take(i as int));
            assert(list.take(i + 1).last() == all@[i as int]@);
        }
        if is_wanted(all[i].name, filter) {
            out.push(all[i]);
            assert(prompts_of(out@) =~= before.push(all@[i as int]@));
        }
        i = i + 1;
    }
    assert(list.take(list.len() as int) =~= list);
    out
}

/// Combinations that are referred to, as values.
pub open spec fn sweeps_seen(sweeps: Seq<&ParamSweep>) -> Seq<SweepView> {
    sweeps.map_values(|s: &ParamSweep| s@)
}

/// The combinations that are asked for.
pub fn filter_sweeps<'a>(sweeps: &'a [ParamSweep], filter: Option<&str>) -> (out: Vec<
    &'a ParamSweep,
>)
    ensures
        sweeps_seen(out@) == sweeps_of(sweeps@).filter(wanted_sweeps(opt_str(filter))),
{
    let ghost list = sweeps_of(sweeps@);
    let ghost keep = wanted_sweeps(opt_str(filter));
    let mut out: Vec<&'a ParamSweep> = Vec::new();
    let mut i: usize = 0;
    assert(sweeps_seen(out@) =~= list.take(0).filter(keep)) by {
        reveal(Seq::filter);
    }
    while i < sweeps.len()
        invariant
            i <= sweeps@.len(),
            list == sweeps_of(sweeps@),
            keep == wanted_sweeps(opt_str(filter)),
            sweeps_seen(out@) == list.take(i as int).filter(keep),
        decreases sweeps@.len() - i,
    {
        let ghost before = sweeps_seen(out@);
        proof {
            reveal(Seq::filter);
            assert(list.take(i + 1).drop_last() =~= list.take(i as int));
            assert(list.take(i + 1).last() == sweeps@[i as int]@);
        }
        if is_wanted(sweeps[i].label.as_str(), filter) {
            out.push(&sweeps[i]);
            assert(sweeps_seen(out@) =~= before.push(sweeps@[i as int]@));
        }
        i = i + 1;
    }
    assert(list.take(list.len() as int) =~= list);
    out
}

/// What comes of a try: the answer and its usage, or the error in words.
pub fn test_result(
    params: &GenerateParams,
    prompt_name: &str,
    outcome: Result<Completion, AiError>,
    duration_ms: u64,
) -> (result: SweepResult)
    ensures
        result.sweep_label@ == label_text(params@),
        result.prompt_name@ == prompt_name@,
        result.category@ == "test"@,
        result.duration_ms == duration_ms,
        match outcome {
            Ok(completion) => {
                &&& result.output@ == completion@.content
                &&& result.input_tokens == completion@.usage.input_tokens
                &&& result.output_tokens == completion@.usage.output_tokens
                &&& result.thinking_tokens == completion@.usage.thinking_tokens
                &&& result.error is None
            },
            Err(e) => {
                &&& result.output@ == Seq::<char>::empty()
                &&& result.input_tokens == 0
                &&& result.output_tokens == 0
                &&& result.thinking_tokens == 0
                &&& result.error matches Some(text) && text@ == ai_error_text(e@)
            },
        },
{
    match outcome {
        Ok(completion) => SweepResult {
            sweep_label: params.label(),
            prompt_name: prompt_name.to_owned(),
            category: "test".to_owned(),
            output: completion.content,
            input_tokens: completion.usage.input_tokens,
            output_tokens: completion.usage.output_tokens,
            thinking_tokens: completion.usage.thinking_tokens,
            duration_ms,
            error: None,
        },
        Err(e) => SweepResult {
            sweep_label: params.label(),
            prompt_name: prompt_name.to_owned(),
            category: "test".to_owned(),
            output: String::new(),
            input_tokens: 0,
            output_tokens: 0,
            thinking_tokens: 0,
            duration_ms,
            error: Some(e.message()),
        },
    }
}

/// What a combination has cost over several prompts.
#[derive(Clone, Copy, Debug, PartialEq, Eq, Structural)]
pub struct SweepTotals {
    pub prompts: u64,
    pub usage: TokenUsage,
    pub duration_ms: u64,
}

/// Whether the totals can take one more result.
pub open spec fn totals_fit(totals: SweepTotals, result: SweepResult) -> bool {
    &&& totals.prompts < u64::MAX
    &&& totals.usage.input_tokens + result.input_tokens <= u32::MAX
    &&& totals.usage.output_tokens + result.output_tokens <= u32::MAX
    &&& totals.usage.thinking_tokens + result.thinking_tokens <= u32::MAX
    &&& totals.duration_ms + result.duration_ms <= u64::MAX
}

impl SweepTotals {
    /// Nothing yet.
    pub fn new() -> (totals: SweepTotals)
        ensures
            totals == (SweepTotals {
                prompts: 0,
                usage: TokenUsage { input_tokens: 0, output_tokens: 0, thinking_tokens: 0 },
                duration_ms: 0,
            }),
    {
        SweepTotals { prompts: 0, usage: TokenUsage::default(), duration_ms: 0 }
    }

    /// Whether the totals can take one more result.
    pub fn can_take(&self, result: &SweepResult) -> (b: bool)
        ensures
            b == totals_fit(*self, *result),
    {
        self.prompts < u64::MAX && self.usage.input_tokens <= u32::MAX - result.input_tokens
            && self.usage.output_tokens <= u32::MAX - result.output_tokens
            && self.usage.thinking_tokens <= u32::MAX - result.thinking_tokens
            && self.duration_ms <= u64::MAX - result.duration_ms
    }

    /// Takes one more result.
    pub fn take(&mut self, result: &SweepResult)
        requires
            totals_fit(*old(self), *result),
        ensures
            *final(self) == (SweepTotals {
                prompts: (old(self).prompts + 1) as u64,
                usage: TokenUsage {
                    input_tokens: (old(self).usage.input_tokens + result.input_tokens) as u32,
                    output_tokens: (old(self).usage.output_tokens + result.output_tokens) as u32,
                    thinking_tokens: (old(self).usage.thinking_tokens
                        + result.thinking_tokens) as u32,
                },
                duration_ms: (old(self).duration_ms + result.duration_ms) as u64,
            }),
    {
        self.prompts = self.prompts + 1;
        self.usage = TokenUsage {
            input_tokens: self.usage.input_tokens + result.input_tokens,
            output_tokens: self.usage.output_tokens + result.output_tokens,
            thinking_tokens: self.usage.thinking_tokens + result.thinking_tokens,
        };
        self.duration_ms = self.duration_ms + result.duration_ms;
    }
}

} // verus!
