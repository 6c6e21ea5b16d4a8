//! The tuner: prompts, sweeps, reports and the conversation.
use latte::catalog::ModelCatalog;
use latte::clock::Timestamp;
use latte::config::ModelEntry;
use latte::error::AiError;
use latte::models::{ApiType, Completion, ContentPart, Model, Role, StreamEvent, TokenUsage};
use latte::order::{comes_before, sort};
use latte::params::{GenerateParams, ThinkingBudget};
use latte::prompts::{all_prompts, PromptCategory};
use latte::report::{
    can_cut, can_cut_title, can_show, format_comparison, format_report, format_result,
    names_in_order, truncate, truncate_mid, Span, Style, UsageDisplay,
};
use latte::sweeper::{
    filter_prompts, filter_sweeps, programming_sweep, quick_sweep, test_result, SweepResult,
    SweepTotals,
};
use latte::tune::{
    build_model, catalog_models, choose_model, entry_to_model, enters_repl, find_model_index,
    find_prompt, list_prompts, model_dirs, no_models_text, print_model_list, question, reads_input,
    sweep_models, Repl, ReplAction, Shown, Turn,
};

fn entry(id: &str, name: Option<&str>, provider: &str) -> ModelEntry {
    ModelEntry {
        id: id.to_string(),
        name: name.map(|n| n.to_string()),
        api: ApiType::OpenAiCompletions,
        provider: provider.to_string(),
        base_url: "http://u".to_string(),
        api_key: "k".to_string(),
        context_window: 65536,
        max_tokens: 4096,
        rate_limit_refresh_anchor: Timestamp { secs: 0, nanos: 0 },
        rate_limit_refresh_interval_secs: 60,
        retry_count_5xx: 5,
        cooldown_5xx_secs: 600,
        retry_on: vec![403],
        retry_on_count: 10,
        retry_on_cooldown_secs: 600,
        supports_vision: true,
    }
}

fn models() -> Vec<Model> {
    catalog_models(&ModelCatalog::from_entries(vec![
        entry("gpt-4o", Some("GPT 4o"), "openai"),
        entry("deepseek-chat", None, "deepseek"),
        entry("deepseek-reasoner", Some("A reasoner"), "deepseek"),
    ]))
}

fn ids(models: &[Model]) -> Vec<&str> {
    models.iter().map(|m| m.id.as_str()).collect()
}

fn plain(spans: &[Span]) -> String {
    spans.iter().map(|s| s.text.as_str()).collect()
}

fn result(sweep: &str, category: &str, output: &str) -> SweepResult {
    SweepResult {
        sweep_label: sweep.to_string(),
        prompt_name: "p".to_string(),
        category: category.to_string(),
        output: output.to_string(),
        input_tokens: 10,
        output_tokens: 20,
        thinking_tokens: 0,
        duration_ms: 7,
        error: None,
    }
}

#[test]
fn models_come_in_order_of_provider_and_name() {
    assert_eq!(ids(&models()), vec!["deepseek-reasoner", "deepseek-chat", "gpt-4o"]);
}

#[test]
fn entries_become_models() {
    let mut e = entry("m", None, "p");
    let m = entry_to_model(&e);
    assert_eq!(m.name, "m");
    assert!(!m.supports_thinking);
    assert!(m.supports_vision);
    assert_eq!(m.timeout_secs, None);
    e.api = ApiType::AnthropicMessages;
    e.name = Some("M".to_string());
    let m = entry_to_model(&e);
    assert_eq!(m.name, "M");
    assert!(m.supports_thinking);
}

#[test]
fn models_are_found_by_number_or_name() {
    let models = models();
    assert_eq!(find_model_index(&models, "1"), Some(0));
    assert_eq!(find_model_index(&models, "3"), Some(2));
    assert_eq!(find_model_index(&models, "0"), None);
    assert_eq!(find_model_index(&models, "9"), None);
    assert_eq!(find_model_index(&models, "4O"), Some(2));
    assert_eq!(find_model_index(&models, "DEEPSEEK-C"), Some(1));
    assert_eq!(find_model_index(&models, "a REASONER"), Some(0));
    assert_eq!(find_model_index(&models, "none"), None);
    assert_eq!(choose_model(&models, None), Ok(0));
    assert_eq!(choose_model(&models, Some("gpt")), Ok(2));
    assert_eq!(
        choose_model(&models, Some("none")),
        Err("Model 'none' not found in models.d/".to_string())
    );
    assert_eq!(choose_model(&[], None), Err("No models configured.".to_string()));
}

#[test]
fn models_are_looked_for_in_their_directories() {
    assert_eq!(model_dirs(Some("/d"), Some("/home/u")), ("/d".to_string(), None));
    assert_eq!(
        model_dirs(None, Some("/home/u")),
        ("/home/u/.latte/models.d".to_string(), Some(".latte/models.d".to_string()))
    );
    assert_eq!(
        no_models_text("/d"),
        "no models found; create /d (and/or ./.latte/models.d) or pass --config <dir>"
    );
}

#[test]
fn a_model_can_be_given_on_the_command_line() {
    let m = build_model("m", "Anthropic", None, None, Some("env"), "custom", 4096, 65536);
    assert_eq!(m.api, ApiType::AnthropicMessages);
    assert_eq!(m.base_url, "https://api.anthropic.com");
    assert_eq!(m.api_key, "env");
    assert_eq!(m.name, "m");
    assert!(m.supports_thinking);
    let m = build_model("m", "other", Some("http://b"), Some("k"), Some("env"), "custom", 1, 2);
    assert_eq!(m.api, ApiType::OpenAiCompletions);
    assert_eq!(m.base_url, "http://b");
    assert_eq!(m.api_key, "k");
    assert_eq!((m.max_tokens, m.context_window), (1, 2));
    let m = build_model("m", "anthropic-messages", None, None, None, "custom", 1, 2);
    assert_eq!(m.api, ApiType::AnthropicMessages);
    assert_eq!(m.api_key, "");
}

#[test]
fn lists_of_models_are_grouped_by_provider() {
    let models = models();
    let spans = print_model_list(&models, Some(1));
    assert_eq!(
        plain(&spans),
        "\n  deepseek\n       1. A reasoner deepseek-reasoner\n    ◀  2. deepseek-chat deepseek-chat\n  openai\n       3. GPT 4o gpt-4o\n\n"
    );
    assert!(spans.iter().any(|s| s.text == "openai" && s.style == Style::BoldUnderline));
}

#[test]
fn prompts_are_known_by_name() {
    let prompts = all_prompts();
    assert_eq!(prompts.len(), 8);
    for p in &prompts {
        match find_prompt(p.name) {
            Ok(found) => assert_eq!(found.user, p.user),
            Err(e) => panic!("{e}"),
        }
        let messages = p.to_messages();
        assert_eq!(messages.len(), 2);
        assert_eq!(messages[0].role, Role::System);
        assert_eq!(messages[0].as_text(), p.system);
        assert_eq!(messages[1].role, Role::User);
        assert_eq!(messages[1].as_text(), p.user);
    }
    match find_prompt("none") {
        Ok(_) => panic!("expected a refusal"),
        Err(e) => {
            assert_eq!(e, "Prompt 'none' not found. Use `list-prompts` to see available.")
        }
    }
    assert_eq!(PromptCategory::Debugging.text(), prompts[3].category.text());
    let listed = plain(&list_prompts());
    assert!(listed.starts_with("Available test prompts:\n\n"), "{listed}");
    assert!(listed.ends_with("Total: 8 prompts\n"), "{listed}");
}

#[test]
fn prompts_and_sweeps_are_filtered_by_a_part_of_the_name() {
    assert_eq!(filter_prompts(None).len(), 8);
    assert_eq!(filter_prompts(Some("")).len(), 8);
    let some = filter_prompts(Some("debug"));
    assert!(!some.is_empty() && some.len() < 8);
    assert!(some.iter().all(|p| p.name.contains("debug")));
    let all = programming_sweep();
    let some = filter_sweeps(&all, Some("thinking"));
    let labels: Vec<&str> = some.iter().map(|s| s.label.as_str()).collect();
    assert_eq!(labels, vec!["thinking-medium", "thinking-high"]);
    assert_eq!(filter_sweeps(&all, None).len(), all.len());
}

#[test]
fn sweeps_have_their_parameters() {
    let all = programming_sweep();
    let labels: Vec<&str> = all.iter().map(|s| s.label.as_str()).collect();
    assert_eq!(
        labels,
        vec![
            "conservative", "low-temp", "balanced", "creative", "no-minp", "anti-repetition",
            "thinking-medium", "thinking-high", "short-output", "very-creative",
        ]
    );
    let low = &all[1].params;
    assert_eq!(low.temperature.unwrap().text(), "0.1");
    assert_eq!(low.top_p.unwrap().text(), "0.92");
    assert_eq!(low.min_p.unwrap().text(), "0.03");
    assert_eq!(all[3].params.presence_penalty.unwrap().text(), "0.1");
    assert_eq!(all[5].params.frequency_penalty.unwrap().text(), "0.3");
    assert_eq!(all[7].params.thinking_budget, Some(ThinkingBudget::High));
    assert_eq!(all[8].params.max_tokens, Some(512));
    assert_eq!(all[9].params.top_k, Some(80));
    let quick = quick_sweep();
    let labels: Vec<&str> = quick.iter().map(|s| s.label.as_str()).collect();
    assert_eq!(labels, vec!["deterministic", "default-code", "balanced", "thinking"]);
    assert_eq!(quick[1].params.min_p.unwrap().text(), "0.03");
    assert!(quick[3].params.top_p.is_none());
}

#[test]
fn outcomes_become_results() {
    let params = GenerateParams::code_defaults();
    let usage = TokenUsage { input_tokens: 1, output_tokens: 2, thinking_tokens: 3 };
    let completion = Completion::new(
        vec![ContentPart::text("done")],
        vec![],
        "stop".to_string(),
        usage,
    );
    let r = test_result(&params, "p", Ok(completion), 5);
    assert_eq!(r.sweep_label, params.label());
    assert_eq!((r.prompt_name.as_str(), r.category.as_str()), ("p", "test"));
    assert_eq!(r.output, "done");
    assert_eq!((r.input_tokens, r.output_tokens, r.thinking_tokens), (1, 2, 3));
    assert!(r.error.is_none());
    let failed = test_result(&params, "p", Err(AiError::Auth("no".to_string())), 6);
    assert_eq!(failed.output, "");
    assert_eq!(failed.error, Some(AiError::Auth("no".to_string()).message()));
    assert_eq!(failed.duration_ms, 6);

    let mut totals = SweepTotals::new();
    assert!(totals.can_take(&r));
    totals.take(&r);
    assert!(totals.can_take(&failed));
    totals.take(&failed);
    assert_eq!(totals.prompts, 2);
    assert_eq!(totals.usage.output_tokens, 2);
    assert_eq!(totals.duration_ms, 11);
    let mut big = failed;
    big.duration_ms = u64::MAX;
    assert!(!totals.can_take(&big));
}

#[test]
fn long_texts_are_cut_in_the_middle() {
    assert!(can_cut("0123456789", 4));
    assert_eq!(truncate_mid("0123456789", 4), "01…[6 chars]…89");
    assert_eq!(truncate_mid("0123", 4), "0123");
    assert!(!can_cut("ä123456789", 2));
    assert!(can_cut_title("abcdef", 4));
    assert_eq!(truncate("abcdef", 4), "abc…");
    assert_eq!(truncate("abcd", 4), "abcd");
    assert!(!can_cut_title("äbcdef", 2));
}

#[test]
fn results_are_shown_with_their_lines() {
    let r = result("s", "test", "one\ntwo");
    assert!(can_show(&r, 600));
    assert_eq!(
        plain(&format_result(&r, 600)),
        "  [test] p — OK — ↑10 ↓20 — 7ms\n    │ one\n    │ two\n"
    );
    let mut failed = result("s", "test", "");
    failed.error = Some("no".to_string());
    assert_eq!(
        plain(&format_result(&failed, 600)),
        "  [test] p — ERROR — ↑10 ↓20 — 7ms\n    Error: no\n"
    );
    let many = result("s", "test", &"line\n".repeat(20));
    assert_eq!(plain(&format_result(&many, 600)).matches("│").count(), 10);
}

#[test]
fn usage_in_words() {
    let mut usage = TokenUsage { input_tokens: 1, output_tokens: 2, thinking_tokens: 0 };
    assert_eq!(usage.usage_string(), "↑1 ↓2");
    usage.thinking_tokens = 3;
    assert_eq!(usage.usage_string(), "↑1 ↓2 t:3");
    assert_eq!(result("s", "c", "").usage_string(), "↑10 ↓20");
}

#[test]
fn reports_are_grouped_in_order() {
    let results = vec![result("s", "zeta", "z"), result("s", "alpha", "a"), result("s", "zeta", "y")];
    let usage = TokenUsage { input_tokens: 30, output_tokens: 60, thinking_tokens: 0 };
    let text = plain(&format_report("M", "L", &results, &usage));
    assert_eq!(
        text,
        "\n═══ M ─ L ═══\n\n  alpha:\n  [alpha] p — OK — ↑10 ↓20 — 7ms\n    │ a\n\n  zeta:\n  [zeta] p — OK — ↑10 ↓20 — 7ms\n    │ z\n\n  [zeta] p — OK — ↑10 ↓20 — 7ms\n    │ y\n\nSummary: 3 prompts, ↑30 ↓60 total\n\n"
    );
    let mut failed = result("a", "c", "");
    failed.error = Some("no".to_string());
    let text = plain(&format_comparison("M", "p", &[result("b", "c", "x"), failed]));
    assert_eq!(
        text,
        "═══ M → p — parameter comparison ═══\n\n  ─ a ─\n    ⚠ Error: no\n\n  ─ b ─\n    7ms · ↑10 ↓20\n    │ x\n\n"
    );
}

#[test]
fn texts_are_sorted_and_named_once() {
    let list = |words: &[&str]| -> Vec<String> { words.iter().map(|w| w.to_string()).collect() };
    assert!(comes_before("a", "b"));
    assert!(comes_before("a", "ab"));
    assert!(!comes_before("a", "a"));
    assert!(comes_before("z", "ä"));
    assert_eq!(sort(list(&["c", "a", "b", "a"])), list(&["a", "a", "b", "c"]));
    assert_eq!(names_in_order(&list(&["c", "a", "c"])), list(&["a", "c"]));
}

#[test]
fn a_sweep_runs_on_what_was_loaded_or_named() {
    let model = |id: &str| build_model(id, "openai", None, None, None, "custom", 1, 2);
    let ids = |r: Result<Vec<Model>, String>| -> Result<Vec<String>, String> {
        r.map(|models| models.into_iter().map(|m| m.id).collect())
    };
    let gone = || Err("gone".to_string());
    let a = Ok(vec!["a".to_string()]);
    let b = Ok(vec!["b".to_string()]);
    assert_eq!(ids(sweep_models(Ok(vec![model("a")]), false, Some(model("b")))), a);
    assert_eq!(ids(sweep_models(Ok(vec![model("a")]), true, None)), a);
    assert_eq!(ids(sweep_models(gone(), false, Some(model("b")))), b);
    assert_eq!(ids(sweep_models(Ok(vec![]), false, Some(model("b")))), b);
    assert_eq!(ids(sweep_models(gone(), true, Some(model("b")))), Err("gone".to_string()));
    assert_eq!(
        ids(sweep_models(gone(), false, None)),
        Err("no model specified. Provide a model ID or populate models.d/".to_string())
    );
}

#[test]
fn a_question_comes_from_the_line_or_the_input() {
    assert!(enters_repl(true, true, true));
    assert!(enters_repl(false, false, false));
    assert!(!enters_repl(false, false, true));
    assert!(!enters_repl(false, true, false));
    assert_eq!(question(Some("hi"), ""), Ok("hi".to_string()));
    assert_eq!(question(Some("hi"), " \n"), Ok("hi".to_string()));
    assert_eq!(
        question(Some("Review this code:"), "fn f() {}\n"),
        Ok("Review this code:\n\nfn f() {}\n".to_string())
    );
    assert!(reads_input(None, false));
    assert!(reads_input(Some(""), false));
    assert!(reads_input(Some("hi"), true));
    assert!(!reads_input(Some("hi"), false));
    assert_eq!(question(Some(""), "in\n"), Ok("in\n".to_string()));
    assert_eq!(question(None, " \n"), Err("No prompt provided.".to_string()));
}

#[test]
fn a_conversation_goes_line_by_line() {
    let models = models();
    let mut repl = Repl::start(&models, Some("gpt")).unwrap();
    assert_eq!(repl.current, 2);
    assert!(matches!(repl.on_line(&models, "  \n"), ReplAction::Skip));
    assert!(matches!(repl.on_line(&models, "hello \n"), ReplAction::Ask));
    repl.on_answer("hi there");
    assert_eq!(repl.history.len(), 2);
    assert_eq!(repl.history[0].as_text(), "hello");
    assert_eq!(repl.history[1].role, Role::Assistant);
    assert!(matches!(repl.on_line(&models, "/models"), ReplAction::ListModels));
    assert!(matches!(repl.on_line(&models, "/model"), ReplAction::ListModels));
    assert!(matches!(repl.on_line(&models, "/h"), ReplAction::Help));
    match repl.on_line(&models, "/modelx") {
        ReplAction::Unknown(line) => assert_eq!(line, "/modelx"),
        other => panic!("{other:?}"),
    }
    match repl.on_line(&models, "/model none") {
        ReplAction::NotFound(words) => assert_eq!(words, "none"),
        other => panic!("{other:?}"),
    }
    assert_eq!(repl.history.len(), 2);
    assert!(matches!(repl.on_line(&models, "/model  2"), ReplAction::Switched(1)));
    assert_eq!((repl.current, repl.history.len()), (1, 0));
    assert!(matches!(repl.on_line(&models, "again"), ReplAction::Ask));
    assert!(matches!(repl.on_line(&models, "/c"), ReplAction::Cleared));
    assert!(repl.history.is_empty());
    assert!(matches!(repl.on_line(&models, "/q"), ReplAction::Exit));
    assert_eq!(
        Repl::start(&models, Some("none")).unwrap_err(),
        "Model 'none' not found. Use /models to list."
    );
    assert_eq!(Repl::start(&[], None).unwrap_err(), "No models found in models.d/.");
}

#[test]
fn a_turn_shows_what_comes() {
    let mut turn = Turn::new();
    let delta = StreamEvent::Delta { content: vec![ContentPart::text("hel")], usage: None };
    assert!(matches!(turn.on_event(delta), Shown::Text(text) if text == "hel"));
    let usage = TokenUsage { input_tokens: 1, output_tokens: 2, thinking_tokens: 0 };
    let delta = StreamEvent::Delta { content: vec![ContentPart::text("lo")], usage: Some(usage) };
    turn.on_event(delta);
    assert_eq!(turn.text, "hello");
    assert_eq!(turn.usage, usage);
    let failed = turn.on_event(StreamEvent::Error("cut".to_string()));
    assert!(matches!(failed, Shown::Error(text) if text == "cut"));
    let end = StreamEvent::Done {
        content: vec![],
        tool_calls: vec![],
        usage: TokenUsage::default(),
        stop_reason: "stop".to_string(),
    };
    assert!(matches!(turn.on_event(end), Shown::Nothing));
    assert_eq!(turn.usage, TokenUsage::default());
}
