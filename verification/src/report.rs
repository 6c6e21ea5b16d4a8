//! Reports on what came of trying a model: texts in pieces, each with the style
//! in which it is to be shown.
use crate::models::TokenUsage;
use crate::order::{comes_before, lemma_before_before, lemma_one_is_before, text_before};
use crate::sweeper::SweepResult;
use crate::text::{concat, decimal, decimal_text, lines, lines_of, same, texts};
use vstd::prelude::*;
use vstd::utf8::{decode_utf8, encode_utf8, is_char_boundary};

verus! {

/// How a piece of text is shown.
#[derive(Clone, Copy, Debug, PartialEq, Eq, Structural)]
pub enum Style {
    Plain,
    Bold,
    BoldWhite,
    BoldCyan,
    BoldYellow,
    BoldRed,
    BoldGreen,
    BoldUnderline,
    BoldCyanUnderline,
    Cyan,
    Green,
    Red,
    Dimmed,
}

/// A piece of text with its style.
#[derive(Debug)]
pub struct Span {
    pub text: String,
    pub style: Style,
}

impl View for Span {
    type V = (Seq<char>, Style);

    open spec fn view(&self) -> (Seq<char>, Style) {
        (self.text@, self.style)
    }
}

/// Pieces as values.
pub open spec fn spans_of(spans: Seq<Span>) -> Seq<(Seq<char>, Style)> {
    spans.map_values(|s: Span| s@)
}

/// Puts a piece behind others.
pub fn put(out: &mut Vec<Span>, text: &str, style: Style)
    ensures
        spans_of(final(out)@) == spans_of(old(out)@).push((text@, style)),
{
    let ghost before = spans_of(out@);
    out.push(Span { text: text.to_owned(), style });
    assert(spans_of(out@) =~= before.push((text@, style)));
}

// ---------------------------------------------------------------------------
// Texts cut short

/// The first bytes of a text, as a text.
pub open spec fn first_bytes(s: Seq<char>, n: int) -> Seq<char> {
    decode_utf8(encode_utf8(s).subrange(0, n))
}

/// What stands behind the first bytes of a text, as a text.
pub open spec fn behind_bytes(s: Seq<char>, n: int) -> Seq<char> {
    decode_utf8(encode_utf8(s).subrange(n, encode_utf8(s).len() as int))
}

/// Whether a text can be cut in the middle: it is short enough, or each cut falls
/// between two characters.
pub open spec fn cuts_cleanly(text: Seq<char>, max: int) -> bool {
    let bytes = encode_utf8(text);
    bytes.len() <= max || (is_char_boundary(bytes, max / 2) && is_char_boundary(
        bytes,
        bytes.len() - max / 2,
    ))
}

/// A text that has at most so many bytes, and else its first and its last part,
/// with the number of bytes that are left out.
pub open spec fn cut_in_the_middle(text: Seq<char>, max: int) -> Seq<char> {
    let n = encode_utf8(text).len();
    if n <= max {
        text
    } else {
        first_bytes(text, max / 2) + "…["@ + decimal_text((n - max) as nat) + " chars]…"@
            + behind_bytes(text, n - max / 2)
    }
}

/// Whether a text can be cut in the middle.
pub fn can_cut(text: &str, max: usize) -> (b: bool)
    ensures
        b == cuts_cleanly(text@, max as int),
{
    let n: usize = text.as_bytes().len();
    n <= max || (text.is_char_boundary(max / 2) && text.is_char_boundary(n - max / 2))
}

/// A text that is cut in the middle where it is too long.
pub fn truncate_mid(text: &str, max: usize) -> (out: String)
    requires
        cuts_cleanly(text@, max as int),
    ensures
        out@ == cut_in_the_middle(text@, max as int),
{
    let n: usize = text.as_bytes().len();
    if n <= max {
        return text.to_owned();
    }
    let half: usize = max / 2;
    let (first, _) = text.split_at(half);
    let (_, last) = text.split_at(n - half);
    proof {
        vstd::utf8::encode_utf8_decode_utf8(first@);
        vstd::utf8::encode_utf8_decode_utf8(last@);
    }
    let mut out = concat(first, "…[");
    out.append(decimal((n - max) as u64).as_str());
    out.append(" chars]…");
    out.append(last);
    out
}

/// Whether a title can be cut: it is short enough, or the cut falls between two
/// characters.
pub open spec fn title_cuts_cleanly(title: Seq<char>, max: int) -> bool {
    title.len() <= max || is_char_boundary(
        encode_utf8(title),
        if max > 0 {
            max - 1
        } else {
            0
        },
    )
}

/// A title that has at most so many characters, and else its first bytes.
pub open spec fn cut_title(title: Seq<char>, max: int) -> Seq<char> {
    if title.len() <= max {
        title
    } else {
        first_bytes(
            title,
            if max > 0 {
                max - 1
            } else {
                0
            },
        ) + "…"@
    }
}

/// Whether a title can be cut.
pub fn can_cut_title(s: &str, max: usize) -> (b: bool)
    ensures
        b == title_cuts_cleanly(s@, max as int),
{
    s.unicode_len() <= max || s.is_char_boundary(
        if max > 0 {
            max - 1
        } else {
            0
        },
    )
}

/// A title that is cut where it is too long.
pub fn truncate(s: &str, max: usize) -> (out: String)
    requires
        title_cuts_cleanly(s@, max as int),
    ensures
        out@ == cut_title(s@, max as int),
{
    if s.unicode_len() <= max {
        return s.to_owned();
    }
    let (first, _) = s.split_at(
        if max > 0 {
            max - 1
        } else {
            0
        },
    );
    proof {
        vstd::utf8::encode_utf8_decode_utf8(first@);
    }
    concat(first, "…")
}

// ---------------------------------------------------------------------------
// Usage

/// The tokens of a result in words.
pub open spec fn result_usage_text(result: SweepResult) -> Seq<char> {
    "↑"@ + decimal_text(result.input_tokens as nat) + " ↓"@ + decimal_text(
        result.output_tokens as nat,
    )
}

/// Tokens in words, with those for thinking where there are some.
pub open spec fn tokens_text(usage: TokenUsage) -> Seq<char> {
    let counts = "↑"@ + decimal_text(usage.input_tokens as nat) + " ↓"@ + decimal_text(
        usage.output_tokens as nat,
    );
    if usage.thinking_tokens > 0 {
        counts + " t:"@ + decimal_text(usage.thinking_tokens as nat)
    } else {
        counts
    }
}

/// What can tell of tokens in words.
pub trait UsageDisplay {
    spec fn usage_words(&self) -> Seq<char>;

    fn usage_string(&self) -> (text: String)
        ensures
            text@ == self.usage_words(),
    ;
}

impl UsageDisplay for SweepResult {
    open spec fn usage_words(&self) -> Seq<char> {
        result_usage_text(*self)
    }

    fn usage_string(&self) -> (text: String) {
        let mut text = concat("↑", decimal(self.input_tokens as u64).as_str());
        text.append(" ↓");
        text.append(decimal(self.output_tokens as u64).as_str());
        text
    }
}

impl UsageDisplay for TokenUsage {
    open spec fn usage_words(&self) -> Seq<char> {
        tokens_text(*self)
    }

    fn usage_string(&self) -> (text: String) {
        let mut text = concat("↑", decimal(self.input_tokens as u64).as_str());
        text.append(" ↓");
        text.append(decimal(self.output_tokens as u64).as_str());
        if self.thinking_tokens > 0 {
            text.append(" t:");
            text.append(decimal(self.thinking_tokens as u64).as_str());
        }
        text
    }
}

// ---------------------------------------------------------------------------
// Reports

/// The first lines of a text, each behind a bar.
pub open spec fn preview_spans(lines: Seq<Seq<char>>, style: Style) -> Seq<(Seq<char>, Style)>
    decreases lines.len(),
{
    if lines.len() == 0 {
        Seq::empty()
    } else {
        preview_spans(lines.drop_last(), style) + seq![
            ("    │ "@, Style::Plain),
            (lines.last(), style),
            ("\n"@, Style::Plain),
        ]
    }
}

/// The first lines of a text.
pub open spec fn first_lines(text: Seq<char>, most: int) -> Seq<Seq<char>> {
    let all = lines_of(text);
    if all.len() <= most {
        all
    } else {
        all.take(most)
    }
}

fn put_preview(out: &mut Vec<Span>, text: &str, most: usize, style: Style)
    ensures
        spans_of(final(out)@) == spans_of(old(out)@) + preview_spans(
            first_lines(text@, most as int),
            style,
        ),
{
    let ghost start = spans_of(out@);
    let list = lines(text);
    let ghost all = lines_of(text@);
    let n: usize = if list.len() <= most {
        list.len()
    } else {
        most
    };
    assert(all.len() == list@.len());
    let ghost shown = all.take(n as int);
    assert(shown =~= first_lines(text@, most as int));
    let mut i: usize = 0;
    assert(shown.take(0) =~= Seq::empty());
    assert(start + preview_spans(shown.take(0), style) =~= start);
    while i < n
        invariant
            i <= n <= list@.len(),
            texts(list@) == all,
            shown == all.take(n as int),
            start == spans_of(old(out)@),
            spans_of(out@) == start + preview_spans(shown.take(i as int), style),
        decreases n - i,
    {
        let ghost before = spans_of(out@);
        assert(shown.take(i + 1).drop_last() =~= shown.take(i as int));
        assert(shown.take(i + 1).last() == list@[i as int]@);
        put(out, "    │ ", Style::Plain);
        put(out, list[i].as_str(), style);
        put(out, "\n", Style::Plain);
        assert(spans_of(out@) =~= start + preview_spans(shown.take(i + 1), style));
        i = i + 1;
    }
    assert(shown.take(n as int) =~= shown);
}

/// A number of milliseconds in words.
pub open spec fn ms_text(ms: u64) -> Seq<char> {
    decimal_text(ms as nat) + "ms"@
}

fn ms(n: u64) -> (text: String)
    ensures
        text@ == ms_text(n),
{
    concat(decimal(n).as_str(), "ms")
}

/// A result.
pub open spec fn result_spans(result: SweepResult, max_width: int) -> Seq<(Seq<char>, Style)> {
    seq![
        ("  ["@, Style::Plain),
        (result.category@, Style::BoldCyan),
        ("] "@, Style::Plain),
        (result.prompt_name@, Style::Bold),
        (" — "@, Style::Plain),
        status_span(result),
        (" — "@, Style::Plain),
        (result_usage_text(result), Style::Plain),
        (" — "@, Style::Plain),
        (ms_text(result.duration_ms), Style::Plain),
        ("\n"@, Style::Plain),
    ] + (match result.error {
        Some(error) => seq![
            ("    Error: "@, Style::Plain),
            (error@, Style::Red),
            ("\n"@, Style::Plain),
        ],
        None => preview_spans(
            first_lines(cut_in_the_middle(result.output@, max_width), 10),
            Style::Dimmed,
        ),
    })
}

/// How a try went, in a word.
pub open spec fn status_span(result: SweepResult) -> (Seq<char>, Style) {
    if result.error is Some {
        ("ERROR"@, Style::BoldRed)
    } else {
        ("OK"@, Style::BoldGreen)
    }
}

/// Whether the output of a result can be shown: it failed, or can be cut.
pub open spec fn showable(result: SweepResult, max_width: int) -> bool {
    result.error is Some || cuts_cleanly(result.output@, max_width)
}

/// Whether the output of a result can be shown.
pub fn can_show(result: &SweepResult, max_width: usize) -> (b: bool)
    ensures
        b == showable(*result, max_width as int),
{
    result.error.is_some() || can_cut(result.output.as_str(), max_width)
}

/// Puts a result behind other pieces.
pub fn put_result(out: &mut Vec<Span>, result: &SweepResult, max_width: usize)
    requires
        showable(*result, max_width as int),
    ensures
        spans_of(final(out)@) == spans_of(old(out)@) + result_spans(*result, max_width as int),
{
    let ghost start = spans_of(out@);
    put(out, "  [", Style::Plain);
    put(out, result.category.as_str(), Style::BoldCyan);
    put(out, "] ", Style::Plain);
    put(out, result.prompt_name.as_str(), Style::Bold);
    put(out, " — ", Style::Plain);
    if result.error.is_some() {
        put(out, "ERROR", Style::BoldRed);
    } else {
        put(out, "OK", Style::BoldGreen);
    }
    put(out, " — ", Style::Plain);
    put(out, result.usage_string().as_str(), Style::Plain);
    put(out, " — ", Style::Plain);
    put(out, ms(result.duration_ms).as_str(), Style::Plain);
    put(out, "\n", Style::Plain);
    match &result.error {
        Some(error) => {
            put(out, "    Error: ", Style::Plain);
            put(out, error.as_str(), Style::Red);
            put(out, "\n", Style::Plain);
        },
        None => {
            let preview = truncate_mid(result.output.as_str(), max_width);
            put_preview(out, preview.as_str(), 10, Style::Dimmed);
        },
    }
    assert(spans_of(out@) =~= start + result_spans(*result, max_width as int));
}

/// A result.
pub fn format_result(result: &SweepResult, max_width: usize) -> (out: Vec<Span>)
    requires
        showable(*result, max_width as int),
    ensures
        spans_of(out@) == result_spans(*result, max_width as int),
{
    let mut out: Vec<Span> = Vec::new();
    put_result(&mut out, result, max_width);
    assert(spans_of(out@) =~= result_spans(*result, max_width as int));
    out
}

/// A sorted list of names with one more, unless it is there.
pub open spec fn with_name(names: Seq<Seq<char>>, name: Seq<char>) -> Seq<Seq<char>> {
    let at = names_before(names, name) as int;
    if at < names.len() && names[at] == name {
        names
    } else {
        names.insert(at, name)
    }
}

/// How many names of a list come before this one.
pub open spec fn names_before(names: Seq<Seq<char>>, name: Seq<char>) -> nat
    decreases names.len(),
{
    if names.len() == 0 {
        0
    } else {
        names_before(names.drop_last(), name) + (if text_before(names.last(), name) {
            1nat
        } else {
            0
        })
    }
}

/// The names of a list in their order, each once.
pub open spec fn in_order_once(names: Seq<Seq<char>>) -> Seq<Seq<char>>
    decreases names.len(),
{
    if names.len() == 0 {
        Seq::empty()
    } else {
        with_name(in_order_once(names.drop_last()), names.last())
    }
}

/// Whether each name comes before the next.
pub open spec fn increasing(names: Seq<Seq<char>>) -> bool {
    forall|i: int, j: int|
        0 <= i < j < names.len() ==> text_before(#[trigger] names[i], #[trigger] names[j])
}

proof fn lemma_names_before(names: Seq<Seq<char>>, name: Seq<char>)
    requires
        increasing(names),
    ensures
        names_before(names, name) <= names.len(),
        forall|i: int|
            0 <= i < names.len() ==> (text_before(#[trigger] names[i], name) <==> i < names_before(
                names,
                name,
            )),
    decreases names.len(),
{
    if names.len() > 0 {
        let front = names.drop_last();
        let n = names.len() - 1;
        assert(increasing(front)) by {
            assert forall|i: int, j: int| 0 <= i < j < front.len() implies text_before(
                #[trigger] front[i],
                #[trigger] front[j],
            ) by {
                assert(text_before(names[i], names[j]));
            }
        }
        lemma_names_before(front, name);
        assert forall|i: int| 0 <= i < names.len() implies (text_before(#[trigger] names[i], name)
            <==> i < names_before(names, name)) by {
            if text_before(names[n], name) {
                if i < n {
                    assert(text_before(names[i], names[n]));
                    lemma_before_before(names[i], names[n], name);
                }
                if n > 0 {
                    assert(text_before(names[n - 1], names[n]));
                    lemma_before_before(names[n - 1], names[n], name);
                    assert(front[n - 1] == names[n - 1]);
                }
            }
            if i < n {
                assert(front[i] == names[i]);
            }
        }
    }
}

proof fn lemma_with_name(names: Seq<Seq<char>>, name: Seq<char>)
    requires
        increasing(names),
    ensures
        increasing(with_name(names, name)),
        forall|k: Seq<char>| #[trigger]
            with_name(names, name).contains(k) <==> names.contains(k) || k == name,
{
    lemma_names_before(names, name);
    let at = names_before(names, name) as int;
    let after = with_name(names, name);
    if at < names.len() && names[at] == name {
    } else {
        assert forall|i: int, j: int| 0 <= i < j < after.len() implies text_before(
            #[trigger] after[i],
            #[trigger] after[j],
        ) by {
            let old_i = if i < at {
                i
            } else {
                i - 1
            };
            let old_j = if j < at {
                j
            } else {
                j - 1
            };
            if i != at {
                assert(after[i] == names[old_i]);
            }
            if j != at {
                assert(after[j] == names[old_j]);
            }
            if i == at {
                lemma_one_is_before(name, names[at]);
                assert(!text_before(names[at], name));
                if old_j > at {
                    assert(text_before(names[at], names[old_j]));
                    lemma_before_before(name, names[at], names[old_j]);
                }
            }
        }
        assert forall|k: Seq<char>| #[trigger] after.contains(k) <==> names.contains(k) || k
            == name by {
            if names.contains(k) {
                let i = names.index_of(k);
                if i < at {
                    assert(after[i] == k);
                } else {
                    assert(after[i + 1] == k);
                }
            }
            assert(after[at] == name);
            if after.contains(k) && k != name {
                let i = after.index_of(k);
                if i < at {
                    assert(names[i] == k);
                } else {
                    assert(names[i - 1] == k);
                }
            }
        }
    }
}

/// The groups of a report come in the order of their names, each once, and each
/// name has its group.
pub proof fn groups_are_in_order(names: Seq<Seq<char>>)
    ensures
        increasing(in_order_once(names)),
        forall|k: Seq<char>| #[trigger] in_order_once(names).contains(k) <==> names.contains(k),
    decreases names.len(),
{
    if names.len() > 0 {
        let front = names.drop_last();
        groups_are_in_order(front);
        lemma_with_name(in_order_once(front), names.last());
        assert forall|k: Seq<char>| #[trigger] in_order_once(names).contains(k)
            <==> names.contains(k) by {
            if front.contains(k) {
                assert(names[front.index_of(k)] == k);
            }
            assert(names[names.len() - 1] == names.last());
            if names.contains(k) && k != names.last() {
                assert(front[names.index_of(k)] == k);
            }
        }
    }
}

fn add_name(names: &mut Vec<String>, name: &str)
    requires
        increasing(texts(old(names)@)),
    ensures
        texts(final(names)@) == with_name(texts(old(names)@), name@),
        increasing(texts(final(names)@)),
{
    let ghost before = texts(names@);
    proof {
        lemma_names_before(before, name@);
        lemma_with_name(before, name@);
    }
    let mut at: usize = 0;
    while at < names.len() && comes_before(names[at].as_str(), name)
        invariant
            before == texts(names@),
            at <= names@.len(),
            at <= names_before(before, name@) <= before.len(),
            forall|i: int|
                0 <= i < before.len() ==> (text_before(#[trigger] before[i], name@) <==> i
                    < names_before(before, name@)),
        decreases names@.len() - at,
    {
        assert(text_before(before[at as int], name@));
        at = at + 1;
    }
    if at < names.len() {
        assert(before[at as int] == names@[at as int]@);
    }
    assert(at == names_before(before, name@));
    if at < names.len() && same(names[at].as_str(), name) {
        return ;
    }
    names.insert(at, name.to_owned());
    assert(texts(names@) =~= before.insert(at as int, name@));
}

/// What a report is grouped by.
pub enum Grouping {
    Category,
    Sweep,
}

/// The name of the group of a result.
pub open spec fn group_of(grouping: Grouping, result: SweepResult) -> Seq<char> {
    match grouping {
        Grouping::Category => result.category@,
        Grouping::Sweep => result.sweep_label@,
    }
}

/// The names of the groups of results, one for each.
pub open spec fn groups_of(grouping: Grouping, results: Seq<SweepResult>) -> Seq<Seq<char>> {
    results.map_values(|r: SweepResult| group_of(grouping, r))
}

fn group<'a>(grouping: &Grouping, result: &'a SweepResult) -> (name: &'a str)
    ensures
        name@ == group_of(*grouping, *result),
{
    match grouping {
        Grouping::Category => result.category.as_str(),
        Grouping::Sweep => result.sweep_label.as_str(),
    }
}

/// The names of a list in their order, each once.
pub fn names_in_order(list: &Vec<String>) -> (names: Vec<String>)
    ensures
        texts(names@) == in_order_once(texts(list@)),
{
    let ghost all = texts(list@);
    let mut names: Vec<String> = Vec::new();
    let mut i: usize = 0;
    assert(all.take(0) =~= Seq::empty());
    assert(texts(names@) =~= Seq::empty());
    while i < list.len()
        invariant
            i <= list@.len(),
            all == texts(list@),
            texts(names@) == in_order_once(all.take(i as int)),
            increasing(texts(names@)),
        decreases list@.len() - i,
    {
        assert(all.take(i + 1).drop_last() =~= all.take(i as int));
        assert(all.take(i + 1).last() == list@[i as int]@);
        add_name(&mut names, list[i].as_str());
        i = i + 1;
    }
    assert(all.take(all.len() as int) =~= all);
    names
}

fn group_names(grouping: &Grouping, results: &[SweepResult]) -> (names: Vec<String>)
    ensures
        texts(names@) == in_order_once(groups_of(*grouping, results@)),
{
    let mut list: Vec<String> = Vec::new();
    let mut i: usize = 0;
    while i < results.len()
        invariant
            i <= results@.len(),
            list@.len() == i,
            forall|j: int|
                0 <= j < i ==> (#[trigger] list@[j])@ == group_of(*grouping, results@[j]),
        decreases results@.len() - i,
    {
        list.push(group(grouping, &results[i]).to_owned());
        i = i + 1;
    }
    assert(texts(list@) =~= groups_of(*grouping, results@));
    names_in_order(&list)
}

/// The results of a category.
pub open spec fn category_spans(results: Seq<SweepResult>, name: Seq<char>) -> Seq<
    (Seq<char>, Style),
>
    decreases results.len(),
{
    if results.len() == 0 {
        Seq::empty()
    } else if results.last().category@ == name {
        category_spans(results.drop_last(), name) + result_spans(results.last(), REPORT_WIDTH as int).push(
            ("\n"@, Style::Plain),
        )
    } else {
        category_spans(results.drop_last(), name)
    }
}

/// Bytes of an output that a report shows.
pub const REPORT_WIDTH: usize = 600;

/// Bytes of an output that a comparison shows.
pub const COMPARISON_WIDTH: usize = 300;

/// The categories of a report.
pub open spec fn categories_spans(results: Seq<SweepResult>, names: Seq<Seq<char>>) -> Seq<
    (Seq<char>, Style),
>
    decreases names.len(),
{
    if names.len() == 0 {
        Seq::empty()
    } else {
        categories_spans(results, names.drop_last()) + (seq![
            ("  "@, Style::Plain),
            (names.last(), Style::BoldCyanUnderline),
            (":\n"@, Style::Plain),
        ] + category_spans(results, names.last()))
    }
}

/// The report on a combination.
pub open spec fn report_spans(
    model_name: Seq<char>,
    param_label: Seq<char>,
    results: Seq<SweepResult>,
    usage: TokenUsage,
) -> Seq<(Seq<char>, Style)> {
    seq![
        ("\n═══ "@, Style::Plain),
        (model_name, Style::BoldWhite),
        (" ─ "@, Style::Plain),
        (param_label, Style::BoldYellow),
        (" ═══\n\n"@, Style::Plain),
    ] + categories_spans(results, in_order_once(groups_of(Grouping::Category, results))) + seq![
        ("Summary"@, Style::Bold),
        (": "@, Style::Plain),
        (decimal_text(results.len()), Style::Plain),
        (" prompts, "@, Style::Plain),
        (tokens_text(usage), Style::Plain),
        (" total\n\n"@, Style::Plain),
    ]
}

/// Whether all results can be shown.
pub open spec fn all_showable(results: Seq<SweepResult>, max_width: int) -> bool {
    forall|i: int| 0 <= i < results.len() ==> showable(#[trigger] results[i], max_width)
}

fn put_category(out: &mut Vec<Span>, results: &[SweepResult], name: &str)
    requires
        all_showable(results@, REPORT_WIDTH as int),
    ensures
        spans_of(final(out)@) == spans_of(old(out)@) + category_spans(results@, name@),
{
    let ghost start = spans_of(out@);
    let mut i: usize = 0;
    assert(results@.take(0) =~= Seq::empty());
    assert(start + category_spans(results@.take(0), name@) =~= start);
    while i < results.len()
        invariant
            i <= results@.len(),
            all_showable(results@, REPORT_WIDTH as int),
            start == spans_of(old(out)@),
            spans_of(out@) == start + category_spans(results@.take(i as int), name@),
        decreases results@.len() - i,
    {
        let ghost before = spans_of(out@);
        assert(results@.take(i + 1).drop_last() =~= results@.take(i as int));
        assert(results@.take(i + 1).last() == results@[i as int]);
        if same(results[i].category.as_str(), name) {
            put_result(out, &results[i], REPORT_WIDTH);
            put(out, "\n", Style::Plain);
            assert(spans_of(out@) =~= start + category_spans(results@.take(i + 1), name@));
        }
        i = i + 1;
    }
    assert(results@.take(results@.len() as int) =~= results@);
}

/// The report on a combination.
pub fn format_report(
    model_name: &str,
    param_label: &str,
    results: &[SweepResult],
    token_usage: &TokenUsage,
) -> (out: Vec<Span>)
    requires
        all_showable(results@, REPORT_WIDTH as int),
    ensures
        spans_of(out@) == report_spans(model_name@, param_label@, results@, *token_usage),
{
    let mut out: Vec<Span> = Vec::new();
    put(&mut out, "\n═══ ", Style::Plain);
    put(&mut out, model_name, Style::BoldWhite);
    put(&mut out, " ─ ", Style::Plain);
    put(&mut out, param_label, Style::BoldYellow);
    put(&mut out, " ═══\n\n", Style::Plain);
    let ghost head = spans_of(out@);
    let names = group_names(&Grouping::Category, results);
    let ghost all = texts(names@);
    let mut i: usize = 0;
    assert(all.take(0) =~= Seq::empty());
    assert(head + categories_spans(results@, all.take(0)) =~= head);
    while i < names.len()
        invariant
            i <= names@.len(),
            all == texts(names@),
            all_showable(results@, REPORT_WIDTH as int),
            spans_of(out@) == head + categories_spans(results@, all.take(i as int)),
        decreases names@.len() - i,
    {
        let ghost before = spans_of(out@);
        assert(all.take(i + 1).drop_last() =~= all.take(i as int));
        assert(all.take(i + 1).last() == names@[i as int]@);
        put(&mut out, "  ", Style::Plain);
        put(&mut out, names[i].as_str(), Style::BoldCyanUnderline);
        put(&mut out, ":\n", Style::Plain);
        put_category(&mut out, results, names[i].as_str());
        assert(spans_of(out@) =~= head + categories_spans(results@, all.take(i + 1)));
        i = i + 1;
    }
    assert(all.take(all.len() as int) =~= all);
    put(&mut out, "Summary", Style::Bold);
    put(&mut out, ": ", Style::Plain);
    put(&mut out, decimal(results.len() as u64).as_str(), Style::Plain);
    put(&mut out, " prompts, ", Style::Plain);
    put(&mut out, token_usage.usage_string().as_str(), Style::Plain);
    put(&mut out, " total\n\n", Style::Plain);
    assert(spans_of(out@) =~= report_spans(model_name@, param_label@, results@, *token_usage));
    out
}

/// A result in a comparison.
pub open spec fn compared_spans(result: SweepResult) -> Seq<(Seq<char>, Style)> {
    (match result.error {
        Some(error) => seq![
            ("    ⚠ Error: "@, Style::Plain),
            (error@, Style::Red),
            ("\n"@, Style::Plain),
        ],
        None => seq![
            ("    "@, Style::Plain),
            (ms_text(result.duration_ms), Style::Plain),
            (" · "@, Style::Plain),
            (result_usage_text(result), Style::Plain),
            ("\n"@, Style::Plain),
        ] + preview_spans(
            first_lines(cut_in_the_middle(result.output@, COMPARISON_WIDTH as int), 8),
            Style::Plain,
        ),
    }).push(("\n"@, Style::Plain))
}

/// The results of a combination in a comparison.
pub open spec fn sweep_spans(results: Seq<SweepResult>, label: Seq<char>) -> Seq<
    (Seq<char>, Style),
>
    decreases results.len(),
{
    if results.len() == 0 {
        Seq::empty()
    } else if results.last().sweep_label@ == label {
        sweep_spans(results.drop_last(), label) + compared_spans(results.last())
    } else {
        sweep_spans(results.drop_last(), label)
    }
}

/// The combinations of a comparison.
pub open spec fn labels_spans(results: Seq<SweepResult>, labels: Seq<Seq<char>>) -> Seq<
    (Seq<char>, Style),
>
    decreases labels.len(),
{
    if labels.len() == 0 {
        Seq::empty()
    } else {
        labels_spans(results, labels.drop_last()) + (seq![
            ("  ─ "@, Style::Plain),
            (labels.last(), Style::BoldYellow),
            (" ─\n"@, Style::Plain),
        ] + sweep_spans(results, labels.last()))
    }
}

/// The comparison of combinations on a prompt.
pub open spec fn comparison_spans(
    model_name: Seq<char>,
    prompt_name: Seq<char>,
    results: Seq<SweepResult>,
) -> Seq<(Seq<char>, Style)> {
    seq![
        ("═══ "@, Style::Plain),
        (model_name, Style::BoldWhite),
        (" → "@, Style::Plain),
        (prompt_name, Style::BoldCyan),
        (" — parameter comparison ═══\n\n"@, Style::Plain),
    ] + labels_spans(results, in_order_once(groups_of(Grouping::Sweep, results)))
}

fn put_compared(out: &mut Vec<Span>, result: &SweepResult)
    requires
        showable(*result, COMPARISON_WIDTH as int),
    ensures
        spans_of(final(out)@) == spans_of(old(out)@) + compared_spans(*result),
{
    let ghost start = spans_of(out@);
    match &result.error {
        Some(error) => {
            put(out, "    ⚠ Error: ", Style::Plain);
            put(out, error.as_str(), Style::Red);
            put(out, "\n", Style::Plain);
        },
        None => {
            let preview = truncate_mid(result.output.as_str(), COMPARISON_WIDTH);
            put(out, "    ", Style::Plain);
            put(out, ms(result.duration_ms).as_str(), Style::Plain);
            put(out, " · ", Style::Plain);
            put(out, result.usage_string().as_str(), Style::Plain);
            put(out, "\n", Style::Plain);
            put_preview(out, preview.as_str(), 8, Style::Plain);
        },
    }
    put(out, "\n", Style::Plain);
    assert(spans_of(out@) =~= start + compared_spans(*result));
}

fn put_sweep(out: &mut Vec<Span>, results: &[SweepResult], label: &str)
    requires
        all_showable(results@, COMPARISON_WIDTH as int),
    ensures
        spans_of(final(out)@) == spans_of(old(out)@) + sweep_spans(results@, label@),
{
    let ghost start = spans_of(out@);
    let mut i: usize = 0;
    assert(results@.take(0) =~= Seq::empty());
    assert(start + sweep_spans(results@.take(0), label@) =~= start);
    while i < results.len()
        invariant
            i <= results@.len(),
            all_showable(results@, COMPARISON_WIDTH as int),
            start == spans_of(old(out)@),
            spans_of(out@) == start + sweep_spans(results@.take(i as int), label@),
        decreases results@.len() - i,
    {
        assert(results@.take(i + 1).drop_last() =~= results@.take(i as int));
        assert(results@.take(i + 1).last() == results@[i as int]);
        if same(results[i].sweep_label.as_str(), label) {
            put_compared(out, &results[i]);
            assert(spans_of(out@) =~= start + sweep_spans(results@.take(i + 1), label@));
        }
        i = i + 1;
    }
    assert(results@.take(results@.len() as int) =~= results@);
}

/// The comparison of combinations on a prompt.
pub fn format_comparison(
    model_name: &str,
    prompt_name: &str,
    all_results: &[SweepResult],
) -> (out: Vec<Span>)
    requires
        all_showable(all_results@, COMPARISON_WIDTH as int),
    ensures
        spans_of(out@) == comparison_spans(model_name@, prompt_name@, all_results@),
{
    let mut out: Vec<Span> = Vec::new();
    put(&mut out, "═══ ", Style::Plain);
    put(&mut out, model_name, Style::BoldWhite);
    put(&mut out, " → ", Style::Plain);
    put(&mut out, prompt_name, Style::BoldCyan);
    put(&mut out, " — parameter comparison ═══\n\n", Style::Plain);
    let ghost head = spans_of(out@);
    let names = group_names(&Grouping::Sweep, all_results);
    let ghost all = texts(names@);
    let mut i: usize = 0;
    assert(all.take(0) =~= Seq::empty());
    assert(head + labels_spans(all_results@, all.take(0)) =~= head);
    while i < names.len()
        invariant
            i <= names@.len(),
            all == texts(names@),
            all_showable(all_results@, COMPARISON_WIDTH as int),
            spans_of(out@) == head + labels_spans(all_results@, all.take(i as int)),
        decreases names@.len() - i,
    {
        assert(all.take(i + 1).drop_last() =~= all.take(i as int));
        assert(all.take(i + 1).last() == names@[i as int]@);
        put(&mut out, "  ─ ", Style::Plain);
        put(&mut out, names[i].as_str(), Style::BoldYellow);
        put(&mut out, " ─\n", Style::Plain);
        put_sweep(&mut out, all_results, names[i].as_str());
        assert(spans_of(out@) =~= head + labels_spans(all_results@, all.take(i + 1)));
        i = i + 1;
    }
    assert(all.take(all.len() as int) =~= all);
    assert(spans_of(out@) =~= comparison_spans(model_name@, prompt_name@, all_results@));
    out
}

} // verus!
