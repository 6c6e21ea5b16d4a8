//! What the handling of texts and numbers comes to.
use crate::clock::{later_of, secs_until, span_secs, Timestamp};
use crate::decimal::{
    decimal_of, fraction_text, high_part, low_digits, magnitude, number_text, point_in, reduced,
    unsigned_of, Decimal,
};
use crate::error::{ai_error_text, send_error, stream_failure_text, AiErrorView, SendFailure};
use crate::order::{key_before, text_before};
use crate::sse::{gap, payloads_among, payloads_in, payloads_of, rest_of};
use crate::text::{
    all_digits, decimal_text, digit, digits_value, find_from, find_in, is_digit, is_white, lines_of,
    number_of, trimmed, trimmed_end, trimmed_start, white, without_case,
};
use vstd::arithmetic::power::pow;
use vstd::prelude::*;

verus! {

// ---------------------------------------------------------------------------
// White space

/// Whether a text is another one from `a` to `b`, with all white space at both of
/// its ends taken away and nothing else.
pub open spec fn is_trim_of(text: Seq<char>, whole: Seq<char>, a: int, b: int) -> bool {
    &&& 0 <= a <= b <= whole.len()
    &&& text == whole.subrange(a, b)
    &&& forall|i: int| 0 <= i < a ==> is_white(#[trigger] whole[i])
    &&& forall|i: int| b <= i < whole.len() ==> is_white(#[trigger] whole[i])
    &&& a < b ==> !is_white(whole[a]) && !is_white(whole[b - 1])
}

proof fn trimmed_start_at(s: Seq<char>) -> (a: int)
    ensures
        0 <= a <= s.len(),
        trimmed_start(s, white()) == s.skip(a),
        forall|i: int| 0 <= i < a ==> is_white(#[trigger] s[i]),
        a < s.len() ==> !is_white(s[a]),
    decreases s.len(),
{
    if s.len() > 0 && is_white(s.first()) {
        let tail = s.drop_first();
        let a = trimmed_start_at(tail);
        assert(tail.skip(a) =~= s.skip(a + 1));
        assert forall|i: int| 0 <= i < a + 1 implies is_white(#[trigger] s[i]) by {
            if i > 0 {
                assert(s[i] == tail[i - 1]);
            }
        }
        a + 1
    } else {
        assert(s.skip(0) =~= s);
        0
    }
}

proof fn trimmed_end_at(s: Seq<char>) -> (b: int)
    ensures
        0 <= b <= s.len(),
        trimmed_end(s, white()) == s.take(b),
        forall|i: int| b <= i < s.len() ==> is_white(#[trigger] s[i]),
        b > 0 ==> !is_white(s[b - 1]),
    decreases s.len(),
{
    if s.len() > 0 && is_white(s.last()) {
        let front = s.drop_last();
        let b = trimmed_end_at(front);
        assert(front.take(b) =~= s.take(b));
        assert forall|i: int| b <= i < s.len() implies is_white(#[trigger] s[i]) by {
            if i < front.len() {
                assert(s[i] == front[i]);
            }
        }
        b
    } else {
        assert(s.take(s.len() as int) =~= s);
        s.len() as int
    }
}

/// A text is trimmed by taking away the white space at its ends, all of it and
/// nothing else.
pub proof fn trimming_takes_white_ends_alone(s: Seq<char>)
    ensures
        exists|a: int, b: int| #[trigger] is_trim_of(trimmed(s), s, a, b),
{
    let a = trimmed_start_at(s);
    let rest = s.skip(a);
    let n = trimmed_end_at(rest);
    let b = a + n;
    assert(rest.take(n) =~= s.subrange(a, b));
    assert forall|i: int| b <= i < s.len() implies is_white(#[trigger] s[i]) by {
        assert(s[i] == rest[i - a]);
    }
    if a < b {
        assert(rest[n - 1] == s[b - 1]);
    }
    assert(is_trim_of(trimmed(s), s, a, b));
}

/// Of the first characters, the blank and the five that move on are white space,
/// and no others.
pub proof fn blanks_and_moves_are_white(c: char)
    requires
        (c as u32) < 128,
    ensures
        is_white(c) <==> c == ' ' || c == '\t' || c == '\n' || c == '\r' || c as u32 == 11
            || c as u32 == 12,
{
}

// ---------------------------------------------------------------------------
// Patterns and lines

/// Whether a pattern stands in a text at this place, and at none before.
pub open spec fn stands_first_at(s: Seq<char>, pattern: Seq<char>, at: int) -> bool {
    &&& 0 <= at
    &&& at + pattern.len() <= s.len()
    &&& s.subrange(at, at + pattern.len()) == pattern
    &&& forall|j: int|
        0 <= j < at ==> #[trigger] s.subrange(j, j + pattern.len()) != pattern
}

proof fn lemma_find_first(s: Seq<char>, pattern: Seq<char>, i: int, at: int)
    requires
        0 <= i <= at,
        stands_first_at(s, pattern, at),
    ensures
        find_from(s, pattern, i) == Some(at),
    decreases at - i,
{
    if i < at {
        assert(s.subrange(i, i + pattern.len()) != pattern);
        lemma_find_first(s, pattern, i + 1, at);
    }
}

proof fn lemma_found_first(s: Seq<char>, pattern: Seq<char>, i: int)
    requires
        0 <= i,
    ensures
        match find_from(s, pattern, i) {
            Some(at) => {
                &&& i <= at
                &&& at + pattern.len() <= s.len()
                &&& s.subrange(at, at + pattern.len()) == pattern
                &&& forall|j: int|
                    i <= j < at ==> #[trigger] s.subrange(j, j + pattern.len()) != pattern
            },
            None => forall|j: int|
                i <= j && j + pattern.len() <= s.len() ==> #[trigger] s.subrange(
                    j,
                    j + pattern.len(),
                ) != pattern,
        },
    decreases s.len() - i + 1,
{
    if i + pattern.len() <= s.len() && s.subrange(i, i + pattern.len()) != pattern {
        lemma_found_first(s, pattern, i + 1);
    }
}

/// A pattern is found where it first stands, and it is not found where it stands
/// nowhere.
pub proof fn patterns_are_found_where_they_first_stand(s: Seq<char>, pattern: Seq<char>, at: int)
    ensures
        stands_first_at(s, pattern, at) <==> find_in(s, pattern) == Some(at),
        find_in(s, pattern) is None <==> forall|j: int|
            0 <= j && j + pattern.len() <= s.len() ==> #[trigger] s.subrange(j, j + pattern.len())
                != pattern,
{
    lemma_found_first(s, pattern, 0);
    if stands_first_at(s, pattern, at) {
        lemma_find_first(s, pattern, 0, at);
    }
}

/// Whether a text is all on one line.
pub open spec fn is_one_line(s: Seq<char>) -> bool {
    forall|i: int| 0 <= i < s.len() ==> #[trigger] s[i] != '\n'
}

proof fn lemma_newline_at(line: Seq<char>, rest: Seq<char>)
    requires
        is_one_line(line),
    ensures
        find_in(line + seq!['\n'] + rest, seq!['\n']) == Some(line.len() as int),
{
    let s = line + seq!['\n'] + rest;
    let pattern = seq!['\n'];
    let at = line.len() as int;
    assert(s.subrange(at, at + 1) =~= pattern);
    assert forall|j: int| 0 <= j < at implies #[trigger] s.subrange(j, j + pattern.len())
        != pattern by {
        assert(s.subrange(j, j + 1)[0] == line[j]);
    }
    assert(stands_first_at(s, pattern, at));
    patterns_are_found_where_they_first_stand(s, pattern, at);
}

/// A text falls into lines at each newline. A return before it does not belong to
/// the line, and what is behind the last newline is a line if there is any of it.
pub proof fn lines_end_at_newlines(line: Seq<char>, rest: Seq<char>)
    requires
        is_one_line(line),
    ensures
        lines_of(line + seq!['\n'] + rest) == seq![
            if line.len() > 0 && line.last() == '\r' {
                line.drop_last()
            } else {
                line
            },
        ] + lines_of(rest),
        line.len() > 0 ==> lines_of(line) == seq![line],
        lines_of(Seq::empty()).len() == 0,
{
    let s = line + seq!['\n'] + rest;
    lemma_newline_at(line, rest);
    assert(s.take(line.len() as int) =~= line);
    assert(s.skip(line.len() as int + 1) =~= rest);
    if line.len() > 0 {
        patterns_are_found_where_they_first_stand(line, seq!['\n'], 0);
        assert forall|j: int| 0 <= j && j + 1 <= line.len() implies #[trigger] line.subrange(
            j,
            j + 1,
        ) != seq!['\n'] by {
            assert(line.subrange(j, j + 1)[0] == line[j]);
        }
        assert(find_in(line, seq!['\n']) is None) by {
            lemma_found_first(line, seq!['\n'], 0);
            if let Some(at) = find_in(line, seq!['\n']) {
                assert(line.subrange(at, at + 1)[0] == line[at]);
            }
        }
    }
}

// ---------------------------------------------------------------------------
// Server-sent events

/// A stream that sends these payloads, each in an event of its own.
pub open spec fn stream_of(payloads: Seq<Seq<char>>) -> Seq<char>
    decreases payloads.len(),
{
    if payloads.len() == 0 {
        Seq::empty()
    } else {
        "data: "@ + payloads.first() + seq!['\n', '\n'] + stream_of(payloads.drop_first())
    }
}

/// The payloads of a stream are those that it was made to send, all of them and
/// in order, and nothing is left over.
pub proof fn payloads_are_what_was_sent(payloads: Seq<Seq<char>>)
    requires
        forall|i: int| 0 <= i < payloads.len() ==> is_one_line(#[trigger] payloads[i]),
    ensures
        payloads_in(stream_of(payloads)) == payloads,
        rest_of(stream_of(payloads)).len() == 0,
    decreases payloads.len(),
{
    if payloads.len() == 0 {
        let none = Seq::<char>::empty();
        lemma_found_first(none, gap(), 0);
        assert(find_in(none, gap()) is None) by {
            if let Some(at) = find_in(none, gap()) {
                assert(at + 2 <= 0);
            }
        }
        assert(payloads_in(none) =~= payloads);
    } else {
        reveal_strlit("data: ");
        let tail = payloads.drop_first();
        assert forall|i: int| 0 <= i < tail.len() implies is_one_line(#[trigger] tail[i]) by {
            assert(tail[i] == payloads[i + 1]);
        }
        payloads_are_what_was_sent(tail);
        let data = payloads.first();
        assert(is_one_line(payloads[0]));
        let event = "data: "@ + data;
        let rest = stream_of(tail);
        let s = stream_of(payloads);
        let at = event.len() as int;
        assert(s =~= event + gap() + rest);
        assert(is_one_line(event)) by {
            assert forall|i: int| 0 <= i < event.len() implies #[trigger] event[i] != '\n' by {
                if i >= 6 {
                    assert(event[i] == data[i - 6]);
                } else {
                    assert(event[i] == "data: "@[i]);
                }
            }
        }
        assert(s.subrange(at, at + 2) =~= gap());
        assert forall|j: int| 0 <= j < at implies #[trigger] s.subrange(j, j + gap().len())
            != gap() by {
            assert(s.subrange(j, j + 2)[0] == event[j]);
        }
        assert(stands_first_at(s, gap(), at));
        patterns_are_found_where_they_first_stand(s, gap(), at);
        assert(s.take(at) =~= event);
        assert(s.skip(at + 2) =~= rest);
        lines_end_at_newlines(event, Seq::empty());
        lemma_one_payload(event, data);
        assert(payloads_in(s) =~= seq![data] + tail);
        assert(seq![data] + tail =~= payloads);
    }
}

proof fn lemma_one_payload(event: Seq<char>, data: Seq<char>)
    requires
        event == "data: "@ + data,
        lines_of(event) == seq![event],
    ensures
        payloads_of(event) == seq![data],
{
    reveal_strlit("data: ");
    let lines = seq![event];
    assert(lines.drop_last() =~= Seq::empty());
    assert(payloads_among(lines.drop_last()) =~= Seq::empty());
    assert("data: "@.is_prefix_of(event)) by {
        assert(event.subrange(0, 6) =~= "data: "@);
    }
    assert(event.skip(6) =~= data);
    assert(payloads_among(lines) =~= seq![data]);
}

/// Only lines that start with `data: ` are payloads, in the order of the lines.
pub proof fn payloads_stand_behind_data(a: Seq<Seq<char>>, b: Seq<Seq<char>>, line: Seq<char>)
    ensures
        payloads_among(a + b) == payloads_among(a) + payloads_among(b),
        payloads_among(Seq::empty()).len() == 0,
        line.len() >= 6 && line.take(6) == "data: "@ ==> payloads_among(seq![line]) == seq![
            line.skip(6),
        ],
        line.len() < 6 || line.take(6) != "data: "@ ==> payloads_among(seq![line]).len() == 0,
    decreases b.len(),
{
    reveal_strlit("data: ");
    let one = seq![line];
    assert(one.drop_last() =~= Seq::empty());
    assert(payloads_among(one.drop_last()) =~= Seq::empty());
    if line.len() >= 6 {
        assert(line.take(6) =~= line.subrange(0, 6));
        assert("data: "@.is_prefix_of(line) <==> line.take(6) == "data: "@);
    }
    if payloads_among(one).len() > 0 {
        assert(payloads_among(one) =~= seq![line.skip(6)]);
    }
    if b.len() == 0 {
        assert(a + b =~= a);
        assert(payloads_among(a) + payloads_among(b) =~= payloads_among(a));
    } else {
        assert((a + b).drop_last() =~= a + b.drop_last());
        payloads_stand_behind_data(a, b.drop_last(), line);
        assert(payloads_among(a + b) =~= payloads_among(a) + payloads_among(b));
    }
}

// ---------------------------------------------------------------------------
// Numbers

proof fn lemma_digits_of(n: nat)
    ensures
        decimal_text(n).len() > 0,
        all_digits(decimal_text(n)),
        digits_value(decimal_text(n)) == n,
        n > 0 ==> decimal_text(n)[0] != '0',
    decreases n,
{
    let s = decimal_text(n);
    if n < 10 {
        assert(s.drop_last() =~= Seq::empty());
        assert(digits_value(s.drop_last()) == 0);
        assert(s.last() as int == 48 + n);
    } else {
        lemma_digits_of(n / 10);
        let front = decimal_text(n / 10);
        assert(s.drop_last() =~= front);
        assert(s.last() as int == 48 + n % 10);
        assert forall|i: int| 0 <= i < s.len() implies is_digit(#[trigger] s[i]) by {
            if i < front.len() {
                assert(s[i] == front[i]);
            }
        }
        assert(s[0] == front[0]);
    }
}

/// A number is written in digits, without zeros before it, and is read back as
/// what it was wherever it is not too large.
pub proof fn numbers_are_read_back(n: nat, max: nat)
    ensures
        n <= max ==> number_of(decimal_text(n), max) == Some(n),
        n <= max ==> number_of(seq!['+'] + decimal_text(n), max) == Some(n),
        n > max ==> number_of(decimal_text(n), max) is None,
        forall|i: int|
            0 <= i < decimal_text(n).len() ==> '0' <= #[trigger] decimal_text(n)[i] <= '9',
        n > 0 ==> decimal_text(n)[0] != '0',
{
    lemma_digits_of(n);
    let s = decimal_text(n);
    assert(is_digit(s[0]));
    assert((seq!['+'] + s).skip(1) =~= s);
    assert forall|i: int| 0 <= i < s.len() implies '0' <= #[trigger] s[i] <= '9' by {
        assert(is_digit(s[i]));
    }
}

/// Digits stand for a number the usual way: the last one for itself, and all
/// before it for ten times as much.
pub proof fn digits_stand_for_tens(s: Seq<char>, c: char)
    requires
        '0' <= c <= '9',
    ensures
        digits_value(s.push(c)) == 10 * digits_value(s) + (c as int - '0' as int),
        digits_value(Seq::empty()) == 0,
        digit((c as int - '0' as int) as nat) == c,
{
    assert(s.push(c).drop_last() =~= s);
}

/// What is no run of digits, with or without a plus before it, is no number.
pub proof fn other_texts_are_no_numbers(s: Seq<char>, max: nat, i: int)
    ensures
        s.len() == 0 ==> number_of(s, max) is None,
        s == seq!['+'] ==> number_of(s, max) is None,
        0 < i < s.len() && !('0' <= s[i] <= '9') ==> number_of(s, max) is None,
        s.len() > 0 && s[0] != '+' && !('0' <= s[0] <= '9') ==> number_of(s, max) is None,
        number_of(s, max) is Some ==> number_of(s, max)->0 <= max,
{
    let digits = if s.len() > 0 && s[0] == '+' {
        s.skip(1)
    } else {
        s
    };
    if 0 < i < s.len() && !('0' <= s[i] <= '9') && all_digits(digits) {
        if s[0] == '+' {
            assert(is_digit(digits[i - 1]));
        } else {
            assert(is_digit(digits[i]));
        }
    }
    if s.len() > 0 && s[0] != '+' && all_digits(digits) {
        assert(is_digit(digits[0]));
    }
}

/// Only the letters of ASCII lose their case.
pub proof fn case_is_that_of_ascii_letters(s: Seq<char>, i: int)
    requires
        0 <= i < s.len(),
    ensures
        without_case(s).len() == s.len(),
        'A' <= s[i] <= 'Z' ==> without_case(s)[i] as int == s[i] as int + 32,
        !('A' <= s[i] <= 'Z') ==> without_case(s)[i] == s[i],
{
}

// ---------------------------------------------------------------------------
// Decimals

proof fn lemma_reduced(d: Decimal)
    ensures
        reduced(d).scale <= d.scale,
        reduced(d).units * pow(10, (d.scale - reduced(d).scale) as nat) == d.units,
        reduced(d).scale == 0 || reduced(d).units % 10 != 0,
        d.units < 0 <==> reduced(d).units < 0,
        magnitude(reduced(d).units) <= magnitude(d.units),
    decreases d.scale,
{
    reveal(pow);
    if d.scale > 0 && d.units % 10 == 0 {
        let less = Decimal { units: (d.units / 10) as i64, scale: (d.scale - 1) as u32 };
        lemma_reduced(less);
        let n = (less.scale - reduced(less).scale) as nat;
        let r = reduced(less).units as int;
        assert(pow(10, n + 1) == 10 * pow(10, n));
        assert(r * (10 * pow(10, n)) == 10 * (r * pow(10, n))) by (nonlinear_arith);
        assert((d.scale - reduced(d).scale) as nat == n + 1);
    } else {
        assert(pow(10, 0) == 1);
    }
}

/// A decimal is reduced to the shortest one of the same value.
pub proof fn reduced_decimals_are_worth_the_same(d: Decimal)
    ensures
        reduced(d).scale <= d.scale,
        reduced(d).units * pow(10, (d.scale - reduced(d).scale) as nat) == d.units,
        reduced(d).scale == 0 || reduced(d).units % 10 != 0,
{
    lemma_reduced(d);
}

proof fn lemma_run(s: Seq<char>, value: nat, n: nat)
    requires
        all_digits(s),
        digits_value(s) == high_part(value, n),
    ensures
        low_digits(value, n).len() == n,
        all_digits(low_digits(value, n)),
        digits_value(s + low_digits(value, n)) == value,
    decreases n,
{
    let low = low_digits(value, n);
    if n == 0 {
        assert(s + low =~= s);
    } else {
        lemma_run(s, value / 10, (n - 1) as nat);
        let front = low_digits(value / 10, (n - 1) as nat);
        assert(low.drop_last() =~= front);
        assert(low.last() as int == 48 + value % 10);
        assert((s + low).drop_last() =~= s + front);
        assert forall|i: int| 0 <= i < low.len() implies is_digit(#[trigger] low[i]) by {
            if i < front.len() {
                assert(low[i] == front[i]);
            }
        }
    }
}

proof fn lemma_point_behind(whole: Seq<char>, rest: Seq<char>)
    requires
        all_digits(whole),
        rest.len() > 0 ==> rest[0] == '.',
    ensures
        point_in(whole + rest) == whole.len(),
    decreases whole.len(),
{
    let s = whole + rest;
    if whole.len() > 0 {
        assert(is_digit(whole[0]));
        assert(s.skip(1) =~= whole.skip(1) + rest);
        assert forall|i: int| 0 <= i < whole.skip(1).len() implies is_digit(
            #[trigger] whole.skip(1)[i],
        ) by {
            assert(is_digit(whole[i + 1]));
        }
        lemma_point_behind(whole.skip(1), rest);
    } else {
        assert(s =~= rest);
    }
}

/// A decimal is read back from its text as the shortest one of the same value.
pub proof fn decimals_are_read_back(d: Decimal)
    requires
        d.scale <= 18,
        d.units > i64::MIN,
    ensures
        decimal_of(number_text(d)) == Some(reduced(d)),
{
    lemma_reduced(d);
    let r = reduced(d);
    let m = magnitude(r.units);
    let n = r.scale as nat;
    let whole = decimal_text(high_part(m, n));
    lemma_digits_of(high_part(m, n));
    lemma_run(whole, m, n);
    let low = low_digits(m, n);
    reveal_strlit("-");
    reveal_strlit("");
    reveal_strlit(".");
    let rest = if n == 0 {
        Seq::<char>::empty()
    } else {
        "."@ + low
    };
    let plain = whole + rest;
    lemma_point_behind(whole, rest);
    assert(plain.take(whole.len() as int) =~= whole);
    if n > 0 {
        assert(plain.skip(whole.len() as int + 1) =~= low);
        assert(whole + "."@ + low =~= plain);
    } else {
        assert(whole + low =~= whole);
        assert(whole =~= plain);
    }
    assert(unsigned_of(plain) == Some((m, n)));
    assert(is_digit(whole[0]));
    let text = number_text(d);
    if r.units < 0 {
        assert("-"@ + whole + "."@ + low =~= "-"@ + (whole + "."@ + low));
        assert(text =~= "-"@ + plain);
        assert(text.skip(1) =~= plain);
        assert(text[0] == '-');
    } else {
        assert(""@ + whole =~= whole);
        assert(text =~= plain);
        assert(text[0] == whole[0]);
    }
}

/// A decimal goes out as a fraction: a whole one with one zero behind its point.
pub proof fn whole_decimals_go_out_as_fractions(d: Decimal)
    ensures
        reduced(d).scale == 0 ==> fraction_text(d) == number_text(d) + ".0"@,
        reduced(d).scale > 0 ==> fraction_text(d) == number_text(d),
{
}

// ---------------------------------------------------------------------------
// Errors

/// An error says what kind it is before what went wrong.
pub proof fn errors_say_what_they_are(text: Seq<char>, status: u16, retry_after: u64)
    ensures
        ai_error_text(AiErrorView::Http(text)) == "HTTP error: "@ + text,
        ai_error_text(AiErrorView::Api { status, message: text }) == "API error: "@ + decimal_text(
            status as nat,
        ) + " - "@ + text,
        ai_error_text(AiErrorView::Stream(text)) == "Stream error: "@ + text,
        ai_error_text(AiErrorView::Serde(text)) == "Serialization error: "@ + text,
        ai_error_text(AiErrorView::Config(text)) == "Configuration error: "@ + text,
        ai_error_text(AiErrorView::UnsupportedProvider(text)) == "Provider not supported: "@ + text,
        ai_error_text(AiErrorView::ModelNotFound(text)) == "Model not found: "@ + text,
        ai_error_text(AiErrorView::RateLimited { retry_after, message: text })
            == "Rate limited, retry after "@ + decimal_text(retry_after as nat) + "s: "@ + text,
        ai_error_text(AiErrorView::Auth(text)) == "Authentication failed: "@ + text,
        ai_error_text(AiErrorView::Io(text)) == "I/O error: "@ + text,
        ai_error_text(AiErrorView::Other(text)) == text,
{
}

/// A request that did not get there is marked as such, and says whether it took
/// too long, found no connection, or could not be sent; one that got there and
/// failed is not marked.
pub proof fn failures_say_how_far_the_request_got(e: SendFailure)
    ensures
        e.is_timeout ==> send_error(e) == AiErrorView::Other(
            "[transport]"@ + " "@ + "Request timed out"@,
        ),
        !e.is_timeout && e.is_connect ==> send_error(e) == AiErrorView::Other(
            "[transport]"@ + " "@ + ("Connection failed: "@ + e.message@),
        ),
        !e.is_timeout && !e.is_connect && e.is_request ==> send_error(e) == AiErrorView::Other(
            "[transport]"@ + " "@ + ("Request failed: "@ + e.message@),
        ),
        !e.is_timeout && !e.is_connect && !e.is_request ==> send_error(e) == AiErrorView::Http(
            e.message@,
        ),
        e.is_timeout || e.is_connect || e.is_request ==> stream_failure_text(e) == "[transport]"@
            + " "@ + ("Request failed: "@ + e.message@),
        !e.is_timeout && !e.is_connect && !e.is_request ==> stream_failure_text(e)
            == "Request failed: "@ + e.message@,
{
}

// ---------------------------------------------------------------------------
// Order

/// Texts are ordered by the first character in which they differ, and the start
/// of a text comes before the text.
pub proof fn texts_are_ordered_like_words(a: Seq<char>, b: Seq<char>, p: int)
    requires
        0 <= p <= a.len(),
        p <= b.len(),
        a.take(p) == b.take(p),
    ensures
        p == a.len() && p < b.len() ==> text_before(a, b) && !text_before(b, a),
        p < a.len() && p < b.len() && a[p] < b[p] ==> text_before(a, b) && !text_before(b, a),
        p == a.len() && p == b.len() ==> !text_before(a, b),
    decreases p,
{
    if p > 0 {
        assert(a[0] == a.take(p)[0] && b[0] == b.take(p)[0]);
        assert(a[0] == b[0]);
        let x = a.skip(1);
        let y = b.skip(1);
        assert(x.take(p - 1) =~= a.take(p).skip(1));
        assert(y.take(p - 1) =~= b.take(p).skip(1));
        texts_are_ordered_like_words(x, y, p - 1);
        if p < a.len() {
            assert(x[p - 1] == a[p]);
        }
        if p < b.len() {
            assert(y[p - 1] == b[p]);
        }
    }
}

/// Pairs of texts are ordered by the first text, and by the second where the
/// first ones are the same.
pub proof fn pairs_are_ordered_by_the_first_text(
    a: Seq<char>,
    b: Seq<char>,
    c: Seq<char>,
    d: Seq<char>,
)
    ensures
        text_before(a, b) ==> key_before((a, c), (b, d)),
        key_before((a, c), (a, d)) <==> text_before(a, a) || text_before(c, d),
        !text_before(a, b) && a != b ==> !key_before((a, c), (b, d)),
{
}

// ---------------------------------------------------------------------------
// Points in time

/// The time to wait is the number of whole seconds until a point in time, and
/// nothing where it is over.
pub proof fn waits_are_whole_seconds(now: Timestamp, until: Timestamp)
    requires
        now.nanos < 1_000_000_000,
        until.nanos < 1_000_000_000,
    ensures
        ({
            let left = (until.secs - now.secs) * 1_000_000_000 + until.nanos - now.nanos;
            let secs = secs_until(now, until);
            &&& left <= 0 ==> secs == 0
            &&& left > 0 ==> secs * 1_000_000_000 <= left < (secs + 1) * 1_000_000_000
        }),
{
}

/// Of two points in time the later one is the one that the other is not behind.
pub proof fn later_point_is_not_before_the_other(a: Timestamp, b: Timestamp)
    ensures
        later_of(a, b) == a || later_of(a, b) == b,
        !later_of(a, b).before(a),
        !later_of(a, b).before(b),
        a.before(b) <==> a.secs < b.secs || a.secs == b.secs && a.nanos < b.nanos,
{
}

/// A span of seconds is as long as it says, where it can be counted in
/// milliseconds, and no time at all where it cannot.
pub proof fn spans_are_as_long_as_they_say(secs: u64)
    ensures
        secs <= 9_223_372_036_854_775 ==> span_secs(secs) == secs,
        secs > 9_223_372_036_854_775 ==> span_secs(secs) == 0,
{
}

} // verus!
