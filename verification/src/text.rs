//! Text, seen as the sequence of its characters.
use vstd::prelude::*;
use vstd::utf8::*;

verus! {

/// A text that may be missing, as a value.
pub open spec fn opt_str(text: Option<&str>) -> Option<Seq<char>> {
    match text {
        Some(text) => Some(text@),
        None => None,
    }
}

/// A list of texts.
pub open spec fn texts(list: Seq<String>) -> Seq<Seq<char>> {
    list.map_values(|s: String| s@)
}

/// Whether the two texts are the same.
pub fn same(a: &str, b: &str) -> (r: bool)
    ensures
        r == (a@ == b@),
{
    let x = a.as_bytes();
    let y = b.as_bytes();
    proof {
        encode_utf8_decode_utf8(a@);
        encode_utf8_decode_utf8(b@);
    }
    if x.len() != y.len() {
        return false;
    }
    let mut i: usize = 0;
    while i < x.len()
        invariant
            i <= x@.len(),
            x@.len() == y@.len(),
            forall|j: int| 0 <= j < i ==> x@[j] == y@[j],
            x@ == encode_utf8(a@),
            y@ == encode_utf8(b@),
        decreases x@.len() - i,
    {
        if x[i] != y[i] {
            return false;
        }
        i = i + 1;
    }
    assert(x@ =~= y@);
    true
}

/// The characters of a text.
pub fn chars_of(s: &str) -> (chars: Vec<char>)
    ensures
        chars@ == s@,
{
    let mut chars: Vec<char> = Vec::new();
    for c in it: s.chars()
        invariant
            it.seq() == s@,
            chars@ == s@.take(it.index() as int),
    {
        proof {
            assert(s@.take(it.index() + 1) =~= s@.take(it.index() as int).push(c));
        }
        chars.push(c);
    }
    assert(s@.take(s@.len() as int) =~= s@);
    chars
}

/// The text with another text put behind it.
pub fn concat(a: &str, b: &str) -> (r: String)
    ensures
        r@ == a@ + b@,
{
    let mut r = a.to_owned();
    r.append(b);
    r
}

/// What is left of a text behind a prefix.
pub open spec fn without_prefix(s: Seq<char>, prefix: Seq<char>) -> Option<Seq<char>> {
    if prefix.is_prefix_of(s) {
        Some(s.skip(prefix.len() as int))
    } else {
        None
    }
}

/// What is left of `s` behind `prefix`.
pub fn strip_prefix<'a>(s: &'a str, prefix: &str) -> (rest: Option<&'a str>)
    ensures
        match rest {
            Some(rest) => without_prefix(s@, prefix@) == Some(rest@),
            None => without_prefix(s@, prefix@) is None,
        },
{
    let chars = chars_of(s);
    let head = chars_of(prefix);
    if head.len() > chars.len() {
        return None;
    }
    let mut i: usize = 0;
    while i < head.len()
        invariant
            i <= head@.len() <= chars@.len(),
            forall|j: int| 0 <= j < i ==> chars@[j] == head@[j],
            chars@ == s@,
            head@ == prefix@,
        decreases head@.len() - i,
    {
        if chars[i] != head[i] {
            assert(!prefix@.is_prefix_of(s@));
            return None;
        }
        i = i + 1;
    }
    assert(prefix@ =~= s@.subrange(0, prefix@.len() as int));
    Some(s.substring_char(head.len(), chars.len()))
}

/// Whether `s` starts with `prefix`.
pub fn starts_with(s: &str, prefix: &str) -> (b: bool)
    ensures
        b == prefix@.is_prefix_of(s@),
{
    strip_prefix(s, prefix).is_some()
}

/// A text without the given characters at its end.
pub open spec fn trimmed_end(s: Seq<char>, drop: spec_fn(char) -> bool) -> Seq<char>
    decreases s.len(),
{
    if s.len() > 0 && drop(s.last()) {
        trimmed_end(s.drop_last(), drop)
    } else {
        s
    }
}

/// A text without the given characters at its start.
pub open spec fn trimmed_start(s: Seq<char>, drop: spec_fn(char) -> bool) -> Seq<char>
    decreases s.len(),
{
    if s.len() > 0 && drop(s.first()) {
        trimmed_start(s.drop_first(), drop)
    } else {
        s
    }
}

/// The characters that are slashes.
pub open spec fn is_slash() -> spec_fn(char) -> bool {
    |c: char| c == '/'
}

/// A text without the slashes at its end.
pub fn trim_end_slashes(s: &str) -> (r: &str)
    ensures
        r@ == trimmed_end(s@, is_slash()),
{
    let chars = chars_of(s);
    let mut n: usize = chars.len();
    assert(s@.take(n as int) =~= s@);
    while n > 0 && chars[n - 1] == '/'
        invariant
            n <= chars@.len(),
            chars@ == s@,
            trimmed_end(s@.take(n as int), is_slash()) == trimmed_end(s@, is_slash()),
        decreases n,
    {
        assert(s@.take(n as int).drop_last() =~= s@.take(n - 1));
        assert(is_slash()(s@.take(n as int).last()));
        n = n - 1;
    }
    assert(n > 0 ==> !is_slash()(s@.take(n as int).last()));
    s.substring_char(0, n)
}

/// A text without the slashes at its start.
pub fn trim_start_slashes(s: &str) -> (r: &str)
    ensures
        r@ == trimmed_start(s@, is_slash()),
{
    let chars = chars_of(s);
    let mut n: usize = 0;
    assert(s@.skip(0) =~= s@);
    while n < chars.len() && chars[n] == '/'
        invariant
            n <= chars@.len(),
            chars@ == s@,
            trimmed_start(s@.skip(n as int), is_slash()) == trimmed_start(s@, is_slash()),
        decreases chars@.len() - n,
    {
        assert(s@.skip(n as int).drop_first() =~= s@.skip(n + 1));
        assert(is_slash()(s@.skip(n as int).first()));
        n = n + 1;
    }
    assert(n < s@.len() ==> !is_slash()(s@.skip(n as int).first()));
    s.substring_char(n, chars.len())
}

/// Whether a character is white space: it has the property `White_Space` of
/// Unicode.
pub open spec fn is_white(c: char) -> bool {
    let n = c as u32;
    ||| 0x09 <= n <= 0x0d
    ||| n == 0x20
    ||| n == 0x85
    ||| n == 0xa0
    ||| n == 0x1680
    ||| 0x2000 <= n <= 0x200a
    ||| 0x2028 <= n <= 0x2029
    ||| n == 0x202f
    ||| n == 0x205f
    ||| n == 0x3000
}

/// `char::is_whitespace`: whether the character has the property `White_Space`
/// of Unicode, which exactly the characters of `is_white` have.
#[verifier::external_body]
fn whitespace(c: char) -> (b: bool)
    ensures
        b == is_white(c),
{
    c.is_whitespace()
}

/// The characters that are white space.
pub open spec fn white() -> spec_fn(char) -> bool {
    |c: char| is_white(c)
}

/// A text without white space at its ends.
pub open spec fn trimmed(s: Seq<char>) -> Seq<char> {
    trimmed_end(trimmed_start(s, white()), white())
}

/// Nothing is left of a text without its white space exactly where it holds
/// nothing else.
pub proof fn blank_texts_trim_to_nothing(s: Seq<char>)
    ensures
        trimmed(s).len() == 0 <==> forall|i: int| 0 <= i < s.len() ==> is_white(#[trigger] s[i]),
{
    lemma_trimmed_start(s);
    let rest = trimmed_start(s, white());
    if rest.len() == 0 {
        assert(trimmed(s) =~= rest);
    } else {
        lemma_first_stays(rest);
    }
}

/// A text that neither starts nor ends with white space is left as it is.
pub proof fn texts_without_white_ends_stay(s: Seq<char>)
    requires
        s.len() > 0,
        !is_white(s.first()),
        !is_white(s.last()),
    ensures
        trimmed(s) == s,
{
}

/// The start of a text without its leading white space is not white space, and
/// where nothing is left all of it was.
proof fn lemma_trimmed_start(s: Seq<char>)
    ensures
        ({
            let rest = trimmed_start(s, white());
            &&& rest.len() > 0 ==> !is_white(rest.first()) && s.contains(rest.first())
            &&& rest.len() == 0 ==> forall|i: int| 0 <= i < s.len() ==> is_white(#[trigger] s[i])
        }),
    decreases s.len(),
{
    if s.len() > 0 && is_white(s.first()) {
        let tail = s.drop_first();
        lemma_trimmed_start(tail);
        let rest = trimmed_start(tail, white());
        if rest.len() == 0 {
            assert forall|i: int| 0 <= i < s.len() implies is_white(#[trigger] s[i]) by {
                if i > 0 {
                    assert(tail[i - 1] == s[i]);
                }
            }
        } else {
            let k = tail.index_of(rest.first());
            assert(s[k + 1] == rest.first());
        }
    }
}

/// A text that does not start with white space keeps its start.
proof fn lemma_first_stays(s: Seq<char>)
    requires
        s.len() > 0,
        !is_white(s.first()),
    ensures
        trimmed_end(s, white()).len() > 0,
    decreases s.len(),
{
    if is_white(s.last()) {
        assert(s.drop_last().first() == s.first());
        lemma_first_stays(s.drop_last());
    }
}

/// A text without white space at its ends.
pub fn trim(s: &str) -> (r: &str)
    ensures
        r@ == trimmed(s@),
{
    let chars = chars_of(s);
    let mut from: usize = 0;
    assert(s@.skip(0) =~= s@);
    while from < chars.len() && whitespace(chars[from])
        invariant
            from <= chars@.len(),
            chars@ == s@,
            trimmed_start(s@.skip(from as int), white()) == trimmed_start(s@, white()),
        decreases chars@.len() - from,
    {
        assert(s@.skip(from as int).drop_first() =~= s@.skip(from + 1));
        assert(white()(s@.skip(from as int).first()));
        from = from + 1;
    }
    let ghost rest = s@.skip(from as int);
    assert(rest.len() > 0 ==> !white()(rest.first()));
    assert(trimmed_start(s@, white()) == rest);
    let mut to: usize = chars.len();
    assert(rest.take(to - from) =~= rest);
    while to > from && whitespace(chars[to - 1])
        invariant
            from <= to <= chars@.len(),
            chars@ == s@,
            rest == s@.skip(from as int),
            trimmed_end(rest.take(to - from), white()) == trimmed_end(rest, white()),
        decreases to,
    {
        assert(rest.take(to - from).drop_last() =~= rest.take(to - from - 1));
        assert(white()(rest.take(to - from).last()));
        to = to - 1;
    }
    assert(to > from ==> !white()(rest.take(to - from).last()));
    assert(rest.take(to - from) =~= s@.subrange(from as int, to as int));
    s.substring_char(from, to)
}

/// Texts put together, with a separator between each and the next.
pub open spec fn joined(list: Seq<Seq<char>>, separator: Seq<char>) -> Seq<char>
    decreases list.len(),
{
    if list.len() == 0 {
        Seq::empty()
    } else if list.len() == 1 {
        list[0]
    } else {
        joined(list.drop_last(), separator) + separator + list.last()
    }
}

/// Texts put together, with a separator between each and the next.
pub fn join(list: &[String], separator: &str) -> (r: String)
    ensures
        r@ == joined(texts(list@), separator@),
{
    let ghost all = texts(list@);
    if list.len() == 0 {
        return String::new();
    }
    let mut r = list[0].clone();
    let mut i: usize = 1;
    assert(all.take(1) =~= seq![all[0]]);
    while i < list.len()
        invariant
            1 <= i <= list@.len(),
            all == texts(list@),
            r@ == joined(all.take(i as int), separator@),
        decreases list@.len() - i,
    {
        assert(all.take(i + 1).drop_last() =~= all.take(i as int));
        r.append(separator);
        r.append(list[i].as_str());
        i = i + 1;
    }
    assert(all.take(all.len() as int) =~= all);
    r
}

/// The decimal digit for a number below ten.
pub open spec fn digit(d: nat) -> char {
    (48 + d) as char
}

/// A number in decimal.
pub open spec fn decimal_text(n: nat) -> Seq<char>
    decreases n,
{
    if n < 10 {
        seq![digit(n)]
    } else {
        decimal_text(n / 10).push(digit(n % 10))
    }
}

fn digit_text(d: u64) -> (s: &'static str)
    requires
        d < 10,
    ensures
        s@ == seq![digit(d as nat)],
{
    proof {
        reveal_strlit("0");
        reveal_strlit("1");
        reveal_strlit("2");
        reveal_strlit("3");
        reveal_strlit("4");
        reveal_strlit("5");
        reveal_strlit("6");
        reveal_strlit("7");
        reveal_strlit("8");
        reveal_strlit("9");
    }
    let s: &'static str = if d == 0 {
        "0"
    } else if d == 1 {
        "1"
    } else if d == 2 {
        "2"
    } else if d == 3 {
        "3"
    } else if d == 4 {
        "4"
    } else if d == 5 {
        "5"
    } else if d == 6 {
        "6"
    } else if d == 7 {
        "7"
    } else if d == 8 {
        "8"
    } else {
        "9"
    };
    assert(s@ =~= seq![digit(d as nat)]);
    s
}

/// A number in decimal.
pub fn decimal(n: u64) -> (s: String)
    ensures
        s@ == decimal_text(n as nat),
    decreases n,
{
    if n < 10 {
        digit_text(n).to_owned()
    } else {
        let mut s = decimal(n / 10);
        let last = digit_text(n % 10);
        s.append(last);
        assert(s@ =~= decimal_text((n / 10) as nat) + last@);
        assert(s@ =~= decimal_text(n as nat));
        s
    }
}

/// Whether a character is a decimal digit.
pub open spec fn is_digit(c: char) -> bool {
    '0' <= c <= '9'
}

/// Whether a text consists of decimal digits.
pub open spec fn all_digits(s: Seq<char>) -> bool {
    forall|i: int| 0 <= i < s.len() ==> is_digit(#[trigger] s[i])
}

/// The number that decimal digits stand for.
pub open spec fn digits_value(s: Seq<char>) -> nat
    decreases s.len(),
{
    if s.len() == 0 {
        0
    } else {
        digits_value(s.drop_last()) * 10 + ((s.last() as int - 48) as nat)
    }
}

/// The number that a text stands for: digits only, behind an optional plus
/// sign, of a value of at most `max`.
pub open spec fn number_of(s: Seq<char>, max: nat) -> Option<nat> {
    let digits = if s.len() > 0 && s[0] == '+' {
        s.skip(1)
    } else {
        s
    };
    if digits.len() > 0 && all_digits(digits) && digits_value(digits) <= max {
        Some(digits_value(digits))
    } else {
        None
    }
}

proof fn lemma_digits_value_grows(s: Seq<char>, k: int)
    requires
        0 <= k <= s.len(),
    ensures
        digits_value(s.take(k)) <= digits_value(s),
    decreases s.len() - k,
{
    if k < s.len() {
        lemma_digits_value_grows(s, k + 1);
        assert(s.take(k + 1).drop_last() =~= s.take(k));
    } else {
        assert(s.take(k) =~= s);
    }
}

/// The number that a text stands for, if it fits.
pub fn parse_number(s: &str, max: u64) -> (n: Option<u64>)
    ensures
        match n {
            Some(n) => number_of(s@, max as nat) == Some(n as nat),
            None => number_of(s@, max as nat) is None,
        },
{
    let chars = chars_of(s);
    let from: usize = if chars.len() > 0 && chars[0] == '+' {
        1
    } else {
        0
    };
    let ghost digits = s@.skip(from as int);
    assert(from == 0 ==> digits =~= s@);
    if from == chars.len() {
        return None;
    }
    let mut value: u64 = 0;
    let mut i: usize = from;
    assert(digits.take(0) =~= Seq::empty());
    while i < chars.len()
        invariant
            from <= i <= chars@.len(),
            chars@ == s@,
            digits == s@.skip(from as int),
            forall|j: int| 0 <= j < i - from ==> is_digit(#[trigger] digits[j]),
            value == digits_value(digits.take(i - from)),
            value <= max,
            from < chars@.len(),
            number_of(s@, max as nat) == (if all_digits(digits) && digits_value(
                digits,
            ) <= max {
                Some(digits_value(digits))
            } else {
                None
            }),
        decreases chars@.len() - i,
    {
        let c = chars[i];
        assert(digits[i - from] == c);
        if !(c >= '0' && c <= '9') {
            assert(!is_digit(digits[i - from]));
            return None;
        }
        let d: u64 = (c as u32 - 48) as u64;
        let ghost longer = digits.take(i + 1 - from);
        proof {
            assert(longer.drop_last() =~= digits.take(i - from));
            lemma_digits_value_grows(digits, i + 1 - from);
        }
        assert(digits_value(longer) == value * 10 + d);
        if value > (max - if d <= max { d } else { max }) / 10 || d > max {
            assert(digits_value(longer) > max);
            return None;
        }
        value = value * 10 + d;
        i = i + 1;
    }
    assert(digits.take(digits.len() as int) =~= digits);
    Some(value)
}

/// An ASCII letter in lower case, and any other character as it is.
pub open spec fn lower_ascii(c: char) -> char {
    if 'A' <= c <= 'Z' {
        ((c as u32) + 32) as char
    } else {
        c
    }
}

/// A text with its ASCII letters in lower case.
pub open spec fn without_case(s: Seq<char>) -> Seq<char> {
    s.map_values(|c: char| lower_ascii(c))
}

fn to_lower_ascii(c: char) -> (r: char)
    ensures
        r == lower_ascii(c),
{
    if 'A' <= c && c <= 'Z' {
        ((c as u8) + 32) as char
    } else {
        c
    }
}

/// Whether two texts differ at most in the case of ASCII letters.
pub fn same_ignoring_case(a: &str, b: &str) -> (r: bool)
    ensures
        r == (without_case(a@) == without_case(b@)),
{
    let first = chars_of(a);
    let second = chars_of(b);
    assert(without_case(a@).len() == a@.len());
    assert(without_case(b@).len() == b@.len());
    if first.len() != second.len() {
        return false;
    }
    let mut i: usize = 0;
    while i < first.len()
        invariant
            i <= first@.len() == second@.len(),
            first@ == a@,
            second@ == b@,
            forall|j: int| 0 <= j < i ==> without_case(a@)[j] == #[trigger] without_case(b@)[j],
        decreases first@.len() - i,
    {
        if to_lower_ascii(first[i]) != to_lower_ascii(second[i]) {
            assert(without_case(a@)[i as int] != without_case(b@)[i as int]);
            return false;
        }
        i = i + 1;
    }
    assert(without_case(a@) =~= without_case(b@));
    true
}

/// Where a pattern first stands in a text from a place on.
pub open spec fn find_from(s: Seq<char>, pattern: Seq<char>, i: int) -> Option<int>
    decreases s.len() - i + 1,
{
    if i < 0 || i + pattern.len() > s.len() {
        None
    } else if s.subrange(i, i + pattern.len()) == pattern {
        Some(i)
    } else {
        find_from(s, pattern, i + 1)
    }
}

/// Where a pattern first stands in a text.
pub open spec fn find_in(s: Seq<char>, pattern: Seq<char>) -> Option<int> {
    find_from(s, pattern, 0)
}

/// A pattern that is found lies within the text.
pub proof fn lemma_find(s: Seq<char>, pattern: Seq<char>, i: int)
    ensures
        find_from(s, pattern, i) matches Some(at) ==> {
            &&& 0 <= i <= at
            &&& at + pattern.len() <= s.len()
            &&& s.subrange(at, at + pattern.len()) == pattern
        },
    decreases s.len() - i + 1,
{
    if 0 <= i && i + pattern.len() <= s.len() && s.subrange(i, i + pattern.len()) != pattern {
        lemma_find(s, pattern, i + 1);
    }
}

/// A pattern that is found is found in a longer text too, at the same place.
pub proof fn lemma_find_longer(s: Seq<char>, more: Seq<char>, pattern: Seq<char>, i: int)
    requires
        find_from(s, pattern, i) is Some,
    ensures
        find_from(s + more, pattern, i) == find_from(s, pattern, i),
    decreases s.len() - i + 1,
{
    assert((s + more).subrange(i, i + pattern.len()) =~= s.subrange(i, i + pattern.len()));
    if s.subrange(i, i + pattern.len()) != pattern {
        lemma_find_longer(s, more, pattern, i + 1);
    }
}

fn stands_at(chars: &Vec<char>, pattern: &Vec<char>, i: usize) -> (b: bool)
    requires
        i + pattern@.len() <= chars@.len(),
    ensures
        b == (chars@.subrange(i as int, i + pattern@.len()) == pattern@),
{
    let n: usize = chars.len();
    let mut k: usize = 0;
    while k < pattern.len()
        invariant
            k <= pattern@.len(),
            i + pattern@.len() <= chars@.len() == n,
            forall|j: int| 0 <= j < k ==> chars@[i + j] == #[trigger] pattern@[j],
        decreases pattern@.len() - k,
    {
        if chars[i + k] != pattern[k] {
            assert(chars@.subrange(i as int, i + pattern@.len())[k as int] != pattern@[k as int]);
            return false;
        }
        k = k + 1;
    }
    assert(chars@.subrange(i as int, i + pattern@.len()) =~= pattern@);
    true
}

/// Where a pattern first stands in a text, in characters.
pub fn find(s: &str, pattern: &str) -> (at: Option<usize>)
    ensures
        match at {
            Some(at) => find_in(s@, pattern@) == Some(at as int),
            None => find_in(s@, pattern@) is None,
        },
{
    let chars = chars_of(s);
    let wanted = chars_of(pattern);
    if wanted.len() > chars.len() {
        return None;
    }
    let last: usize = chars.len() - wanted.len();
    let mut i: usize = 0;
    while i < last
        invariant
            i <= last,
            last + wanted@.len() == chars@.len(),
            chars@ == s@,
            wanted@ == pattern@,
            find_in(s@, pattern@) == find_from(s@, pattern@, i as int),
        decreases last - i,
    {
        if stands_at(&chars, &wanted, i) {
            return Some(i);
        }
        i = i + 1;
    }
    if stands_at(&chars, &wanted, last) {
        Some(last)
    } else {
        assert(find_from(s@, pattern@, last + 1) is None);
        None
    }
}

/// Whether a pattern stands somewhere in a text.
pub fn contains(s: &str, pattern: &str) -> (b: bool)
    ensures
        b == (find_in(s@, pattern@) is Some),
{
    find(s, pattern).is_some()
}

/// A line without a carriage return before its end.
pub open spec fn without_return(line: Seq<char>) -> Seq<char> {
    if line.len() > 0 && line.last() == '\r' {
        line.drop_last()
    } else {
        line
    }
}

/// The lines of a text. A line ends with a line feed, which may have a carriage
/// return before it, or with the text.
pub open spec fn lines_of(s: Seq<char>) -> Seq<Seq<char>>
    decreases s.len(),
{
    if s.len() == 0 {
        Seq::empty()
    } else {
        match find_in(s, seq!['\n']) {
            Some(at) if 0 <= at < s.len() => seq![without_return(s.take(at))] + lines_of(
                s.skip(at + 1),
            ),
            _ => seq![s],
        }
    }
}

/// The lines of a text.
pub fn lines(s: &str) -> (out: Vec<String>)
    ensures
        texts(out@) == lines_of(s@),
{
    let mut out: Vec<String> = Vec::new();
    let mut rest: String = s.to_owned();
    proof {
        reveal_strlit("\n");
        assert("\n"@ =~= seq!['\n']);
    }
    assert(texts(out@) + lines_of(rest@) =~= lines_of(s@));
    while rest.as_str().unicode_len() > 0
        invariant
            texts(out@) + lines_of(rest@) == lines_of(s@),
            "\n"@ == seq!['\n'],
        decreases rest@.len(),
    {
        let ghost before = texts(out@);
        let n: usize = rest.as_str().unicode_len();
        match find(rest.as_str(), "\n") {
            Some(at) => {
                proof {
                    lemma_find(rest@, "\n"@, 0);
                }
                let line = rest.as_str().substring_char(0, at);
                let returned = at > 0 && line.get_char(at - 1) == '\r';
                let line = if returned {
                    line.substring_char(0, at - 1)
                } else {
                    line
                };
                assert(line@ =~= without_return(rest@.take(at as int)));
                let ghost tail = lines_of(rest@.skip(at + 1));
                assert(lines_of(rest@) == seq![line@] + tail);
                let next = rest.as_str().substring_char(at + 1, n).to_owned();
                assert(next@ =~= rest@.skip(at + 1));
                out.push(line.to_owned());
                assert(texts(out@) =~= before.push(line@));
                assert(before + (seq![line@] + tail) =~= before.push(line@) + tail);
                rest = next;
            },
            None => {
                assert(lines_of(rest@) == seq![rest@]);
                assert(before + seq![rest@] =~= before.push(rest@));
                let ghost last = rest@;
                out.push(rest);
                assert(texts(out@) =~= before.push(last));
                return out;
            },
        }
    }
    assert(rest@ =~= Seq::empty());
    assert(texts(out@) + lines_of(rest@) =~= texts(out@));
    out
}

/// What `String::from_utf8_lossy` makes of bytes.
pub uninterp spec fn lossy_text(bytes: Seq<u8>) -> Seq<char>;

/// `String::from_utf8_lossy`: the text is a function of the bytes, and what
/// they encode where they are UTF-8.
#[verifier::external_body]
pub(crate) fn decode_lossy(bytes: &[u8]) -> (text: String)
    ensures
        text@ == lossy_text(bytes@),
        vstd::utf8::valid_utf8(bytes@) ==> text@ == vstd::utf8::decode_utf8(bytes@),
{
    String::from_utf8_lossy(bytes).into_owned()
}

/// A copy of a list of texts.
pub fn copy_texts(list: &Vec<String>) -> (copy: Vec<String>)
    ensures
        texts(copy@) == texts(list@),
{
    let mut copy: Vec<String> = Vec::new();
    let mut i: usize = 0;
    while i < list.len()
        invariant
            i <= list@.len(),
            copy@.len() == i,
            forall|j: int| 0 <= j < i ==> (#[trigger] copy@[j])@ == list@[j]@,
        decreases list@.len() - i,
    {
        copy.push(list[i].clone());
        i = i + 1;
    }
    assert(texts(copy@) =~= texts(list@));
    copy
}

/// What `str::to_lowercase` makes of a text.
pub uninterp spec fn lowercase(s: Seq<char>) -> Seq<char>;

/// `str::to_lowercase`: the text in lower case, by the tables of Unicode, is a
/// function of the text.
#[verifier::external_body]
pub(crate) fn to_lowercase(s: &str) -> (r: String)
    ensures
        r@ == lowercase(s@),
{
    s.to_lowercase()
}

} // verus!
