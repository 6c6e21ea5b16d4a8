//! Decimal numbers, as they stand in settings and in requests.
use crate::text::{
    all_digits, chars_of, concat, decimal, decimal_text, digits_value, is_digit,
};
use vstd::prelude::*;

verus! {

/// The most digits behind the point.
pub const MAX_SCALE: u32 = 18;

/// The number `units / 10^scale`.
#[derive(Clone, Copy, Debug, PartialEq, Eq, Structural)]
pub struct Decimal {
    pub units: i64,
    pub scale: u32,
}

/// The same number without zeros at the end of its fraction.
pub open spec fn reduced(d: Decimal) -> Decimal
    decreases d.scale,
{
    if d.scale > 0 && d.units % 10 == 0 {
        reduced(Decimal { units: (d.units / 10) as i64, scale: (d.scale - 1) as u32 })
    } else {
        d
    }
}

/// The last `n` decimal digits of a number, and the number without them.
pub open spec fn low_digits(value: nat, n: nat) -> Seq<char>
    decreases n,
{
    if n == 0 {
        Seq::empty()
    } else {
        low_digits(value / 10, (n - 1) as nat).push(crate::text::digit(value % 10))
    }
}

/// A number without its last `n` decimal digits.
pub open spec fn high_part(value: nat, n: nat) -> nat
    decreases n,
{
    if n == 0 {
        value
    } else {
        high_part(value / 10, (n - 1) as nat)
    }
}

/// The absolute value.
pub open spec fn magnitude(units: i64) -> nat {
    if units < 0 {
        (-units) as nat
    } else {
        units as nat
    }
}

/// A number in decimal, in its shortest form: a sign if it is negative, the
/// whole part, and behind a point the fraction if there is one.
pub open spec fn number_text(d: Decimal) -> Seq<char> {
    let r = reduced(d);
    let sign = if r.units < 0 {
        "-"@
    } else {
        ""@
    };
    let whole = decimal_text(high_part(magnitude(r.units), r.scale as nat));
    if r.scale == 0 {
        sign + whole
    } else {
        sign + whole + "."@ + low_digits(magnitude(r.units), r.scale as nat)
    }
}

/// A number in decimal with a fraction, be it zero.
pub open spec fn fraction_text(d: Decimal) -> Seq<char> {
    if reduced(d).scale == 0 {
        number_text(d) + ".0"@
    } else {
        number_text(d)
    }
}

/// The place of the first point.
pub open spec fn point_in(s: Seq<char>) -> int
    decreases s.len(),
{
    if s.len() == 0 || s[0] == '.' {
        0
    } else {
        1 + point_in(s.skip(1))
    }
}

/// The number that a text without a sign stands for: digits, and behind a point
/// more digits.
pub open spec fn unsigned_of(s: Seq<char>) -> Option<(nat, nat)> {
    let point = point_in(s);
    let whole = s.take(point);
    let fraction = if point < s.len() {
        s.skip(point + 1)
    } else {
        Seq::empty()
    };
    if whole.len() > 0 && all_digits(whole) && all_digits(fraction) && (point == s.len()
        || fraction.len() > 0) && fraction.len() <= MAX_SCALE && digits_value(whole + fraction)
        <= i64::MAX {
        Some((digits_value(whole + fraction), fraction.len()))
    } else {
        None
    }
}

/// The number that a text stands for, if it fits.
pub open spec fn decimal_of(s: Seq<char>) -> Option<Decimal> {
    let negative = s.len() > 0 && s[0] == '-';
    match unsigned_of(
        if negative {
            s.skip(1)
        } else {
            s
        },
    ) {
        Some((units, scale)) => Some(
            Decimal {
                units: (if negative {
                    -units
                } else {
                    units as int
                }) as i64,
                scale: scale as u32,
            },
        ),
        None => None,
    }
}

fn find_point(chars: &Vec<char>, from: usize) -> (at: usize)
    requires
        from <= chars@.len(),
    ensures
        from <= at <= chars@.len(),
        at - from == point_in(chars@.skip(from as int)),
    decreases chars@.len() - from,
{
    if from == chars.len() || chars[from] == '.' {
        from
    } else {
        assert(chars@.skip(from as int).skip(1) =~= chars@.skip(from + 1));
        find_point(chars, from + 1)
    }
}

proof fn lemma_point(s: Seq<char>)
    ensures
        0 <= point_in(s) <= s.len(),
        point_in(s) < s.len() ==> s[point_in(s)] == '.',
        forall|i: int| 0 <= i < point_in(s) ==> s[i] != '.',
    decreases s.len(),
{
    if s.len() > 0 && s[0] != '.' {
        lemma_point(s.skip(1));
        assert forall|i: int| 0 <= i < point_in(s) implies s[i] != '.' by {
            if i > 0 {
                assert(s[i] == s.skip(1)[i - 1]);
            }
        }
    }
}

proof fn lemma_digits_take(s: Seq<char>, k: int)
    requires
        0 <= k <= s.len(),
    ensures
        digits_value(s.take(k)) <= digits_value(s),
    decreases s.len() - k,
{
    if k < s.len() {
        lemma_digits_take(s, k + 1);
        assert(s.take(k + 1).drop_last() =~= s.take(k));
    } else {
        assert(s.take(k) =~= s);
    }
}

fn digit_run(value: u64, n: u32) -> (r: (u64, String))
    ensures
        r.0 == high_part(value as nat, n as nat),
        r.1@ == low_digits(value as nat, n as nat),
    decreases n,
{
    if n == 0 {
        (value, String::new())
    } else {
        let (high, mut run) = digit_run(value / 10, n - 1);
        let last = decimal(value % 10);
        run.append(last.as_str());
        assert(run@ =~= low_digits(value as nat, n as nat));
        (high, run)
    }
}

impl Decimal {
    /// The same number without zeros at the end of its fraction.
    pub fn reduce(self) -> (r: Decimal)
        ensures
            r == reduced(self),
        decreases self.scale,
    {
        if self.scale > 0 && self.units % 10 == 0 {
            proof {
                let u = self.units as int;
                assert(u % 10 == 0);
            }
            Decimal { units: self.units / 10, scale: self.scale - 1 }.reduce()
        } else {
            self
        }
    }

    /// The number that a text stands for, if it fits: digits, with a sign before
    /// them if it is negative, and with a point and more digits behind them.
    pub fn parse(s: &str) -> (d: Option<Decimal>)
        ensures
            d == decimal_of(s@),
    {
        let chars = chars_of(s);
        let negative = chars.len() > 0 && chars[0] == '-';
        let from: usize = if negative {
            1
        } else {
            0
        };
        let ghost body = if negative {
            s@.skip(1)
        } else {
            s@
        };
        assert(body =~= s@.skip(from as int));
        let point: usize = find_point(&chars, from);
        let ghost at = point_in(body);
        let ghost whole = body.take(at);
        let ghost fraction = if at < body.len() {
            body.skip(at + 1)
        } else {
            Seq::empty()
        };
        let ghost run = whole + fraction;
        proof {
            lemma_point(body);
        }
        if point == from || chars.len() - point == 1 {
            return None;
        }
        let scale: usize = if point < chars.len() {
            chars.len() - point - 1
        } else {
            0
        };
        if scale > MAX_SCALE as usize {
            return None;
        }
        let mut units: u64 = 0;
        let mut i: usize = from;
        assert(run.take(0) =~= Seq::empty());
        while i < chars.len()
            invariant
                from <= i <= chars@.len(),
                from < point <= chars@.len(),
                chars@ == s@,
                body == s@.skip(from as int),
                body == (if s@.len() > 0 && s@[0] == '-' {
                    s@.skip(1)
                } else {
                    s@
                }),
                at == point - from,
                at == point_in(body),
                whole == body.take(at),
                fraction == (if at < body.len() {
                    body.skip(at + 1)
                } else {
                    Seq::empty()
                }),
                run == whole + fraction,
                at < body.len() ==> fraction.len() > 0 && body[at] == '.',
                fraction.len() <= MAX_SCALE,
                ({
                    let done = if i <= point {
                        i - from
                    } else {
                        i - from - 1
                    };
                    &&& units == digits_value(run.take(done))
                    &&& forall|j: int| 0 <= j < done ==> is_digit(#[trigger] run[j])
                }),
                units <= i64::MAX,
            decreases chars@.len() - i,
        {
            if i == point {
                i = i + 1;
            } else {
                let ghost done = if i <= point {
                    i - from
                } else {
                    i - from - 1
                };
                let c = chars[i];
                proof {
                    if i < point {
                        assert(run[done] == whole[done]);
                        assert(whole[done] == body[done]);
                    } else {
                        assert(run[done] == fraction[done - at]);
                        assert(fraction[done - at] == body[done + 1]);
                    }
                    assert(run[done] == c);
                }
                if !(c >= '0' && c <= '9') {
                    proof {
                        assert(!is_digit(run[done]));
                        if i < point {
                            assert(!is_digit(whole[done]));
                        } else {
                            assert(!is_digit(fraction[done - at]));
                        }
                    }
                    return None;
                }
                let d: u64 = (c as u32 - 48) as u64;
                let ghost longer = run.take(done + 1);
                proof {
                    assert(longer.drop_last() =~= run.take(done));
                    lemma_digits_take(run, done + 1);
                }
                assert(digits_value(longer) == units * 10 + d);
                if units > (i64::MAX as u64 - d) / 10 {
                    assert(digits_value(longer) > i64::MAX);
                    return None;
                }
                units = units * 10 + d;
                i = i + 1;
            }
        }
        proof {
            assert(run.take(run.len() as int) =~= run);
            assert forall|j: int| 0 <= j < whole.len() implies is_digit(#[trigger] whole[j]) by {
                assert(whole[j] == run[j]);
            }
            assert forall|j: int| 0 <= j < fraction.len() implies is_digit(#[trigger] fraction[j]) by {
                assert(fraction[j] == run[whole.len() + j]);
            }
        }
        let value: i64 = units as i64;
        Some(
            Decimal {
                units: if negative {
                    -value
                } else {
                    value
                },
                scale: scale as u32,
            },
        )
    }

    /// The number in decimal, in its shortest form.
    pub fn text(self) -> (text: String)
        ensures
            text@ == number_text(self),
    {
        let r = self.reduce();
        let value: u64 = if r.units < 0 {
            (0 - r.units as i128) as u64
        } else {
            r.units as u64
        };
        let (high, run) = digit_run(value, r.scale);
        let mut text = concat(
            if r.units < 0 {
                "-"
            } else {
                ""
            },
            decimal(high).as_str(),
        );
        if r.scale > 0 {
            text.append(".");
            text.append(run.as_str());
        }
        text
    }

    /// The number in decimal with a fraction.
    pub fn text_with_fraction(self) -> (text: String)
        ensures
            text@ == fraction_text(self),
    {
        let text = self.text();
        if self.reduce().scale == 0 {
            concat(text.as_str(), ".0")
        } else {
            text
        }
    }
}

} // verus!
