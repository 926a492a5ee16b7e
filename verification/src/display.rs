//! How values are written for display: numbers in the format of their cell,
//! every other value as it is edited.

use crate::decimal::{
    spec_checked_mul, spec_rounded, spec_to_plain_text, spec_to_scientific_text, spec_to_text,
    spec_with_digits, Decimal, DecimalView,
};
use crate::formatting::{NumericFormat, NumericFormatKind};
use crate::text::joined;
use crate::values::{spec_to_edit, CellValue, CellValueView};
use vstd::prelude::*;

verus! {

/// Digits in groups of three, counted from the right, with commas between
/// the groups.
pub open spec fn in_threes(digits: Seq<char>) -> Seq<char>
    decreases digits.len(),
{
    if digits.len() <= 3 {
        digits
    } else {
        in_threes(digits.subrange(0, digits.len() - 3)) + seq![','] + digits.subrange(
            digits.len() - 3,
            digits.len() as int,
        )
    }
}

/// Where the whole part of a written number begins: behind its sign.
pub open spec fn whole_start(text: Seq<char>) -> int {
    if text.len() > 0 && text[0] == '-' {
        1
    } else {
        0
    }
}

/// The place of the first point from `i` on, or the length of the text if
/// none follows.
pub open spec fn point(text: Seq<char>, i: int) -> int
    decreases text.len() - i,
{
    if i < 0 || i >= text.len() || text[i] == '.' {
        i
    } else {
        point(text, i + 1)
    }
}

/// A written number with the digits of its whole part in groups of three.
pub open spec fn with_commas(text: Seq<char>) -> Seq<char> {
    let from = whole_start(text);
    let to = point(text, from);
    text.subrange(0, from) + in_threes(text.subrange(from, to)) + text.subrange(
        to,
        text.len() as int,
    )
}

/// The point that `point` gives lies in the text, from `i` on.
pub proof fn lemma_point(text: Seq<char>, i: int)
    requires
        0 <= i <= text.len(),
    ensures
        i <= point(text, i) <= text.len(),
    decreases text.len() - i,
{
    if i < text.len() && text[i] != '.' {
        lemma_point(text, i + 1);
    }
}

/// Writes the digits of the whole part of a written number in groups of
/// three.
pub fn commas(text: &str) -> (r: String)
    ensures
        r@ == with_commas(text@),
{
    let n: usize = text.unicode_len();
    let from: usize = if n > 0 && text.get_char(0) == '-' {
        1
    } else {
        0
    };
    let mut to: usize = from;
    while to < n && text.get_char(to) != '.'
        invariant
            from <= to <= n,
            n == text@.len(),
            point(text@, from as int) == point(text@, to as int),
        decreases n - to,
    {
        to = to + 1;
    }
    let ghost digits = text@.subrange(from as int, to as int);
    let count: usize = to - from;
    // The first group holds what is left over when the others hold three.
    let first: usize = if count <= 3 {
        count
    } else if count % 3 == 0 {
        3
    } else {
        count % 3
    };
    let mut r = String::from_str(text.substring_char(0, from + first));
    let mut done: usize = first;
    proof {
        reveal_strlit(",");
        assert(text@.subrange(0, from + first) =~= text@.subrange(0, from as int) + digits.subrange(
            0,
            first as int,
        ));
    }
    while done < count
        invariant
            from + count == to,
            to <= n,
            n == text@.len(),
            digits == text@.subrange(from as int, to as int),
            done <= count,
            count > 0 ==> done >= 1,
            (count - done) % 3 == 0,
            r@ == text@.subrange(0, from as int) + in_threes(digits.subrange(0, done as int)),
        decreases count - done,
    {
        let ghost before = digits.subrange(0, done as int);
        r.append(",");
        r.append(text.substring_char(from + done, from + done + 3));
        proof {
            reveal_strlit(",");
            let more = digits.subrange(0, done + 3);
            assert(more.subrange(0, more.len() - 3) =~= before);
            assert(more.subrange(more.len() - 3, more.len() as int) =~= text@.subrange(
                from + done,
                from + done + 3,
            ));
            assert(r@ =~= text@.subrange(0, from as int) + in_threes(more));
        }
        done = done + 3;
    }
    proof {
        assert(digits.subrange(0, count as int) =~= digits);
    }
    r.append(text.substring_char(to, n));
    r
}

/// The kind of a format; a number without a format is a plain number.
pub open spec fn kind_of(format: Option<NumericFormat>) -> NumericFormatKind {
    match format {
        Some(f) => f.kind,
        None => NumericFormatKind::Number,
    }
}

/// The symbol of a format, or nothing.
pub open spec fn symbol_of(format: Option<NumericFormat>) -> Seq<char> {
    match format {
        Some(f) => match f.symbol {
            Some(s) => s@,
            None => Seq::empty(),
        },
        None => Seq::empty(),
    }
}

/// The places behind the point that a number of the given scale is written
/// with: those that are set, none for fewer than none; else two for a
/// currency, for a percentage two fewer than the number has, and for every
/// other kind those that the number has.
pub open spec fn places_of(kind: NumericFormatKind, decimals: Option<i16>, scale: i64) -> Option<
    i64,
> {
    match decimals {
        Some(d) => Some(
            if d < 0 {
                0
            } else {
                d as i64
            },
        ),
        None => if kind == NumericFormatKind::Currency {
            Some(2)
        } else if kind == NumericFormatKind::Percentage {
            Some(
                if scale <= 2 {
                    0
                } else {
                    (scale - 2) as i64
                },
            )
        } else {
            None
        },
    }
}

/// Whether the whole part is written in groups of three: where that is
/// set, and for a currency where nothing is set.
pub open spec fn uses_commas(kind: NumericFormatKind, commas: Option<bool>) -> bool {
    commas == Some(true) || (commas is None && kind == NumericFormatKind::Currency)
}

/// One hundred.
pub open spec fn hundred() -> DecimalView {
    DecimalView { negative: false, magnitude: seq![100u8], scale: 0 }
}

/// The digits of a number in a format, before commas and symbols: in
/// scientific notation for the exponential kind, with two places unless
/// others are set; times one hundred for a percentage; rounded to the
/// places that the number is written with. `None` where the arithmetic
/// gives no result.
pub open spec fn number_text(
    n: DecimalView,
    kind: NumericFormatKind,
    decimals: Option<i16>,
) -> Option<Seq<char>> {
    if kind == NumericFormatKind::Exponential {
        let places = match places_of(kind, decimals, n.scale) {
            Some(p) => p,
            None => 2,
        };
        match spec_with_digits(n, (places + 1) as u64) {
            Some(r) => Some(spec_to_scientific_text(r)),
            None => None,
        }
    } else {
        let scaled = if kind == NumericFormatKind::Percentage {
            spec_checked_mul(n, hundred())
        } else if n.in_range() {
            Some(n)
        } else {
            None
        };
        match scaled {
            Some(x) => match places_of(kind, decimals, n.scale) {
                Some(p) => match spec_rounded(x, p) {
                    Some(r) => Some(spec_to_plain_text(r)),
                    None => None,
                },
                None => Some(spec_to_plain_text(x)),
            },
            None => None,
        }
    }
}

/// A written number with the symbol of its currency in front, behind the
/// sign.
pub open spec fn with_symbol(symbol: Seq<char>, text: Seq<char>) -> Seq<char> {
    if text.len() > 0 && text[0] == '-' {
        seq!['-'] + symbol + text.subrange(1, text.len() as int)
    } else {
        symbol + text
    }
}

/// A number as it is displayed in a format. Where the arithmetic gives no
/// result, the number is written as it is edited.
pub open spec fn number_display(
    n: DecimalView,
    format: Option<NumericFormat>,
    decimals: Option<i16>,
    commas: Option<bool>,
) -> Seq<char> {
    let kind = kind_of(format);
    match number_text(n, kind, decimals) {
        Some(text) => {
            let grouped = if uses_commas(kind, commas) && kind != NumericFormatKind::Exponential {
                with_commas(text)
            } else {
                text
            };
            match kind {
                NumericFormatKind::Currency => with_symbol(symbol_of(format), grouped),
                NumericFormatKind::Percentage => grouped + seq!['%'],
                _ => grouped,
            }
        },
        None => spec_to_text(n),
    }
}

/// A value as it is displayed: a number in its format, every other value
/// as it is edited.
pub open spec fn spec_to_display(
    v: CellValueView,
    format: Option<NumericFormat>,
    decimals: Option<i16>,
    commas: Option<bool>,
) -> Seq<char> {
    match v {
        CellValueView::Number(n) => number_display(n, format, decimals, commas),
        _ => spec_to_edit(v),
    }
}

fn one_hundred() -> (r: Decimal)
    ensures
        r@ == hundred(),
{
    let mut magnitude: Vec<u8> = Vec::new();
    magnitude.push(100u8);
    assert(magnitude@ =~= seq![100u8]);
    Decimal { negative: false, magnitude, scale: 0 }
}

/// Writes the digits of a number in a format.
fn write_number(n: &Decimal, kind: NumericFormatKind, decimals: Option<i16>) -> (r: Option<String>)
    ensures
        r.deep_view() == number_text(n@, kind, decimals),
{
    let places: Option<i64> = match decimals {
        Some(d) => Some(
            if d < 0 {
                0i64
            } else {
                d as i64
            },
        ),
        None => if kind == NumericFormatKind::Currency {
            Some(2i64)
        } else if kind == NumericFormatKind::Percentage {
            Some(
                if n.scale <= 2 {
                    0i64
                } else {
                    n.scale - 2
                },
            )
        } else {
            None
        },
    };
    if kind == NumericFormatKind::Exponential {
        let p: i64 = match places {
            Some(p) => p,
            None => 2,
        };
        match n.with_digits((p + 1) as u64) {
            Some(r) => Some(r.to_scientific_text()),
            None => None,
        }
    } else {
        let scaled = if kind == NumericFormatKind::Percentage {
            n.checked_mul(&one_hundred())
        } else if n.check_in_range() {
            Some(n.clone())
        } else {
            None
        };
        match scaled {
            Some(x) => match places {
                Some(p) => match x.rounded(p) {
                    Some(r) => Some(r.to_plain_text()),
                    None => None,
                },
                None => Some(x.to_plain_text()),
            },
            None => None,
        }
    }
}

/// Puts the symbol of a currency in front of a written number, behind its
/// sign.
fn put_symbol(symbol: &str, text: &str) -> (r: String)
    ensures
        r@ == with_symbol(symbol@, text@),
{
    let n: usize = text.unicode_len();
    if n > 0 && text.get_char(0) == '-' {
        proof {
            reveal_strlit("-");
        }
        let mut r = String::from_str("-");
        r.append(symbol);
        r.append(text.substring_char(1, n));
        assert(r@ =~= seq!['-'] + symbol@ + text@.subrange(1, n as int));
        r
    } else {
        joined(symbol, text)
    }
}

impl CellValue {
    /// The text of the value as it is displayed: a number in the format, with
    /// the places and the commas given; every other value as it is edited.
    pub fn to_display(
        &self,
        numeric_format: Option<NumericFormat>,
        numeric_decimals: Option<i16>,
        numeric_commas: Option<bool>,
    ) -> (r: String)
        ensures
            r@ == spec_to_display(self@, numeric_format, numeric_decimals, numeric_commas),
    {
        match self {
            CellValue::Number(n) => {
                let kind = match &numeric_format {
                    Some(f) => f.kind,
                    None => NumericFormatKind::Number,
                };
                match write_number(n, kind, numeric_decimals) {
                    Some(text) => {
                        let use_commas = match numeric_commas {
                            Some(c) => c,
                            None => kind == NumericFormatKind::Currency,
                        };
                        let grouped = if use_commas && kind != NumericFormatKind::Exponential {
                            commas(text.as_str())
                        } else {
                            text
                        };
                        match kind {
                            NumericFormatKind::Currency => {
                                let symbol = match &numeric_format {
                                    Some(f) => match &f.symbol {
                                        Some(s) => s.clone(),
                                        None => String::new(),
                                    },
                                    None => String::new(),
                                };
                                put_symbol(symbol.as_str(), grouped.as_str())
                            },
                            NumericFormatKind::Percentage => {
                                proof {
                                    reveal_strlit("%");
                                }
                                let r = joined(grouped.as_str(), "%");
                                assert(r@ =~= grouped@ + seq!['%']);
                                r
                            },
                            _ => grouped,
                        }
                    },
                    None => n.to_text(),
                }
            },
            _ => self.to_edit(),
        }
    }
}

} // verus!
