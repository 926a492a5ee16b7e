//! Series: how a run of values goes on when it is dragged out over more
//! cells.

use crate::decimal::{
    spec_checked_add, spec_checked_div, spec_checked_mul, spec_checked_sub, spec_same_as, Decimal,
    DecimalView,
};
use crate::values::{clone_values, CellValue, CellValueView};
use vstd::prelude::*;

verus! {

/// The values to go on from, the number of cells to fill, and whether they
/// lie before the values (`negative`) or after them.
#[derive(Debug, PartialEq)]
pub struct SeriesOptions {
    pub series: Vec<CellValue>,
    pub spaces: i32,
    pub negative: bool,
}

/// The number of cells to fill: none for a negative number of spaces.
pub open spec fn cells_to_fill(spaces: i32) -> nat {
    if spaces > 0 {
        spaces as nat
    } else {
        0
    }
}

/// The values repeated over the cells to fill. Before the values the
/// repetition runs backwards, so that it ends with the last of them.
pub open spec fn spec_copy_series(series: Seq<CellValueView>, spaces: i32, negative: bool) -> Seq<
    CellValueView,
> {
    let n = cells_to_fill(spaces) as int;
    let len = series.len() as int;
    if len == 0 {
        Seq::empty()
    } else if negative {
        Seq::new(n as nat, |j: int| series[len - 1 - ((n - 1 - j) % len)])
    } else {
        Seq::new(n as nat, |j: int| series[j % len])
    }
}

/// The number that a value counts as: its own if it is one, else zero.
pub open spec fn number_of(v: CellValueView) -> DecimalView {
    match v {
        CellValueView::Number(n) => n,
        _ => DecimalView::zero(),
    }
}

/// The difference from each of the first `k + 1` values to the next, if it
/// is the same number throughout.
pub open spec fn common_difference(series: Seq<CellValueView>, k: int) -> Option<DecimalView>
    decreases k,
{
    if k < 1 || k >= series.len() {
        None
    } else {
        let d = spec_checked_sub(number_of(series[k]), number_of(series[k - 1]));
        if k == 1 {
            d
        } else {
            match (common_difference(series, k - 1), d) {
                (Some(a), Some(b)) => if spec_same_as(b, a) {
                    Some(a)
                } else {
                    None
                },
                _ => None,
            }
        }
    }
}

/// The quotient of each of the first `k + 1` values and the one before it,
/// if none of them but the last is zero and it is the same number
/// throughout.
pub open spec fn common_quotient(series: Seq<CellValueView>, k: int) -> Option<DecimalView>
    decreases k,
{
    if k < 1 || k >= series.len() {
        None
    } else {
        let q = spec_checked_div(number_of(series[k]), number_of(series[k - 1]));
        if k == 1 {
            q
        } else {
            match (common_quotient(series, k - 1), q) {
                (Some(a), Some(b)) => if spec_same_as(b, a) {
                    Some(a)
                } else {
                    None
                },
                _ => None,
            }
        }
    }
}

/// The value that follows `current` in the series: by the difference if
/// there is one, else by the quotient; backwards with `negative`.
pub open spec fn next_in_series(
    current: DecimalView,
    difference: Option<DecimalView>,
    quotient: Option<DecimalView>,
    negative: bool,
) -> Option<DecimalView> {
    match (difference, quotient) {
        (Some(d), _) => if negative {
            spec_checked_sub(current, d)
        } else {
            spec_checked_add(current, d)
        },
        (None, Some(q)) => if negative {
            spec_checked_div(current, q)
        } else {
            spec_checked_mul(current, q)
        },
        (None, None) => None,
    }
}

/// The `count` values that follow `current`, if each can be computed.
pub open spec fn continued(
    current: DecimalView,
    difference: Option<DecimalView>,
    quotient: Option<DecimalView>,
    negative: bool,
    count: nat,
) -> Option<Seq<DecimalView>>
    decreases count,
{
    if count == 0 {
        Some(Seq::empty())
    } else {
        match next_in_series(current, difference, quotient, negative) {
            Some(v) => match continued(v, difference, quotient, negative, (count - 1) as nat) {
                Some(rest) => Some(seq![v] + rest),
                None => None,
            },
            None => None,
        }
    }
}

/// How a series of numbers goes on: by its common difference, else by its
/// common quotient, from its last value on, or with `negative` backwards
/// from its first value, the result then being in the order of the cells.
/// Where the values have neither in common, or a value cannot be computed,
/// the values are repeated.
pub open spec fn spec_find_number_series(
    series: Seq<CellValueView>,
    spaces: i32,
    negative: bool,
) -> Seq<CellValueView> {
    let len = series.len() as int;
    let difference = common_difference(series, len - 1);
    let quotient = common_quotient(series, len - 1);
    if len < 2 || (difference is None && quotient is None) {
        spec_copy_series(series, spaces, negative)
    } else {
        let start = if negative {
            number_of(series[0])
        } else {
            number_of(series[len - 1])
        };
        match continued(start, difference, quotient, negative, cells_to_fill(spaces)) {
            Some(values) => {
                let n = values.len() as int;
                Seq::new(
                    values.len(),
                    |j: int|
                        CellValueView::Number(
                            if negative {
                                values[n - 1 - j]
                            } else {
                                values[j]
                            },
                        ),
                )
            },
            None => spec_copy_series(series, spaces, negative),
        }
    }
}

/// Whether every value is a number.
pub open spec fn all_numbers(series: Seq<CellValueView>) -> bool {
    forall|i: int| 0 <= i < series.len() ==> (#[trigger] series[i]) is Number
}

/// How a series goes on: nothing follows from no values; numbers go on as
/// a series of numbers; other values are repeated.
pub open spec fn spec_find_auto_complete(series: Seq<CellValueView>, spaces: i32, negative: bool) -> Seq<
    CellValueView,
> {
    if series.len() == 0 {
        Seq::empty()
    } else if all_numbers(series) {
        spec_find_number_series(series, spaces, negative)
    } else {
        spec_copy_series(series, spaces, negative)
    }
}

/// Repeats the values over the cells to fill.
pub fn copy_series(options: SeriesOptions) -> (r: Vec<CellValue>)
    ensures
        r.deep_view() == spec_copy_series(
            options.series.deep_view(),
            options.spaces,
            options.negative,
        ),
{
    let SeriesOptions { series, spaces, negative } = options;
    let mut r: Vec<CellValue> = Vec::new();
    let len: usize = series.len();
    if len == 0 || spaces <= 0 {
        assert(r.deep_view() =~= spec_copy_series(series.deep_view(), spaces, negative));
        return r;
    }
    let n: usize = spaces as usize;
    let mut j: usize = 0;
    while j < n
        invariant
            j <= n,
            n == spaces,
            spaces > 0,
            len == series.len(),
            len > 0,
            r.len() == j,
            forall|i: int|
                0 <= i < j ==> (#[trigger] r@[i])@ == spec_copy_series(
                    series.deep_view(),
                    spaces,
                    negative,
                )[i],
        decreases n - j,
    {
        let at: usize = if negative {
            len - 1 - ((n - 1 - j) % len)
        } else {
            j % len
        };
        r.push(series[at].clone());
        j = j + 1;
    }
    assert(r.deep_view() =~= spec_copy_series(series.deep_view(), spaces, negative));
    r
}

fn number_in(v: &CellValue) -> (r: Decimal)
    ensures
        r@ == number_of(v@),
{
    match v {
        CellValue::Number(n) => n.clone(),
        _ => Decimal::zero(),
    }
}

fn same_or_none(common: Option<Decimal>, next: Option<Decimal>) -> (r: Option<Decimal>)
    ensures
        r.deep_view() == (match (common.deep_view(), next.deep_view()) {
            (Some(a), Some(b)) => if spec_same_as(b, a) {
                Some(a)
            } else {
                None
            },
            _ => None,
        }),
{
    match (common, next) {
        (Some(a), Some(b)) => {
            if b.same_as(&a) {
                Some(a)
            } else {
                None
            }
        },
        _ => None,
    }
}

fn next_value(
    current: &Decimal,
    difference: &Option<Decimal>,
    quotient: &Option<Decimal>,
    negative: bool,
) -> (r: Option<Decimal>)
    ensures
        r.deep_view() == next_in_series(
            current@,
            difference.deep_view(),
            quotient.deep_view(),
            negative,
        ),
{
    match (difference, quotient) {
        (Some(d), _) => {
            if negative {
                current.checked_sub(d)
            } else {
                current.checked_add(d)
            }
        },
        (None, Some(q)) => {
            if negative {
                current.checked_div(q)
            } else {
                current.checked_mul(q)
            }
        },
        (None, None) => None,
    }
}

/// Continues a series of numbers over the cells to fill.
pub fn find_number_series(options: SeriesOptions) -> (r: Vec<CellValue>)
    ensures
        r.deep_view() == spec_find_number_series(
            options.series.deep_view(),
            options.spaces,
            options.negative,
        ),
{
    let len: usize = options.series.len();
    // a single number is repeated
    if len < 2 {
        return copy_series(options);
    }
    let ghost series = options.series.deep_view();
    let first = number_in(&options.series[0]);
    let second = number_in(&options.series[1]);
    let mut difference: Option<Decimal> = second.checked_sub(&first);
    let mut quotient: Option<Decimal> = second.checked_div(&first);
    let mut k: usize = 2;
    while k < len
        invariant
            2 <= k <= len,
            len == options.series.len(),
            series == options.series.deep_view(),
            difference.deep_view() == common_difference(series, k - 1),
            quotient.deep_view() == common_quotient(series, k - 1),
        decreases len - k,
    {
        let before = number_in(&options.series[k - 1]);
        let here = number_in(&options.series[k]);
        difference = same_or_none(difference, here.checked_sub(&before));
        quotient = same_or_none(quotient, here.checked_div(&before));
        k = k + 1;
    }
    if difference.is_none() && quotient.is_none() {
        return copy_series(options);
    }
    let negative = options.negative;
    let start = if negative {
        number_in(&options.series[0])
    } else {
        number_in(&options.series[len - 1])
    };
    let n: usize = if options.spaces > 0 {
        options.spaces as usize
    } else {
        0
    };
    let ghost whole = continued(
        start@,
        difference.deep_view(),
        quotient.deep_view(),
        negative,
        n as nat,
    );
    let mut values: Vec<Decimal> = Vec::new();
    let mut current = start;
    let mut j: usize = 0;
    assert(whole is None ==> spec_find_number_series(
        options.series.deep_view(),
        options.spaces,
        options.negative,
    ) == spec_copy_series(options.series.deep_view(), options.spaces, options.negative));
    while j < n
        invariant
            j <= n,
            values.len() == j,
            whole is None ==> spec_find_number_series(
                options.series.deep_view(),
                options.spaces,
                options.negative,
            ) == spec_copy_series(options.series.deep_view(), options.spaces, options.negative),
            whole == (match continued(
                current@,
                difference.deep_view(),
                quotient.deep_view(),
                negative,
                (n - j) as nat,
            ) {
                Some(rest) => Some(values.deep_view() + rest),
                None => None,
            }),
        decreases n - j,
    {
        match next_value(&current, &difference, &quotient, negative) {
            Some(v) => {
                proof {
                    let rest = continued(
                        v@,
                        difference.deep_view(),
                        quotient.deep_view(),
                        negative,
                        (n - j - 1) as nat,
                    );
                    if rest is Some {
                        assert(values.deep_view() + (seq![v@] + rest.unwrap())
                            =~= values.deep_view().push(v@) + rest.unwrap());
                    }
                }
                let ghost before = values.deep_view();
                values.push(v.clone());
                assert(values.deep_view() =~= before.push(v@));
                current = v;
            },
            None => {
                assert(continued(
                    current@,
                    difference.deep_view(),
                    quotient.deep_view(),
                    negative,
                    (n - j) as nat,
                ) is None);
                assert(whole is None);
                return copy_series(options);
            },
        }
        j = j + 1;
    }
    assert(whole == Some(values.deep_view())) by {
        assert(values.deep_view() + Seq::<DecimalView>::empty() =~= values.deep_view());
    }
    let mut r: Vec<CellValue> = Vec::new();
    let mut i: usize = 0;
    while i < n
        invariant
            i <= n,
            n == values.len(),
            r.len() == i,
            forall|t: int|
                0 <= t < i ==> (#[trigger] r@[t])@ == CellValueView::Number(
                    if negative {
                        values.deep_view()[n - 1 - t]
                    } else {
                        values.deep_view()[t]
                    },
                ),
        decreases n - i,
    {
        let at: usize = if negative {
            n - 1 - i
        } else {
            i
        };
        r.push(CellValue::Number(values[at].clone()));
        i = i + 1;
    }
    assert(r.deep_view() =~= spec_find_number_series(series, options.spaces, negative));
    r
}

/// Whether every value is a number.
pub fn is_number_series(series: &Vec<CellValue>) -> (r: bool)
    ensures
        r == all_numbers(series.deep_view()),
{
    let mut i: usize = 0;
    while i < series.len()
        invariant
            i <= series.len(),
            forall|j: int| 0 <= j < i ==> (#[trigger] series.deep_view()[j]) is Number,
        decreases series.len() - i,
    {
        match &series[i] {
            CellValue::Number(_) => {},
            _ => {
                assert(!(series.deep_view()[i as int] is Number));
                return false;
            },
        }
        i = i + 1;
    }
    true
}

/// Continues a series over the cells to fill.
pub fn find_auto_complete(options: SeriesOptions) -> (r: Vec<CellValue>)
    ensures
        r.deep_view() == spec_find_auto_complete(
            options.series.deep_view(),
            options.spaces,
            options.negative,
        ),
{
    if options.series.len() == 0 {
        let r: Vec<CellValue> = Vec::new();
        assert(r.deep_view() =~= Seq::<CellValueView>::empty());
        return r;
    }
    if is_number_series(&options.series) {
        return find_number_series(options);
    }
    copy_series(options)
}

} // verus!
