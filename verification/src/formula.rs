//! Formulas: sums of numbers and of the values of cells.
//!
//! A formula is a list of terms joined by `+`, with spaces allowed around
//! them and an optional `=` in front. A term is a number written in digits,
//! or a cell named by its column in capital letters and its row in digits:
//! `A0` is the cell of column 0 and row 0, `AB7` that of column 27 and row 7.

use crate::decimal::{spec_checked_add, spec_parse, Decimal, DecimalView};
use crate::pos::{Pos, SheetId, SheetRect};
use crate::sheet::{spec_display_value, Sheet, SheetView};
use crate::values::{
    CellValue, CellValueView, CellValues, CellValuesView, CodeRun, CodeRunResult,
    CodeRunResultView, CodeRunView,
};
use vstd::prelude::*;

verus! {

/// The kinds of characters that a formula is made of.
#[derive(Clone, Copy, Debug, PartialEq, Eq, Structural)]
pub enum CharClass {
    Space,
    Upper,
    Digit,
}

pub open spec fn in_class(c: char, class: CharClass) -> bool {
    match class {
        CharClass::Space => c == ' ',
        CharClass::Upper => 'A' <= c && c <= 'Z',
        CharClass::Digit => '0' <= c && c <= '9',
    }
}

/// Where the run of characters of one class that starts at `i` ends.
pub open spec fn run_end(s: Seq<char>, i: int, class: CharClass) -> int
    decreases s.len() - i,
{
    if 0 <= i < s.len() && in_class(s[i], class) {
        run_end(s, i + 1, class)
    } else {
        i
    }
}

pub proof fn lemma_run_end(s: Seq<char>, i: int, class: CharClass)
    requires
        0 <= i <= s.len(),
    ensures
        i <= run_end(s, i, class) <= s.len(),
        forall|k: int| i <= k < run_end(s, i, class) ==> in_class(#[trigger] s[k], class),
        run_end(s, i, class) < s.len() ==> !in_class(s[run_end(s, i, class)], class),
    decreases s.len() - i,
{
    if i < s.len() && in_class(s[i], class) {
        lemma_run_end(s, i + 1, class);
    }
}

/// The number that a string of places denotes in a base, the character of
/// code `low` standing for nothing.
pub open spec fn place_value(s: Seq<char>, base: int, low: int) -> int
    decreases s.len(),
{
    if s.len() == 0 {
        0
    } else {
        place_value(s.drop_last(), base, low) * base + (s.last() as int - low)
    }
}

/// Reading on never makes the number smaller.
pub proof fn lemma_place_value_grows(s: Seq<char>, k: int, base: int, low: int)
    requires
        0 <= k <= s.len(),
        base >= 1,
        forall|j: int| 0 <= j < s.len() ==> (#[trigger] s[j]) as int >= low,
    ensures
        0 <= place_value(s.take(k), base, low) <= place_value(s, base, low),
    decreases s.len() - k,
{
    if k == s.len() {
        assert(s.take(k) =~= s);
        lemma_place_value_nonnegative(s, base, low);
    } else {
        lemma_place_value_grows(s, k + 1, base, low);
        let t = s.take(k + 1);
        assert(t.drop_last() =~= s.take(k));
        let v = place_value(s.take(k), base, low);
        lemma_place_value_nonnegative(s.take(k), base, low);
        assert(v * base >= v) by (nonlinear_arith)
            requires
                v >= 0,
                base >= 1,
        ;
    }
}

pub proof fn lemma_place_value_nonnegative(s: Seq<char>, base: int, low: int)
    requires
        base >= 1,
        forall|j: int| 0 <= j < s.len() ==> (#[trigger] s[j]) as int >= low,
    ensures
        place_value(s, base, low) >= 0,
    decreases s.len(),
{
    if s.len() > 0 {
        lemma_place_value_nonnegative(s.drop_last(), base, low);
        let v = place_value(s.drop_last(), base, low);
        assert(v * base >= 0) by (nonlinear_arith)
            requires
                v >= 0,
                base >= 1,
        ;
    }
}

/// The column that capital letters name: `A` is 0, `Z` is 25, `AA` is 26.
pub open spec fn spec_column(s: Seq<char>) -> Option<i64> {
    if 1 <= place_value(s, 26, 64) <= i64::MAX {
        Some((place_value(s, 26, 64) - 1) as i64)
    } else {
        None
    }
}

/// The row that digits name.
pub open spec fn spec_row(s: Seq<char>) -> Option<i64> {
    if 0 <= place_value(s, 10, 48) <= i64::MAX {
        Some(place_value(s, 10, 48) as i64)
    } else {
        None
    }
}

/// How a formula goes on behind a term.
pub enum Next {
    /// It ends.
    Done,
    /// Another term follows, from the index given.
    More(int),
    /// Something else follows.
    Bad,
}

pub open spec fn next_after(code: Seq<char>, c: int) -> Next {
    let d = run_end(code, c, CharClass::Space);
    if d >= code.len() {
        Next::Done
    } else if code[d] == '+' {
        Next::More(d + 1)
    } else {
        Next::Bad
    }
}

pub open spec fn syntax_message() -> Seq<char> {
    "bad formula"@
}

pub open spec fn range_message() -> Seq<char> {
    "out of range"@
}

pub open spec fn type_message() -> Seq<char> {
    "not a number"@
}

/// A run that ended with an error.
pub open spec fn failed(message: Seq<char>, accessed: Seq<SheetRect>) -> CodeRunView {
    CodeRunView {
        cells_accessed: accessed,
        result: CodeRunResultView::Failed(message),
        spill_error: false,
    }
}

/// A run that produced one number.
pub open spec fn finished(sum: DecimalView, accessed: Seq<SheetRect>) -> CodeRunView {
    CodeRunView {
        cells_accessed: accessed,
        result: CodeRunResultView::Values(
            CellValuesView { w: 1, h: 1, values: seq![CellValueView::Number(sum)] },
        ),
        spill_error: false,
    }
}

/// The number that a cell contributes to a sum: what it shows if that is a
/// number, and zero if it shows nothing.
pub open spec fn number_at(sheet: SheetView, pos: Pos) -> Option<DecimalView> {
    match spec_display_value(sheet, pos) {
        Some(CellValueView::Number(n)) => Some(n),
        Some(_) => None,
        None => Some(DecimalView { negative: false, magnitude: Seq::empty(), scale: 0 }),
    }
}

/// The run that evaluating the terms from index `i` on gives, the terms
/// before adding up to `sum` and having read the cells `accessed`.
pub open spec fn eval_terms(
    sheet: SheetView,
    code: Seq<char>,
    i: int,
    sum: DecimalView,
    accessed: Seq<SheetRect>,
) -> CodeRunView
    decreases code.len() - i,
{
    let a = run_end(code, i, CharClass::Space);
    if i < 0 || a < i || a >= code.len() {
        failed(syntax_message(), accessed)
    } else if in_class(code[a], CharClass::Upper) {
        let b = run_end(code, a, CharClass::Upper);
        let c = run_end(code, b, CharClass::Digit);
        if c <= b || b <= a {
            failed(syntax_message(), accessed)
        } else {
            match (spec_column(code.subrange(a, b)), spec_row(code.subrange(b, c))) {
                (Some(x), Some(y)) => {
                    let pos = Pos { x, y };
                    let read = accessed.push(SheetRect { min: pos, max: pos, sheet_id: sheet.id });
                    match number_at(sheet, pos) {
                        Some(n) => eval_rest(sheet, code, i, c, spec_checked_add(sum, n), read),
                        None => failed(type_message(), read),
                    }
                },
                _ => failed(range_message(), accessed),
            }
        }
    } else if in_class(code[a], CharClass::Digit) {
        let c = run_end(code, a, CharClass::Digit);
        if c <= a {
            failed(syntax_message(), accessed)
        } else {
            match spec_parse(code.subrange(a, c)) {
                Some(n) => eval_rest(sheet, code, i, c, spec_checked_add(sum, n), accessed),
                None => failed(range_message(), accessed),
            }
        }
    } else {
        failed(syntax_message(), accessed)
    }
}

/// The run that follows from a term that ended at index `c` and brought the
/// sum to `sum`.
pub open spec fn eval_rest(
    sheet: SheetView,
    code: Seq<char>,
    i: int,
    c: int,
    sum: Option<DecimalView>,
    accessed: Seq<SheetRect>,
) -> CodeRunView
    decreases code.len() - i, 0nat,
    when i < c
{
    match sum {
        None => failed(range_message(), accessed),
        Some(total) => match next_after(code, c) {
            Next::Done => finished(total, accessed),
            Next::More(j) => if j <= c {
                failed(syntax_message(), accessed)
            } else {
                eval_terms(sheet, code, j, total, accessed)
            },
            Next::Bad => failed(syntax_message(), accessed),
        },
    }
}

/// Where the terms of a formula start: behind a leading `=`, if there is one.
pub open spec fn formula_start(code: Seq<char>) -> int {
    let a = run_end(code, 0, CharClass::Space);
    if 0 <= a < code.len() && code[a] == '=' {
        a + 1
    } else {
        0
    }
}

/// The run that evaluating a formula on a sheet gives.
pub open spec fn spec_evaluate(sheet: SheetView, code: Seq<char>) -> CodeRunView {
    eval_terms(
        sheet,
        code,
        formula_start(code),
        DecimalView { negative: false, magnitude: Seq::empty(), scale: 0 },
        Seq::empty(),
    )
}

fn char_in_class(c: char, class: CharClass) -> (r: bool)
    ensures
        r == in_class(c, class),
{
    match class {
        CharClass::Space => c == ' ',
        CharClass::Upper => 'A' <= c && c <= 'Z',
        CharClass::Digit => '0' <= c && c <= '9',
    }
}

/// Finds the end of the run of characters of one class that starts at `i`.
fn scan(s: &str, n: usize, i: usize, class: CharClass) -> (j: usize)
    requires
        n == s@.len(),
        i <= n,
    ensures
        j == run_end(s@, i as int, class),
        i <= j <= n,
{
    let mut j: usize = i;
    while j < n && char_in_class(s.get_char(j), class)
        invariant
            n == s@.len(),
            i <= j <= n,
            run_end(s@, i as int, class) == run_end(s@, j as int, class),
        decreases n - j,
    {
        j = j + 1;
    }
    j
}

/// Reads the places of `s` from `a` to `b` as a number in a base.
fn read_places(s: &str, a: usize, b: usize, base: u8, low: u8) -> (r: Option<i64>)
    requires
        a <= b <= s@.len(),
        1 <= base <= 26,
        forall|k: int| a <= k < b ==> low <= (#[trigger] s@[k]) as int <= low + base,
    ensures
        r.is_some() == (place_value(s@.subrange(a as int, b as int), base as int, low as int)
            <= i64::MAX),
        r matches Some(v) ==> v == place_value(
            s@.subrange(a as int, b as int),
            base as int,
            low as int,
        ),
        place_value(s@.subrange(a as int, b as int), base as int, low as int) >= 0,
{
    let ghost t = s@.subrange(a as int, b as int);
    let mut v: i64 = 0;
    let mut k: usize = a;
    proof {
        assert(t.take(0) =~= Seq::<char>::empty());
        lemma_place_value_nonnegative(t, base as int, low as int);
    }
    while k < b
        invariant
            a <= k <= b <= s@.len(),
            1 <= base <= 26,
            t == s@.subrange(a as int, b as int),
            forall|j: int| a <= j < b ==> low <= (#[trigger] s@[j]) as int <= low + base,
            forall|j: int| 0 <= j < t.len() ==> (#[trigger] t[j]) as int >= low,
            0 <= v,
            v == place_value(t.take(k - a), base as int, low as int),
        decreases b - k,
    {
        let c: char = s.get_char(k);
        let d: i64 = (c as u32 - low as u32) as i64;
        proof {
            assert(t.take(k - a + 1).drop_last() =~= t.take(k - a));
            assert(t.take(k - a + 1).last() == s@[k as int]);
            lemma_place_value_grows(t, k - a + 1, base as int, low as int);
        }
        if v > (i64::MAX - d) / (base as i64) {
            assert(v * base + d > i64::MAX) by (nonlinear_arith)
                requires
                    v > (i64::MAX - d) / (base as int),
                    base >= 1,
                    0 <= d,
            ;
            return None;
        }
        assert(0 <= v * base + d <= i64::MAX) by (nonlinear_arith)
            requires
                0 <= v <= (i64::MAX - d) / (base as int),
                base >= 1,
                0 <= d <= 26,
        ;
        v = v * (base as i64) + d;
        k = k + 1;
    }
    assert(t.take(b - a) =~= t);
    Some(v)
}

fn zero_view() -> (r: Decimal)
    ensures
        r@ == (DecimalView { negative: false, magnitude: Seq::<u8>::empty(), scale: 0 }),
{
    Decimal::zero()
}

/// The number that a cell contributes to a sum.
fn cell_number(sheet: &Sheet, pos: Pos) -> (r: Option<Decimal>)
    ensures
        r.deep_view() == number_at(sheet@, pos),
{
    match sheet.display_value(pos) {
        Some(CellValue::Number(n)) => Some(n),
        Some(_) => None,
        None => Some(zero_view()),
    }
}

fn failed_run(message: &str, accessed: Vec<SheetRect>) -> (r: CodeRun)
    ensures
        r@ == failed(message@, accessed@),
{
    CodeRun {
        cells_accessed: accessed,
        result: CodeRunResult::Failed(String::from_str(message)),
        spill_error: false,
    }
}

fn finished_run(sum: Decimal, accessed: Vec<SheetRect>) -> (r: CodeRun)
    ensures
        r@ == finished(sum@, accessed@),
{
    CodeRun {
        cells_accessed: accessed,
        result: CodeRunResult::Values(CellValues::single(CellValue::Number(sum))),
        spill_error: false,
    }
}

/// Evaluates a formula on a sheet.
pub fn evaluate(sheet: &Sheet, code: &str) -> (r: CodeRun)
    ensures
        r@ == spec_evaluate(sheet@, code@),
{
    let n: usize = code.unicode_len();
    let first: usize = scan(code, n, 0, CharClass::Space);
    let mut i: usize = if first < n && code.get_char(first) == '=' {
        first + 1
    } else {
        0
    };
    let mut sum: Decimal = zero_view();
    let mut accessed: Vec<SheetRect> = Vec::new();
    loop
        invariant
            n == code@.len(),
            i <= n,
            spec_evaluate(sheet@, code@) == eval_terms(sheet@, code@, i as int, sum@, accessed@),
        decreases n - i,
    {
        proof {
            lemma_run_end(code@, i as int, CharClass::Space);
        }
        let a: usize = scan(code, n, i, CharClass::Space);
        if a >= n {
            return failed_run("bad formula", accessed);
        }
        let head: char = code.get_char(a);
        let c: usize;
        let term: Option<Decimal>;
        if char_in_class(head, CharClass::Upper) {
            let b: usize = scan(code, n, a, CharClass::Upper);
            c = scan(code, n, b, CharClass::Digit);
            proof {
                lemma_run_end(code@, a as int, CharClass::Upper);
                lemma_run_end(code@, b as int, CharClass::Digit);
            }
            if c <= b {
                return failed_run("bad formula", accessed);
            }
            let column = read_places(code, a, b, 26, 64);
            let row = read_places(code, b, c, 10, 48);
            proof {
                let letters = code@.subrange(a as int, b as int);
                assert(letters.drop_last().len() >= 0);
                lemma_place_value_nonnegative(letters.drop_last(), 26, 64);
                assert(letters.last() == code@[b - 1]);
                let v = place_value(letters.drop_last(), 26, 64);
                assert(v * 26 >= 0) by (nonlinear_arith)
                    requires
                        v >= 0,
                ;
                assert(place_value(letters, 26, 64) >= 1);
            }
            match (column, row) {
                (Some(x), Some(y)) => {
                    let pos = Pos { x: x - 1, y };
                    accessed.push(SheetRect { min: pos, max: pos, sheet_id: sheet.id() });
                    match cell_number(sheet, pos) {
                        Some(value) => {
                            term = sum.checked_add(&value);
                        },
                        None => {
                            return failed_run("not a number", accessed);
                        },
                    }
                },
                _ => {
                    return failed_run("out of range", accessed);
                },
            }
        } else if char_in_class(head, CharClass::Digit) {
            c = scan(code, n, a, CharClass::Digit);
            proof {
                lemma_run_end(code@, a as int, CharClass::Digit);
            }
            match Decimal::parse(code.substring_char(a, c)) {
                Some(value) => {
                    term = sum.checked_add(&value);
                },
                None => {
                    return failed_run("out of range", accessed);
                },
            }
        } else {
            return failed_run("bad formula", accessed);
        }
        match term {
            None => {
                return failed_run("out of range", accessed);
            },
            Some(total) => {
                proof {
                    lemma_run_end(code@, c as int, CharClass::Space);
                }
                let d: usize = scan(code, n, c, CharClass::Space);
                if d >= n {
                    return finished_run(total, accessed);
                }
                if code.get_char(d) != '+' {
                    return failed_run("bad formula", accessed);
                }
                sum = total;
                i = d + 1;
            },
        }
    }
}

} // verus!
