//! What a cell holds, blocks of such values, and the runs of code cells.

use crate::decimal::{Decimal, DecimalView};
use crate::pos::SheetRect;
use vstd::prelude::*;

verus! {

/// The language of a code cell. Formulas are evaluated by this crate; code
/// in another language is run by the host.
#[derive(Clone, Copy, Debug, PartialEq, Eq, Hash, Structural)]
pub enum CodeCellLanguage {
    Formula,
    Python,
}

/// The source of a code cell.
#[derive(Debug, PartialEq)]
pub struct CodeCellValue {
    pub language: CodeCellLanguage,
    pub code: String,
}

pub struct CodeCellValueView {
    pub language: CodeCellLanguage,
    pub code: Seq<char>,
}

impl View for CodeCellValue {
    type V = CodeCellValueView;

    open spec fn view(&self) -> CodeCellValueView {
        CodeCellValueView { language: self.language, code: self.code@ }
    }
}

impl Clone for CodeCellValue {
    fn clone(&self) -> (r: CodeCellValue)
        ensures
            r@ == self@,
    {
        CodeCellValue { language: self.language, code: self.code.clone() }
    }
}

/// The value of one cell.
#[derive(Debug, PartialEq)]
pub enum CellValue {
    /// Nothing. A blank is never stored: writing one clears the cell.
    Blank,
    Text(String),
    Number(Decimal),
    /// The source of a code cell; its output is held by the cell's run.
    Code(CodeCellValue),
}

pub enum CellValueView {
    Blank,
    Text(Seq<char>),
    Number(DecimalView),
    Code(CodeCellValueView),
}

impl View for CellValue {
    type V = CellValueView;

    open spec fn view(&self) -> CellValueView {
        match self {
            CellValue::Blank => CellValueView::Blank,
            CellValue::Text(s) => CellValueView::Text(s@),
            CellValue::Number(n) => CellValueView::Number(n@),
            CellValue::Code(c) => CellValueView::Code(c@),
        }
    }
}

impl DeepView for CellValue {
    type V = CellValueView;

    open spec fn deep_view(&self) -> CellValueView {
        self@
    }
}

impl Clone for CellValue {
    fn clone(&self) -> (r: CellValue)
        ensures
            r@ == self@,
    {
        match self {
            CellValue::Blank => CellValue::Blank,
            CellValue::Text(s) => CellValue::Text(s.clone()),
            CellValue::Number(n) => CellValue::Number(n.clone()),
            CellValue::Code(c) => CellValue::Code(c.clone()),
        }
    }
}

/// The text of a value as it is edited: nothing for a blank, the digits of a
/// number, and the source of code.
pub open spec fn spec_to_edit(v: CellValueView) -> Seq<char> {
    match v {
        CellValueView::Blank => Seq::empty(),
        CellValueView::Text(s) => s,
        CellValueView::Number(n) => crate::decimal::spec_to_text(n),
        CellValueView::Code(c) => c.code,
    }
}

impl CellValue {
    /// The text of the value as it is edited.
    pub fn to_edit(&self) -> (r: String)
        ensures
            r@ == spec_to_edit(self@),
    {
        match self {
            CellValue::Blank => String::new(),
            CellValue::Text(s) => s.clone(),
            CellValue::Number(n) => n.to_text(),
            CellValue::Code(c) => c.code.clone(),
        }
    }

    pub fn is_blank(&self) -> (r: bool)
        ensures
            r == (self@ is Blank),
    {
        match self {
            CellValue::Blank => true,
            _ => false,
        }
    }

    pub fn is_code(&self) -> (r: bool)
        ensures
            r == (self@ is Code),
    {
        match self {
            CellValue::Code(_) => true,
            _ => false,
        }
    }
}

/// The value that a typed-in text stands for: nothing for the empty text, a
/// number where the text reads as one, and the text itself otherwise.
pub open spec fn spec_value_of_text(text: Seq<char>) -> CellValueView {
    if text.len() == 0 {
        CellValueView::Blank
    } else {
        match crate::decimal::spec_parse(text) {
            Some(n) => CellValueView::Number(n),
            None => CellValueView::Text(text),
        }
    }
}

/// Turns what a user typed into a cell into a value.
pub fn value_of_text(text: String) -> (r: CellValue)
    ensures
        r@ == spec_value_of_text(text@),
{
    if text.as_str().unicode_len() == 0 {
        CellValue::Blank
    } else {
        match Decimal::parse(text.as_str()) {
            Some(n) => CellValue::Number(n),
            None => CellValue::Text(text),
        }
    }
}

/// Copies a vector of values.
pub fn clone_values(v: &Vec<CellValue>) -> (r: Vec<CellValue>)
    ensures
        r.deep_view() == v.deep_view(),
{
    let mut r: Vec<CellValue> = Vec::new();
    let mut i: usize = 0;
    while i < v.len()
        invariant
            i <= v.len(),
            r.len() == i,
            forall|j: int| 0 <= j < i ==> r@[j]@ == v@[j]@,
        decreases v.len() - i,
    {
        r.push(v[i].clone());
        i = i + 1;
    }
    assert(r.deep_view() =~= v.deep_view());
    r
}

/// The index of a cell of a block stays below the block's area, and the area
/// of a block fits in 64 bits.
pub proof fn lemma_area_fits(dx: int, dy: int, w: int, h: int)
    requires
        0 <= dx <= w <= u32::MAX,
        0 <= dy <= h <= u32::MAX,
    ensures
        0 <= dy * w <= h * w <= 0xFFFF_FFFE_0000_0001,
        h * w == w * h,
        dx < w && dy < h ==> dy * w + dx < w * h,
        dx < w ==> (dy * w + dx) / w == dy && (dy * w + dx) % w == dx,
{
    assert(dy * w <= h * w) by (nonlinear_arith)
        requires
            0 <= dy <= h,
            0 <= w,
    ;
    assert(h * w <= 0xFFFF_FFFE_0000_0001) by (nonlinear_arith)
        requires
            0 <= h <= 0xFFFF_FFFF,
            0 <= w <= 0xFFFF_FFFF,
    ;
    assert(0 <= dy * w && h * w == w * h) by (nonlinear_arith)
        requires
            0 <= dy,
            0 <= w,
    ;
    if dx < w && dy < h {
        assert(dy * w + dx < w * h) by (nonlinear_arith)
            requires
                0 <= dx < w,
                0 <= dy < h,
        ;
    }
    if dx < w {
        assert((dy * w + dx) / w == dy && (dy * w + dx) % w == dx) by (nonlinear_arith)
            requires
                0 <= dx < w,
                0 <= dy,
        ;
    }
}

/// A rectangular block of values, `w` wide and `h` high, row by row.
#[derive(Debug, PartialEq)]
pub struct CellValues {
    w: u32,
    h: u32,
    values: Vec<CellValue>,
}

pub struct CellValuesView {
    pub w: u32,
    pub h: u32,
    pub values: Seq<CellValueView>,
}

impl CellValuesView {
    /// The block holds one value for each of its cells.
    pub open spec fn wf(self) -> bool {
        self.values.len() == self.w * self.h
    }

    /// The value at column `dx` and row `dy` of the block.
    pub open spec fn at(self, dx: int, dy: int) -> CellValueView {
        self.values[dy * self.w + dx]
    }
}

impl View for CellValues {
    type V = CellValuesView;

    closed spec fn view(&self) -> CellValuesView {
        CellValuesView { w: self.w, h: self.h, values: self.values.deep_view() }
    }
}

impl DeepView for CellValues {
    type V = CellValuesView;

    open spec fn deep_view(&self) -> CellValuesView {
        self@
    }
}

impl CellValues {
    #[verifier::type_invariant]
    closed spec fn inv(&self) -> bool {
        self.values@.len() == self.w * self.h
    }

    /// Recalls that the block holds one value for each of its cells.
    pub fn note_wf(&self)
        ensures
            self@.wf(),
    {
        proof {
            use_type_invariant(self);
        }
    }

    /// A block of one value.
    pub fn single(value: CellValue) -> (r: CellValues)
        ensures
            r@ == (CellValuesView { w: 1, h: 1, values: seq![value@] }),
    {
        let mut values: Vec<CellValue> = Vec::new();
        values.push(value);
        let r = CellValues { w: 1, h: 1, values };
        assert(r@.values =~= seq![value@]);
        r
    }

    /// A block with the given values, row by row. `None` unless there is one
    /// value for each cell.
    pub fn from_rows(w: u32, h: u32, values: Vec<CellValue>) -> (r: Option<CellValues>)
        ensures
            values.len() == w * h ==> r.is_some() && r.unwrap()@ == (CellValuesView {
                w,
                h,
                values: values.deep_view(),
            }),
            values.len() != w * h ==> r.is_none(),
    {
        proof {
            lemma_area_fits(w as int, h as int, w as int, h as int);
        }
        let cells: u64 = (w as u64) * (h as u64);
        if values.len() as u64 == cells {
            Some(CellValues { w, h, values })
        } else {
            None
        }
    }

    pub fn w(&self) -> (w: u32)
        ensures
            w == self@.w,
    {
        self.w
    }

    pub fn h(&self) -> (h: u32)
        ensures
            h == self@.h,
    {
        self.h
    }

    /// The number of values in the block.
    pub fn len(&self) -> (n: usize)
        ensures
            n == self@.values.len(),
            n == self@.w * self@.h,
    {
        proof {
            use_type_invariant(self);
        }
        self.values.len()
    }

    /// The `i`-th value, counting row by row.
    pub fn nth(&self, i: usize) -> (v: &CellValue)
        requires
            i < self@.values.len(),
        ensures
            v@ == self@.values[i as int],
    {
        &self.values[i]
    }

    /// The value at column `dx` and row `dy` of the block.
    pub fn get(&self, dx: u32, dy: u32) -> (v: Option<&CellValue>)
        ensures
            dx < self@.w && dy < self@.h ==> v.is_some() && v.unwrap()@ == self@.at(
                dx as int,
                dy as int,
            ),
            !(dx < self@.w && dy < self@.h) ==> v.is_none(),
    {
        proof {
            use_type_invariant(self);
        }
        if dx < self.w && dy < self.h {
            proof {
                lemma_area_fits(dx as int, dy as int, self.w as int, self.h as int);
            }
            let i: u64 = (dy as u64) * (self.w as u64) + (dx as u64);
            let n: usize = self.values.len();
            assert(i < n);
            assert(self.values.deep_view()[i as int] == self.values@[i as int]@);
            assert(self@.at(dx as int, dy as int) == self@.values[i as int]);
            let v = &self.values[i as usize];
            assert(v@ == self@.at(dx as int, dy as int));
            Some(v)
        } else {
            None
        }
    }
}

impl Clone for CellValues {
    fn clone(&self) -> (r: CellValues)
        ensures
            r@ == self@,
    {
        proof {
            use_type_invariant(self);
        }
        let values = clone_values(&self.values);
        assert(values@.len() == values.deep_view().len());
        assert(self.values@.len() == self.values.deep_view().len());
        CellValues { w: self.w, h: self.h, values }
    }
}

/// How the last run of a code cell ended.
#[derive(Debug, PartialEq)]
pub enum CodeRunResult {
    /// The values it produced.
    Values(CellValues),
    /// The message of the error it stopped with.
    Failed(String),
}

pub enum CodeRunResultView {
    Values(CellValuesView),
    Failed(Seq<char>),
}

impl View for CodeRunResult {
    type V = CodeRunResultView;

    open spec fn view(&self) -> CodeRunResultView {
        match self {
            CodeRunResult::Values(v) => CodeRunResultView::Values(v@),
            CodeRunResult::Failed(e) => CodeRunResultView::Failed(e@),
        }
    }
}

/// The outcome of running a code cell: the regions it read, its result, and
/// whether its output is kept from showing by other content in its way.
#[derive(Debug, PartialEq)]
pub struct CodeRun {
    pub cells_accessed: Vec<SheetRect>,
    pub result: CodeRunResult,
    pub spill_error: bool,
}

pub struct CodeRunView {
    pub cells_accessed: Seq<SheetRect>,
    pub result: CodeRunResultView,
    pub spill_error: bool,
}

impl CodeRunView {
    /// The width of the output: that of the values produced, or one cell
    /// for an error and for a run whose output does not show.
    pub open spec fn output_w(self) -> u32 {
        match self.result {
            CodeRunResultView::Values(v) => if self.spill_error || v.w == 0 || v.h == 0 {
                1
            } else {
                v.w
            },
            CodeRunResultView::Failed(_) => 1,
        }
    }

    /// The height of the output.
    pub open spec fn output_h(self) -> u32 {
        match self.result {
            CodeRunResultView::Values(v) => if self.spill_error || v.w == 0 || v.h == 0 {
                1
            } else {
                v.h
            },
            CodeRunResultView::Failed(_) => 1,
        }
    }

    /// The same run with another spill flag.
    pub open spec fn with_spill(self, spill_error: bool) -> CodeRunView {
        CodeRunView { spill_error, ..self }
    }
}

impl View for CodeRun {
    type V = CodeRunView;

    open spec fn view(&self) -> CodeRunView {
        CodeRunView {
            cells_accessed: self.cells_accessed@,
            result: self.result@,
            spill_error: self.spill_error,
        }
    }
}

impl DeepView for CodeRun {
    type V = CodeRunView;

    open spec fn deep_view(&self) -> CodeRunView {
        self@
    }
}

impl Clone for CodeRunResult {
    fn clone(&self) -> (r: CodeRunResult)
        ensures
            r@ == self@,
    {
        match self {
            CodeRunResult::Values(v) => CodeRunResult::Values(v.clone()),
            CodeRunResult::Failed(e) => CodeRunResult::Failed(e.clone()),
        }
    }
}

impl Clone for CodeRun {
    fn clone(&self) -> (r: CodeRun)
        ensures
            r@ == self@,
    {
        let cells_accessed = self.cells_accessed.clone();
        assert(cells_accessed@ =~= self.cells_accessed@);
        CodeRun { cells_accessed, result: self.result.clone(), spill_error: self.spill_error }
    }
}

impl CodeRun {
    /// The width and height of the output.
    pub fn output_size(&self) -> (r: (u32, u32))
        ensures
            r.0 == self@.output_w(),
            r.1 == self@.output_h(),
            r.0 >= 1,
            r.1 >= 1,
    {
        match &self.result {
            CodeRunResult::Values(v) => {
                if self.spill_error || v.w() == 0 || v.h() == 0 {
                    (1, 1)
                } else {
                    (v.w(), v.h())
                }
            },
            CodeRunResult::Failed(_) => (1, 1),
        }
    }
}

} // verus!
