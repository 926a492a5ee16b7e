//! The formatting attributes of cells.

use crate::formats::Format;
use crate::run_length::RunLengthEncoding;
use vstd::prelude::*;

verus! {

/// How the text of a cell is aligned.
#[derive(Clone, Copy, Debug, PartialEq, Eq, Hash, Structural)]
pub enum CellAlign {
    Center,
    Left,
    Right,
}

/// How the text of a cell is aligned from top to bottom.
#[derive(Clone, Copy, Debug, PartialEq, Eq, Hash, Structural)]
pub enum CellVerticalAlign {
    Top,
    Middle,
    Bottom,
}

/// What happens to text that is wider than its cell.
#[derive(Clone, Copy, Debug, PartialEq, Eq, Hash, Structural)]
pub enum CellWrap {
    /// It runs on over the cells to the right.
    Overflow,
    /// It goes on in the next line.
    Wrap,
    /// It is cut off.
    Clip,
}

impl Default for CellWrap {
    fn default() -> (r: CellWrap)
        ensures
            r == CellWrap::Overflow,
    {
        CellWrap::Overflow
    }
}

impl CellWrap {
    /// The style declarations that show the text in this way.
    pub open spec fn css(&self) -> Seq<char> {
        match self {
            CellWrap::Overflow => "overflow: visible; white-space: nowrap;"@,
            CellWrap::Wrap => "overflow: hidden; white-space: normal; word-wrap: break-word;"@,
            CellWrap::Clip => "overflow: hidden; white-space: clip;"@,
        }
    }

    /// The style declarations that show the text in this way.
    pub fn as_css_string(&self) -> (r: &'static str)
        ensures
            r@ == self.css(),
    {
        match self {
            CellWrap::Overflow => "overflow: visible; white-space: nowrap;",
            CellWrap::Wrap => "overflow: hidden; white-space: normal; word-wrap: break-word;",
            CellWrap::Clip => "overflow: hidden; white-space: clip;",
        }
    }
}

/// The kinds of line that a border is drawn with.
#[derive(Clone, Copy, Debug, PartialEq, Eq, Hash, Structural)]
pub enum CellBorderLine {
    Line1,
    Line2,
    Line3,
    Dotted,
    Dashed,
    Double,
}

/// A color: red, green, blue and opacity.
#[derive(Clone, Copy, Debug, PartialEq, Eq, Hash, Structural)]
pub struct Rgba {
    pub red: u8,
    pub green: u8,
    pub blue: u8,
    pub alpha: u8,
}

/// How a border is drawn.
#[derive(Clone, Copy, Debug, PartialEq, Eq, Hash, Structural)]
pub struct BorderStyle {
    pub color: Rgba,
    pub line: CellBorderLine,
}

/// The kinds of numeric format.
#[derive(Clone, Copy, Debug, PartialEq, Eq, Hash, Structural)]
pub enum NumericFormatKind {
    Number,
    Currency,
    Percentage,
    Exponential,
}

impl Default for NumericFormatKind {
    fn default() -> (r: NumericFormatKind)
        ensures
            r == NumericFormatKind::Number,
    {
        NumericFormatKind::Number
    }
}

/// How a number is written: its kind, and for a currency its symbol.
#[derive(Debug, PartialEq, Eq, Hash)]
pub struct NumericFormat {
    pub kind: NumericFormatKind,
    pub symbol: Option<String>,
}

/// Copies an optional string.
pub fn clone_string_option(s: &Option<String>) -> (r: Option<String>)
    ensures
        r == *s,
{
    match s {
        Some(t) => Some(t.clone()),
        None => None,
    }
}

impl Clone for NumericFormat {
    fn clone(&self) -> (r: NumericFormat)
        ensures
            r == *self,
    {
        NumericFormat { kind: self.kind, symbol: clone_string_option(&self.symbol) }
    }
}

impl Default for NumericFormat {
    fn default() -> (r: NumericFormat)
        ensures
            r.kind == NumericFormatKind::Number,
            r.symbol is None,
    {
        NumericFormat { kind: NumericFormatKind::Number, symbol: None }
    }
}

/// The size at which the content of a cell is drawn, in pixels.
#[derive(Debug, PartialEq, Eq, Hash)]
pub struct RenderSize {
    pub w: String,
    pub h: String,
}

impl Clone for RenderSize {
    fn clone(&self) -> (r: RenderSize)
        ensures
            r == *self,
    {
        RenderSize { w: self.w.clone(), h: self.h.clone() }
    }
}

impl Default for RenderSize {
    fn default() -> (r: RenderSize)
        ensures
            r.w@.len() == 0,
            r.h@.len() == 0,
    {
        RenderSize { w: String::new(), h: String::new() }
    }
}

/// The values of one formatting attribute for a sequence of cells.
#[derive(Clone, Debug, PartialEq)]
pub enum CellFmtArray {
    Align(RunLengthEncoding<Option<CellAlign>>),
    Wrap(RunLengthEncoding<Option<CellWrap>>),
    NumericFormat(RunLengthEncoding<Option<NumericFormat>>),
    NumericDecimals(RunLengthEncoding<Option<i16>>),
    NumericCommas(RunLengthEncoding<Option<bool>>),
    Bold(RunLengthEncoding<Option<bool>>),
    Italic(RunLengthEncoding<Option<bool>>),
    TextColor(RunLengthEncoding<Option<String>>),
    FillColor(RunLengthEncoding<Option<String>>),
    RenderSize(RunLengthEncoding<Option<RenderSize>>),
}

impl CellFmtArray {
    /// The number of cells that the array has values for.
    pub fn size(&self) -> (n: usize)
        ensures
            n == self.spec_size(),
    {
        match self {
            CellFmtArray::Align(v) => v.size(),
            CellFmtArray::Wrap(v) => v.size(),
            CellFmtArray::NumericFormat(v) => v.size(),
            CellFmtArray::NumericDecimals(v) => v.size(),
            CellFmtArray::NumericCommas(v) => v.size(),
            CellFmtArray::Bold(v) => v.size(),
            CellFmtArray::Italic(v) => v.size(),
            CellFmtArray::TextColor(v) => v.size(),
            CellFmtArray::FillColor(v) => v.size(),
            CellFmtArray::RenderSize(v) => v.size(),
        }
    }

    pub open spec fn spec_size(&self) -> nat {
        match self {
            CellFmtArray::Align(v) => v@.len(),
            CellFmtArray::Wrap(v) => v@.len(),
            CellFmtArray::NumericFormat(v) => v@.len(),
            CellFmtArray::NumericDecimals(v) => v@.len(),
            CellFmtArray::NumericCommas(v) => v@.len(),
            CellFmtArray::Bold(v) => v@.len(),
            CellFmtArray::Italic(v) => v@.len(),
            CellFmtArray::TextColor(v) => v@.len(),
            CellFmtArray::FillColor(v) => v@.len(),
            CellFmtArray::RenderSize(v) => v@.len(),
        }
    }
}

/// A formatting attribute: one of the fields of a format.
pub trait CellFmtAttr {
    /// The type of the values of the attribute.
    type Value;

    /// The value of the attribute in a format.
    spec fn value_in(format: Format) -> Option<Self::Value>;

    /// The format with another value of the attribute.
    spec fn with_value(format: Format, value: Option<Self::Value>) -> Format;

    /// The place of the attribute in a format, to read.
    fn column_data_ref(format: &Format) -> (r: &Option<Self::Value>)
        ensures
            *r == Self::value_in(*format),
    ;

    /// The place of the attribute in a format, to write.
    fn column_data_mut(format: &mut Format) -> (r: &mut Option<Self::Value>)
        ensures
            *r == Self::value_in(*old(format)),
            *final(format) == Self::with_value(*old(format), *final(r)),
    ;
}

impl CellFmtAttr for CellAlign {
    type Value = CellAlign;

    open spec fn value_in(format: Format) -> Option<CellAlign> {
        format.align
    }

    open spec fn with_value(format: Format, value: Option<CellAlign>) -> Format {
        Format { align: value, ..format }
    }

    fn column_data_ref(format: &Format) -> (r: &Option<CellAlign>) {
        &format.align
    }

    fn column_data_mut(format: &mut Format) -> (r: &mut Option<CellAlign>) {
        &mut format.align
    }
}

impl CellFmtAttr for CellWrap {
    type Value = CellWrap;

    open spec fn value_in(format: Format) -> Option<CellWrap> {
        format.wrap
    }

    open spec fn with_value(format: Format, value: Option<CellWrap>) -> Format {
        Format { wrap: value, ..format }
    }

    fn column_data_ref(format: &Format) -> (r: &Option<CellWrap>) {
        &format.wrap
    }

    fn column_data_mut(format: &mut Format) -> (r: &mut Option<CellWrap>) {
        &mut format.wrap
    }
}

impl CellFmtAttr for NumericFormat {
    type Value = NumericFormat;

    open spec fn value_in(format: Format) -> Option<NumericFormat> {
        format.numeric_format
    }

    open spec fn with_value(format: Format, value: Option<NumericFormat>) -> Format {
        Format { numeric_format: value, ..format }
    }

    fn column_data_ref(format: &Format) -> (r: &Option<NumericFormat>) {
        &format.numeric_format
    }

    fn column_data_mut(format: &mut Format) -> (r: &mut Option<NumericFormat>) {
        &mut format.numeric_format
    }
}

/// The number of decimal places that numbers are written with.
pub struct NumericDecimals;

impl CellFmtAttr for NumericDecimals {
    type Value = i16;

    open spec fn value_in(format: Format) -> Option<i16> {
        format.numeric_decimals
    }

    open spec fn with_value(format: Format, value: Option<i16>) -> Format {
        Format { numeric_decimals: value, ..format }
    }

    fn column_data_ref(format: &Format) -> (r: &Option<i16>) {
        &format.numeric_decimals
    }

    fn column_data_mut(format: &mut Format) -> (r: &mut Option<i16>) {
        &mut format.numeric_decimals
    }
}

/// Whether numbers are written with commas.
pub struct NumericCommas;

impl CellFmtAttr for NumericCommas {
    type Value = bool;

    open spec fn value_in(format: Format) -> Option<bool> {
        format.numeric_commas
    }

    open spec fn with_value(format: Format, value: Option<bool>) -> Format {
        Format { numeric_commas: value, ..format }
    }

    fn column_data_ref(format: &Format) -> (r: &Option<bool>) {
        &format.numeric_commas
    }

    fn column_data_mut(format: &mut Format) -> (r: &mut Option<bool>) {
        &mut format.numeric_commas
    }
}

/// Whether text is bold.
pub struct Bold;

impl CellFmtAttr for Bold {
    type Value = bool;

    open spec fn value_in(format: Format) -> Option<bool> {
        format.bold
    }

    open spec fn with_value(format: Format, value: Option<bool>) -> Format {
        Format { bold: value, ..format }
    }

    fn column_data_ref(format: &Format) -> (r: &Option<bool>) {
        &format.bold
    }

    fn column_data_mut(format: &mut Format) -> (r: &mut Option<bool>) {
        &mut format.bold
    }
}

/// Whether text is italic.
pub struct Italic;

impl CellFmtAttr for Italic {
    type Value = bool;

    open spec fn value_in(format: Format) -> Option<bool> {
        format.italic
    }

    open spec fn with_value(format: Format, value: Option<bool>) -> Format {
        Format { italic: value, ..format }
    }

    fn column_data_ref(format: &Format) -> (r: &Option<bool>) {
        &format.italic
    }

    fn column_data_mut(format: &mut Format) -> (r: &mut Option<bool>) {
        &mut format.italic
    }
}

/// The color of text.
pub struct TextColor;

impl CellFmtAttr for TextColor {
    type Value = String;

    open spec fn value_in(format: Format) -> Option<String> {
        format.text_color
    }

    open spec fn with_value(format: Format, value: Option<String>) -> Format {
        Format { text_color: value, ..format }
    }

    fn column_data_ref(format: &Format) -> (r: &Option<String>) {
        &format.text_color
    }

    fn column_data_mut(format: &mut Format) -> (r: &mut Option<String>) {
        &mut format.text_color
    }
}

/// The color that the cell is filled with.
pub struct FillColor;

impl CellFmtAttr for FillColor {
    type Value = String;

    open spec fn value_in(format: Format) -> Option<String> {
        format.fill_color
    }

    open spec fn with_value(format: Format, value: Option<String>) -> Format {
        Format { fill_color: value, ..format }
    }

    fn column_data_ref(format: &Format) -> (r: &Option<String>) {
        &format.fill_color
    }

    fn column_data_mut(format: &mut Format) -> (r: &mut Option<String>) {
        &mut format.fill_color
    }
}

impl CellFmtAttr for RenderSize {
    type Value = RenderSize;

    open spec fn value_in(format: Format) -> Option<RenderSize> {
        format.render_size
    }

    open spec fn with_value(format: Format, value: Option<RenderSize>) -> Format {
        Format { render_size: value, ..format }
    }

    fn column_data_ref(format: &Format) -> (r: &Option<RenderSize>) {
        &format.render_size
    }

    fn column_data_mut(format: &mut Format) -> (r: &mut Option<RenderSize>) {
        &mut format.render_size
    }
}

} // verus!
