//! Changes of format for a sequence of cells.

use crate::formatting::{
    clone_string_option, BorderStyle, CellAlign, CellVerticalAlign, CellWrap, NumericFormat,
    RenderSize,
};
use crate::run_length::RunLengthEncoding;
use vstd::prelude::*;

verus! {

/// The format of a cell, of a column, of a row or of a sheet: for each
/// attribute a value, or none.
#[derive(Debug, PartialEq, Eq)]
pub struct Format {
    pub align: Option<CellAlign>,
    pub vertical_align: Option<CellVerticalAlign>,
    pub wrap: Option<CellWrap>,
    pub numeric_format: Option<NumericFormat>,
    pub numeric_decimals: Option<i16>,
    pub numeric_commas: Option<bool>,
    pub bold: Option<bool>,
    pub border_top: Option<BorderStyle>,
    pub border_bottom: Option<BorderStyle>,
    pub border_left: Option<BorderStyle>,
    pub border_right: Option<BorderStyle>,
    pub italic: Option<bool>,
    pub text_color: Option<String>,
    pub fill_color: Option<String>,
    pub render_size: Option<RenderSize>,
}

/// The value of an attribute after a change.
pub open spec fn changed<T>(old: Option<T>, change: Option<Option<T>>) -> Option<T> {
    match change {
        Some(v) => v,
        None => old,
    }
}

/// The change that sets an attribute back to `old`, if `change` changes it.
pub open spec fn change_back<T>(old: Option<T>, change: Option<Option<T>>) -> Option<Option<T>> {
    match change {
        Some(_) => Some(old),
        None => None,
    }
}

/// The attribute of the narrowest of four formats that has it.
pub open spec fn first_of<T>(a: Option<T>, b: Option<T>, c: Option<T>, d: Option<T>) -> Option<T> {
    if a is Some {
        a
    } else if b is Some {
        b
    } else if c is Some {
        c
    } else {
        d
    }
}

fn copy_changed<T: Copy>(old: Option<T>, change: Option<Option<T>>) -> (r: Option<T>)
    ensures
        r == changed(old, change),
{
    match change {
        Some(v) => v,
        None => old,
    }
}

fn copy_change_back<T: Copy>(old: Option<T>, change: Option<Option<T>>) -> (r: Option<Option<T>>)
    ensures
        r == change_back(old, change),
{
    match change {
        Some(_) => Some(old),
        None => None,
    }
}

fn copy_first_of<T: Copy>(a: Option<T>, b: Option<T>, c: Option<T>, d: Option<T>) -> (r: Option<T>)
    ensures
        r == first_of(a, b, c, d),
{
    if a.is_some() {
        a
    } else if b.is_some() {
        b
    } else if c.is_some() {
        c
    } else {
        d
    }
}

fn string_changed(old: &Option<String>, change: &Option<Option<String>>) -> (r: Option<String>)
    ensures
        r == changed(*old, *change),
{
    match change {
        Some(v) => clone_string_option(v),
        None => clone_string_option(old),
    }
}

fn string_change_back(old: &Option<String>, change: &Option<Option<String>>) -> (r: Option<
    Option<String>,
>)
    ensures
        r == change_back(*old, *change),
{
    match change {
        Some(_) => Some(clone_string_option(old)),
        None => None,
    }
}

fn string_first_of<'a>(
    a: &'a Option<String>,
    b: &'a Option<String>,
    c: &'a Option<String>,
    d: &'a Option<String>,
) -> (r: Option<String>)
    ensures
        r == first_of(*a, *b, *c, *d),
{
    if a.is_some() {
        clone_string_option(a)
    } else if b.is_some() {
        clone_string_option(b)
    } else if c.is_some() {
        clone_string_option(c)
    } else {
        clone_string_option(d)
    }
}

/// Copies an optional numeric format.
pub fn clone_numeric_format(f: &Option<NumericFormat>) -> (r: Option<NumericFormat>)
    ensures
        r == *f,
{
    match f {
        Some(v) => Some(v.clone()),
        None => None,
    }
}

/// Copies an optional render size.
pub fn clone_render_size(f: &Option<RenderSize>) -> (r: Option<RenderSize>)
    ensures
        r == *f,
{
    match f {
        Some(v) => Some(v.clone()),
        None => None,
    }
}

impl Format {
    /// The format without a value for any attribute.
    pub open spec fn spec_default() -> Format {
        Format {
            align: None,
            vertical_align: None,
            wrap: None,
            numeric_format: None,
            numeric_decimals: None,
            numeric_commas: None,
            bold: None,
            border_top: None,
            border_bottom: None,
            border_left: None,
            border_right: None,
            italic: None,
            text_color: None,
            fill_color: None,
            render_size: None,
        }
    }

    pub open spec fn spec_is_default(&self) -> bool {
        *self == Format::spec_default()
    }

    /// The format after a change.
    pub open spec fn applied(self, u: FormatUpdate) -> Format {
        Format {
            align: changed(self.align, u.align),
            vertical_align: changed(self.vertical_align, u.vertical_align),
            wrap: changed(self.wrap, u.wrap),
            numeric_format: changed(self.numeric_format, u.numeric_format),
            numeric_decimals: changed(self.numeric_decimals, u.numeric_decimals),
            numeric_commas: changed(self.numeric_commas, u.numeric_commas),
            bold: changed(self.bold, u.bold),
            border_top: changed(self.border_top, u.border_top),
            border_bottom: changed(self.border_bottom, u.border_bottom),
            border_left: changed(self.border_left, u.border_left),
            border_right: changed(self.border_right, u.border_right),
            italic: changed(self.italic, u.italic),
            text_color: changed(self.text_color, u.text_color),
            fill_color: changed(self.fill_color, u.fill_color),
            render_size: changed(self.render_size, u.render_size),
        }
    }

    /// The change that sets back to this format what `u` changes.
    pub open spec fn restoring(self, u: FormatUpdate) -> FormatUpdate {
        FormatUpdate {
            align: change_back(self.align, u.align),
            vertical_align: change_back(self.vertical_align, u.vertical_align),
            wrap: change_back(self.wrap, u.wrap),
            numeric_format: change_back(self.numeric_format, u.numeric_format),
            numeric_decimals: change_back(self.numeric_decimals, u.numeric_decimals),
            numeric_commas: change_back(self.numeric_commas, u.numeric_commas),
            bold: change_back(self.bold, u.bold),
            border_top: change_back(self.border_top, u.border_top),
            border_bottom: change_back(self.border_bottom, u.border_bottom),
            border_left: change_back(self.border_left, u.border_left),
            border_right: change_back(self.border_right, u.border_right),
            italic: change_back(self.italic, u.italic),
            text_color: change_back(self.text_color, u.text_color),
            fill_color: change_back(self.fill_color, u.fill_color),
            render_size: change_back(self.render_size, u.render_size),
        }
    }

    /// For each attribute the value of the narrowest format that has one:
    /// of this one, else of `b`, of `c`, or of `d`.
    pub open spec fn over(self, b: Format, c: Format, d: Format) -> Format {
        Format {
            align: first_of(self.align, b.align, c.align, d.align),
            vertical_align: first_of(
                self.vertical_align,
                b.vertical_align,
                c.vertical_align,
                d.vertical_align,
            ),
            wrap: first_of(self.wrap, b.wrap, c.wrap, d.wrap),
            numeric_format: first_of(
                self.numeric_format,
                b.numeric_format,
                c.numeric_format,
                d.numeric_format,
            ),
            numeric_decimals: first_of(
                self.numeric_decimals,
                b.numeric_decimals,
                c.numeric_decimals,
                d.numeric_decimals,
            ),
            numeric_commas: first_of(
                self.numeric_commas,
                b.numeric_commas,
                c.numeric_commas,
                d.numeric_commas,
            ),
            bold: first_of(self.bold, b.bold, c.bold, d.bold),
            border_top: first_of(
                self.border_top,
                b.border_top,
                c.border_top,
                d.border_top,
            ),
            border_bottom: first_of(
                self.border_bottom,
                b.border_bottom,
                c.border_bottom,
                d.border_bottom,
            ),
            border_left: first_of(
                self.border_left,
                b.border_left,
                c.border_left,
                d.border_left,
            ),
            border_right: first_of(
                self.border_right,
                b.border_right,
                c.border_right,
                d.border_right,
            ),
            italic: first_of(self.italic, b.italic, c.italic, d.italic),
            text_color: first_of(self.text_color, b.text_color, c.text_color, d.text_color),
            fill_color: first_of(self.fill_color, b.fill_color, c.fill_color, d.fill_color),
            render_size: first_of(self.render_size, b.render_size, c.render_size, d.render_size),
        }
    }

    #[verifier::when_used_as_spec(spec_is_default)]
    pub fn is_default(&self) -> (r: bool)
        ensures
            r == self.spec_is_default(),
    {
        self.align.is_none() && self.vertical_align.is_none() && self.wrap.is_none()
            && self.numeric_format.is_none() && self.numeric_decimals.is_none()
            && self.numeric_commas.is_none() && self.bold.is_none() && self.border_top.is_none()
            && self.border_bottom.is_none() && self.border_left.is_none()
            && self.border_right.is_none() && self.italic.is_none()
            && self.text_color.is_none() && self.fill_color.is_none() && self.render_size.is_none()
    }

    /// The format after a change.
    pub fn apply(&self, u: &FormatUpdate) -> (r: Format)
        ensures
            r == self.applied(*u),
    {
        Format {
            align: copy_changed(self.align, u.align),
            vertical_align: copy_changed(self.vertical_align, u.vertical_align),
            wrap: copy_changed(self.wrap, u.wrap),
            numeric_format: match &u.numeric_format {
                Some(v) => clone_numeric_format(v),
                None => clone_numeric_format(&self.numeric_format),
            },
            numeric_decimals: copy_changed(self.numeric_decimals, u.numeric_decimals),
            numeric_commas: copy_changed(self.numeric_commas, u.numeric_commas),
            bold: copy_changed(self.bold, u.bold),
            border_top: copy_changed(self.border_top, u.border_top),
            border_bottom: copy_changed(self.border_bottom, u.border_bottom),
            border_left: copy_changed(self.border_left, u.border_left),
            border_right: copy_changed(self.border_right, u.border_right),
            italic: copy_changed(self.italic, u.italic),
            text_color: string_changed(&self.text_color, &u.text_color),
            fill_color: string_changed(&self.fill_color, &u.fill_color),
            render_size: match &u.render_size {
                Some(v) => clone_render_size(v),
                None => clone_render_size(&self.render_size),
            },
        }
    }

    /// The change that sets back to this format what `u` changes.
    pub fn restore(&self, u: &FormatUpdate) -> (r: FormatUpdate)
        ensures
            r == self.restoring(*u),
    {
        FormatUpdate {
            align: copy_change_back(self.align, u.align),
            vertical_align: copy_change_back(self.vertical_align, u.vertical_align),
            wrap: copy_change_back(self.wrap, u.wrap),
            numeric_format: match &u.numeric_format {
                Some(_) => Some(clone_numeric_format(&self.numeric_format)),
                None => None,
            },
            numeric_decimals: copy_change_back(self.numeric_decimals, u.numeric_decimals),
            numeric_commas: copy_change_back(self.numeric_commas, u.numeric_commas),
            bold: copy_change_back(self.bold, u.bold),
            border_top: copy_change_back(self.border_top, u.border_top),
            border_bottom: copy_change_back(self.border_bottom, u.border_bottom),
            border_left: copy_change_back(self.border_left, u.border_left),
            border_right: copy_change_back(self.border_right, u.border_right),
            italic: copy_change_back(self.italic, u.italic),
            text_color: string_change_back(&self.text_color, &u.text_color),
            fill_color: string_change_back(&self.fill_color, &u.fill_color),
            render_size: match &u.render_size {
                Some(_) => Some(clone_render_size(&self.render_size)),
                None => None,
            },
        }
    }

    /// For each attribute the value of the narrowest format that has one.
    pub fn combine(&self, b: &Format, c: &Format, d: &Format) -> (r: Format)
        ensures
            r == self.over(*b, *c, *d),
    {
        Format {
            align: copy_first_of(self.align, b.align, c.align, d.align),
            vertical_align: copy_first_of(
                self.vertical_align,
                b.vertical_align,
                c.vertical_align,
                d.vertical_align,
            ),
            wrap: copy_first_of(self.wrap, b.wrap, c.wrap, d.wrap),
            numeric_format: if self.numeric_format.is_some() {
                clone_numeric_format(&self.numeric_format)
            } else if b.numeric_format.is_some() {
                clone_numeric_format(&b.numeric_format)
            } else if c.numeric_format.is_some() {
                clone_numeric_format(&c.numeric_format)
            } else {
                clone_numeric_format(&d.numeric_format)
            },
            numeric_decimals: copy_first_of(
                self.numeric_decimals,
                b.numeric_decimals,
                c.numeric_decimals,
                d.numeric_decimals,
            ),
            numeric_commas: copy_first_of(
                self.numeric_commas,
                b.numeric_commas,
                c.numeric_commas,
                d.numeric_commas,
            ),
            bold: copy_first_of(self.bold, b.bold, c.bold, d.bold),
            border_top: copy_first_of(
                self.border_top,
                b.border_top,
                c.border_top,
                d.border_top,
            ),
            border_bottom: copy_first_of(
                self.border_bottom,
                b.border_bottom,
                c.border_bottom,
                d.border_bottom,
            ),
            border_left: copy_first_of(
                self.border_left,
                b.border_left,
                c.border_left,
                d.border_left,
            ),
            border_right: copy_first_of(
                self.border_right,
                b.border_right,
                c.border_right,
                d.border_right,
            ),
            italic: copy_first_of(self.italic, b.italic, c.italic, d.italic),
            text_color: string_first_of(&self.text_color, &b.text_color, &c.text_color, &d.text_color),
            fill_color: string_first_of(&self.fill_color, &b.fill_color, &c.fill_color, &d.fill_color),
            render_size: if self.render_size.is_some() {
                clone_render_size(&self.render_size)
            } else if b.render_size.is_some() {
                clone_render_size(&b.render_size)
            } else if c.render_size.is_some() {
                clone_render_size(&c.render_size)
            } else {
                clone_render_size(&d.render_size)
            },
        }
    }
}

impl Default for Format {
    fn default() -> (r: Format)
        ensures
            r == Format::spec_default(),
    {
        Format {
            align: None,
            vertical_align: None,
            wrap: None,
            numeric_format: None,
            numeric_decimals: None,
            numeric_commas: None,
            bold: None,
            border_top: None,
            border_bottom: None,
            border_left: None,
            border_right: None,
            italic: None,
            text_color: None,
            fill_color: None,
            render_size: None,
        }
    }
}

impl Clone for Format {
    fn clone(&self) -> (r: Format)
        ensures
            r == *self,
    {
        Format {
            align: self.align,
            vertical_align: self.vertical_align,
            wrap: self.wrap,
            numeric_format: clone_numeric_format(&self.numeric_format),
            numeric_decimals: self.numeric_decimals,
            numeric_commas: self.numeric_commas,
            bold: self.bold,
            border_top: self.border_top,
            border_bottom: self.border_bottom,
            border_left: self.border_left,
            border_right: self.border_right,
            italic: self.italic,
            text_color: clone_string_option(&self.text_color),
            fill_color: clone_string_option(&self.fill_color),
            render_size: clone_render_size(&self.render_size),
        }
    }
}

impl View for Format {
    type V = Format;

    open spec fn view(&self) -> Format {
        *self
    }
}

impl DeepView for Format {
    type V = Format;

    open spec fn deep_view(&self) -> Format {
        *self
    }
}

/// Changing a format and then setting back what was changed gives the
/// format as it was.
pub proof fn law_restore_after_apply(f: Format, u: FormatUpdate)
    ensures
        f.applied(u).applied(f.restoring(u)) == f,
{
}

/// A change of the format of a cell. For each attribute: `None` leaves it as
/// it is, `Some(None)` clears it, and `Some(Some(v))` sets it to `v`.
#[derive(Debug, PartialEq, Eq)]
pub struct FormatUpdate {
    pub align: Option<Option<CellAlign>>,
    pub vertical_align: Option<Option<CellVerticalAlign>>,
    pub wrap: Option<Option<CellWrap>>,
    pub numeric_format: Option<Option<NumericFormat>>,
    pub numeric_decimals: Option<Option<i16>>,
    pub numeric_commas: Option<Option<bool>>,
    pub bold: Option<Option<bool>>,
    pub border_top: Option<Option<BorderStyle>>,
    pub border_bottom: Option<Option<BorderStyle>>,
    pub border_left: Option<Option<BorderStyle>>,
    pub border_right: Option<Option<BorderStyle>>,
    pub italic: Option<Option<bool>>,
    pub text_color: Option<Option<String>>,
    pub fill_color: Option<Option<String>>,
    pub render_size: Option<Option<RenderSize>>,
}

impl FormatUpdate {
    /// The change changes nothing.
    pub open spec fn spec_is_default(&self) -> bool {
        &&& self.align is None
        &&& self.vertical_align is None
        &&& self.wrap is None
        &&& self.numeric_format is None
        &&& self.numeric_decimals is None
        &&& self.numeric_commas is None
        &&& self.bold is None
        &&& self.border_top is None
        &&& self.border_bottom is None
        &&& self.border_left is None
        &&& self.border_right is None
        &&& self.italic is None
        &&& self.text_color is None
        &&& self.fill_color is None
        &&& self.render_size is None
    }

    #[verifier::when_used_as_spec(spec_is_default)]
    pub fn is_default(&self) -> (r: bool)
        ensures
            r == self.spec_is_default(),
    {
        self.align.is_none() && self.vertical_align.is_none() && self.wrap.is_none()
            && self.numeric_format.is_none() && self.numeric_decimals.is_none()
            && self.numeric_commas.is_none() && self.bold.is_none() && self.border_top.is_none()
            && self.border_bottom.is_none() && self.border_left.is_none()
            && self.border_right.is_none() && self.italic.is_none()
            && self.text_color.is_none() && self.fill_color.is_none() && self.render_size.is_none()
    }
}

impl Clone for FormatUpdate {
    fn clone(&self) -> (r: FormatUpdate)
        ensures
            r == *self,
    {
        FormatUpdate {
            align: self.align,
            vertical_align: self.vertical_align,
            wrap: self.wrap,
            numeric_format: match &self.numeric_format {
                Some(v) => Some(clone_numeric_format(v)),
                None => None,
            },
            numeric_decimals: self.numeric_decimals,
            numeric_commas: self.numeric_commas,
            bold: self.bold,
            border_top: self.border_top,
            border_bottom: self.border_bottom,
            border_left: self.border_left,
            border_right: self.border_right,
            italic: self.italic,
            text_color: match &self.text_color {
                Some(v) => Some(clone_string_option(v)),
                None => None,
            },
            fill_color: match &self.fill_color {
                Some(v) => Some(clone_string_option(v)),
                None => None,
            },
            render_size: match &self.render_size {
                Some(v) => Some(clone_render_size(v)),
                None => None,
            },
        }
    }
}

impl Default for FormatUpdate {
    fn default() -> (r: FormatUpdate)
        ensures
            r.spec_is_default(),
    {
        FormatUpdate {
            align: None,
            vertical_align: None,
            wrap: None,
            numeric_format: None,
            numeric_decimals: None,
            numeric_commas: None,
            bold: None,
            border_top: None,
            border_bottom: None,
            border_left: None,
            border_right: None,
            italic: None,
            text_color: None,
            fill_color: None,
            render_size: None,
        }
    }
}

/// Changes of format for a sequence of cells, one for each.
#[derive(Debug, PartialEq, Eq)]
pub struct Formats {
    pub formats: RunLengthEncoding<FormatUpdate>,
}

impl View for Formats {
    type V = Seq<FormatUpdate>;

    open spec fn view(&self) -> Seq<FormatUpdate> {
        self.formats@
    }
}

impl Clone for Formats {
    fn clone(&self) -> (r: Formats)
        ensures
            r@ == self@,
    {
        let mut formats: RunLengthEncoding<FormatUpdate> = RunLengthEncoding::new();
        let n: usize = self.formats.run_count();
        let total: usize = self.formats.size();
        let mut k: usize = 0;
        proof {
            self.formats.lemma_runs();
            assert(self.formats.spec_runs().take(0) =~= Seq::<(FormatUpdate, usize)>::empty());
        }
        while k < n
            invariant
                k <= n,
                n == self.formats.spec_runs().len(),
                self.formats@ == crate::run_length::expand(self.formats.spec_runs()),
                total == self.formats@.len(),
                formats@ == crate::run_length::expand(self.formats.spec_runs().take(k as int)),
            decreases n - k,
        {
            let (value, count) = self.formats.run(k);
            proof {
                crate::run_length::lemma_expand_take(self.formats.spec_runs(), k as int);
            }
            formats.push_n(value.clone(), count);
            k = k + 1;
        }
        proof {
            assert(self.formats.spec_runs().take(n as int) =~= self.formats.spec_runs());
        }
        Formats { formats }
    }
}

impl Default for Formats {
    fn default() -> (r: Formats)
        ensures
            r@ == Seq::<FormatUpdate>::empty(),
    {
        Formats { formats: RunLengthEncoding::new() }
    }
}

impl Formats {
    /// No changes, for no cells.
    pub fn new() -> (r: Formats)
        ensures
            r@ == Seq::<FormatUpdate>::empty(),
    {
        Formats { formats: RunLengthEncoding::new() }
    }

    /// The same change for `count` cells.
    pub fn repeat(update: FormatUpdate, count: usize) -> (r: Formats)
        ensures
            r@ == Seq::new(count as nat, |i: int| update),
    {
        let mut formats = Formats::default();
        formats.formats.push_n(update, count);
        assert(formats@ =~= Seq::new(count as nat, |i: int| update));
        formats
    }

    /// The number of cells that there are changes for.
    pub fn size(&self) -> (n: usize)
        ensures
            n == self@.len(),
    {
        self.formats.size()
    }

    /// The change for the cell at an index.
    pub fn get_at(&self, index: usize) -> (r: Option<&FormatUpdate>)
        ensures
            index < self@.len() ==> r == Some(&self@[index as int]),
            index >= self@.len() ==> r is None,
    {
        self.formats.get_at(index)
    }

    /// Adds the same change for `n` more cells.
    pub fn push_n(&mut self, update: FormatUpdate, n: usize)
        requires
            old(self)@.len() + n <= usize::MAX,
        ensures
            final(self)@ == old(self)@ + Seq::new(n as nat, |i: int| update),
    {
        self.formats.push_n(update, n);
    }
}

} // verus!
