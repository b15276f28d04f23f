//! The typed-value codec: stored values are always text, and the declared
//! type of a field decides how that text is read and written at each
//! boundary.

use vstd::prelude::*;
use vstd::string::StringExecFns;
use crate::schema::FieldType;

verus! {

/// A stored cell: canonical text, tagged with the type of its field.
#[derive(Debug)]
pub struct FieldValue {
    pub value: String,
    pub field_type: FieldType,
}

/// The mathematical value of a [`FieldValue`].
pub struct FieldValueView {
    pub value: Seq<char>,
    pub field_type: FieldType,
}

impl View for FieldValue {
    type V = FieldValueView;

    open spec fn view(&self) -> FieldValueView {
        FieldValueView { value: self.value@, field_type: self.field_type }
    }
}

impl Clone for FieldValue {
    fn clone(&self) -> (r: FieldValue)
        ensures
            r@ == self@,
    {
        FieldValue { value: self.value.clone(), field_type: self.field_type }
    }
}

impl Default for FieldValue {
    fn default() -> (v: FieldValue)
        ensures
            v@.value == Seq::<char>::empty(),
            v@.field_type == FieldType::Text,
    {
        FieldValue { value: String::new(), field_type: FieldType::Text }
    }
}

impl PartialEq for FieldValue {
    fn eq(&self, other: &FieldValue) -> (r: bool) {
        self.value == other.value && self.field_type == other.field_type
    }
}

impl vstd::std_specs::cmp::PartialEqSpecImpl for FieldValue {
    open spec fn obeys_eq_spec() -> bool {
        true
    }

    open spec fn eq_spec(&self, other: &FieldValue) -> bool {
        self@ == other@
    }
}

/// The text of the boolean `true`.
pub open spec fn true_text() -> Seq<char> {
    seq!['t', 'r', 'u', 'e']
}

/// The text of the boolean `false`.
pub open spec fn false_text() -> Seq<char> {
    seq!['f', 'a', 'l', 's', 'e']
}

/// The boolean that a text stands for: `true` for the text `true`, `false`
/// for every other text.
pub open spec fn boolean_of(value: Seq<char>) -> bool {
    value == true_text()
}

/// The canonical text of a boolean.
pub open spec fn text_of_boolean(b: bool) -> Seq<char> {
    if b {
        true_text()
    } else {
        false_text()
    }
}

/// A text under a declared type: a boolean field holds the canonical text
/// of the boolean that the text stands for, every other field the text as it
/// is.
pub open spec fn coerced(value: Seq<char>, field_type: FieldType) -> Seq<char> {
    if field_type == FieldType::Boolean {
        text_of_boolean(boolean_of(value))
    } else {
        value
    }
}

/// Reads a text as a boolean; a text that is not `true` reads as `false`.
pub fn parse_boolean(value: &str) -> (b: bool)
    ensures
        b == boolean_of(value@),
{
    proof {
        reveal_strlit("true");
        assert("true"@ =~= true_text());
    }
    let given = value.to_string();
    let wanted = "true".to_string();
    given == wanted
}

/// Writes a boolean as its canonical text.
pub fn boolean_text(b: bool) -> (s: String)
    ensures
        s@ == text_of_boolean(b),
{
    proof {
        reveal_strlit("true");
        reveal_strlit("false");
        assert("true"@ =~= true_text());
        assert("false"@ =~= false_text());
    }
    if b {
        "true".to_string()
    } else {
        "false".to_string()
    }
}

/// Brings a text into the form that a field of type `field_type` stores.
pub fn coerce(value: &str, field_type: FieldType) -> (s: String)
    ensures
        s@ == coerced(value@, field_type),
{
    match field_type {
        FieldType::Boolean => boolean_text(parse_boolean(value)),
        _ => value.to_string(),
    }
}

/// The character of a decimal digit.
pub open spec fn digit_char(d: int) -> char
    recommends
        0 <= d < 10,
{
    if d == 0 {
        '0'
    } else if d == 1 {
        '1'
    } else if d == 2 {
        '2'
    } else if d == 3 {
        '3'
    } else if d == 4 {
        '4'
    } else if d == 5 {
        '5'
    } else if d == 6 {
        '6'
    } else if d == 7 {
        '7'
    } else if d == 8 {
        '8'
    } else {
        '9'
    }
}

/// The decimal digits of a natural number, most significant first, without
/// leading zeros.
pub open spec fn decimal_digits(n: nat) -> Seq<char>
    decreases n,
{
    if n < 10 {
        seq![digit_char(n as int)]
    } else {
        decimal_digits(n / 10).push(digit_char((n % 10) as int))
    }
}

/// The decimal text of an integer: a minus sign for a negative one, then the
/// digits of its magnitude.
pub open spec fn decimal_text(n: int) -> Seq<char> {
    if n < 0 {
        seq!['-'] + decimal_digits((-n) as nat)
    } else {
        decimal_digits(n as nat)
    }
}

fn digit_str(d: u64) -> (s: &'static str)
    requires
        d < 10,
    ensures
        s@ == seq![digit_char(d as int)],
{
    proof {
        reveal_strlit("0");
        reveal_strlit("1");
        reveal_strlit("2");
        reveal_strlit("3");
        reveal_strlit("4");
        reveal_strlit("5");
        reveal_strlit("6");
        reveal_strlit("7");
        reveal_strlit("8");
        reveal_strlit("9");
    }
    let s = if d == 0 {
        "0"
    } else if d == 1 {
        "1"
    } else if d == 2 {
        "2"
    } else if d == 3 {
        "3"
    } else if d == 4 {
        "4"
    } else if d == 5 {
        "5"
    } else if d == 6 {
        "6"
    } else if d == 7 {
        "7"
    } else if d == 8 {
        "8"
    } else {
        "9"
    };
    assert(s@ =~= seq![digit_char(d as int)]);
    s
}

fn magnitude_text(n: u64) -> (s: String)
    ensures
        s@ == decimal_digits(n as nat),
    decreases n,
{
    if n < 10 {
        digit_str(n).to_string()
    } else {
        let mut s = magnitude_text(n / 10);
        let d = digit_str(n % 10);
        s.append(d);
        assert(s@ =~= decimal_digits(n as nat));
        s
    }
}

/// Writes a signed integer in decimal.
pub fn integer_text(n: i64) -> (s: String)
    ensures
        s@ == decimal_text(n as int),
{
    if n < 0 {
        let magnitude: u64 = ((-(n + 1)) as u64) + 1;
        proof {
            reveal_strlit("-");
        }
        let mut s = "-".to_string();
        let digits = magnitude_text(magnitude);
        s.append(digits.as_str());
        assert(s@ =~= decimal_text(n as int));
        s
    } else {
        magnitude_text(n as u64)
    }
}

/// A cell as a spreadsheet is to hold it.
#[derive(Debug)]
pub enum TypedCell {
    /// A text cell.
    Text(String),
    /// A cell of a number field, with the stored text: a numeric cell where
    /// the text reads as a number, a text cell where it does not.
    Number(String),
    /// A boolean cell.
    Boolean(bool),
}

/// The mathematical value of a [`TypedCell`].
pub enum TypedCellView {
    Text(Seq<char>),
    Number(Seq<char>),
    Boolean(bool),
}

impl View for TypedCell {
    type V = TypedCellView;

    open spec fn view(&self) -> TypedCellView {
        match self {
            TypedCell::Text(s) => TypedCellView::Text(s@),
            TypedCell::Number(s) => TypedCellView::Number(s@),
            TypedCell::Boolean(b) => TypedCellView::Boolean(*b),
        }
    }
}

/// The cell that a stored value is written as: by its own type tag, a
/// number field as a number cell, a boolean field as the boolean that its
/// text stands for, and text or date fields as text.
pub open spec fn typed_cell_of(v: FieldValueView) -> TypedCellView {
    match v.field_type {
        FieldType::Number => TypedCellView::Number(v.value),
        FieldType::Boolean => TypedCellView::Boolean(boolean_of(v.value)),
        _ => TypedCellView::Text(v.value),
    }
}

/// The typed cell for a stored value.
pub fn typed_cell(v: &FieldValue) -> (c: TypedCell)
    ensures
        c@ == typed_cell_of(v@),
{
    match v.field_type {
        FieldType::Number => TypedCell::Number(v.value.clone()),
        FieldType::Boolean => TypedCell::Boolean(parse_boolean(v.value.as_str())),
        _ => TypedCell::Text(v.value.clone()),
    }
}

/// The text that a stored value is written as where the destination has no
/// typed cells: the value coerced under its own type tag.
pub fn export_text(v: &FieldValue) -> (s: String)
    ensures
        s@ == coerced(v@.value, v@.field_type),
{
    coerce(v.value.as_str(), v.field_type)
}

/// A cell as a spreadsheet gave it, by kind.
#[derive(Debug)]
pub enum SourceCell {
    /// A whole number.
    Int(i64),
    /// A number with a fraction, already written as text.
    Real(String),
    /// A text.
    Text(String),
    /// A boolean.
    Bool(bool),
    /// A date or a time held as a number; the number is not carried.
    DateTime,
    /// A duration held as a number; the number is not carried.
    Duration,
    /// A date or a time written out as text.
    DateTimeIso(String),
    /// A duration written out as text.
    DurationIso(String),
    /// A cell that holds an error.
    Error,
    /// An empty cell.
    Empty,
}

/// The mathematical value of a [`SourceCell`].
pub enum SourceCellView {
    Int(int),
    Real(Seq<char>),
    Text(Seq<char>),
    Bool(bool),
    DateTime,
    Duration,
    DateTimeIso(Seq<char>),
    DurationIso(Seq<char>),
    Error,
    Empty,
}

impl View for SourceCell {
    type V = SourceCellView;

    open spec fn view(&self) -> SourceCellView {
        match self {
            SourceCell::Int(i) => SourceCellView::Int(*i as int),
            SourceCell::Real(s) => SourceCellView::Real(s@),
            SourceCell::Text(s) => SourceCellView::Text(s@),
            SourceCell::Bool(b) => SourceCellView::Bool(*b),
            SourceCell::DateTime => SourceCellView::DateTime,
            SourceCell::Duration => SourceCellView::Duration,
            SourceCell::DateTimeIso(s) => SourceCellView::DateTimeIso(s@),
            SourceCell::DurationIso(s) => SourceCellView::DurationIso(s@),
            SourceCell::Error => SourceCellView::Error,
            SourceCell::Empty => SourceCellView::Empty,
        }
    }
}

/// The canonical text of a source cell: the decimal text of a whole number,
/// the text of a number with a fraction, a text as it is, the canonical text
/// of a boolean, and the empty text for an empty cell and for every cell of
/// a kind that is not read: dates, times, durations and errors.
pub open spec fn cell_text(c: SourceCellView) -> Seq<char> {
    match c {
        SourceCellView::Int(i) => decimal_text(i),
        SourceCellView::Real(s) => s,
        SourceCellView::Text(s) => s,
        SourceCellView::Bool(b) => text_of_boolean(b),
        _ => Seq::empty(),
    }
}

/// Writes a source cell as canonical text.
pub fn cell_string(c: &SourceCell) -> (s: String)
    ensures
        s@ == cell_text(c@),
{
    match c {
        SourceCell::Int(i) => integer_text(*i),
        SourceCell::Real(s) => s.clone(),
        SourceCell::Text(s) => s.clone(),
        SourceCell::Bool(b) => boolean_text(*b),
        _ => String::new(),
    }
}

} // verus!
