use vstd::prelude::*;
use vstd::string::StringExecFns;

verus! {

/// A primary key: the 128 bits of a UUID.
pub type PrimaryKey = u128;

/// A row position, shared by all columns of a table.
pub type Index = usize;

/// The type that a column declares for all of its cells.
#[derive(Debug, Clone, Copy, PartialEq, Eq, Structural)]
pub enum DataType {
    Integer,
    String,
    Uuid,
}

/// The upper-case name of a data type.
pub open spec fn data_type_text(d: DataType) -> Seq<char> {
    match d {
        DataType::Integer => "INTEGER"@,
        DataType::String => "STRING"@,
        DataType::Uuid => "UUID"@,
    }
}

impl DataType {
    /// The upper-case name of the data type.
    pub fn to_text(&self) -> (r: String)
        ensures
            r@ == data_type_text(*self),
    {
        match self {
            DataType::Integer => {
                proof {
                    reveal_strlit("INTEGER");
                }
                "INTEGER".to_owned()
            },
            DataType::String => {
                proof {
                    reveal_strlit("STRING");
                }
                "STRING".to_owned()
            },
            DataType::Uuid => {
                proof {
                    reveal_strlit("UUID");
                }
                "UUID".to_owned()
            },
        }
    }
}

/// A value stored in a cell.
#[derive(Debug, Clone, PartialEq, Eq)]
pub enum TableValue {
    Null,
    Integer(i64),
    String(String),
    Uuid(PrimaryKey),
}

/// A value as plain data: text as a character sequence.
pub enum ValueView {
    Null,
    Integer(i64),
    String(Seq<char>),
    Uuid(PrimaryKey),
}

impl View for TableValue {
    type V = ValueView;

    open spec fn view(&self) -> ValueView {
        match self {
            TableValue::Null => ValueView::Null,
            TableValue::Integer(i) => ValueView::Integer(*i),
            TableValue::String(s) => ValueView::String(s@),
            TableValue::Uuid(k) => ValueView::Uuid(*k),
        }
    }
}

/// The character of a decimal digit.
pub open spec fn digit_char(d: nat) -> char {
    if d == 0 { '0' } else if d == 1 { '1' } else if d == 2 { '2' } else if d == 3 { '3' }
    else if d == 4 { '4' } else if d == 5 { '5' } else if d == 6 { '6' } else if d == 7 { '7' }
    else if d == 8 { '8' } else { '9' }
}

/// The decimal digits of a natural number, without leading zeros.
pub open spec fn digits(n: nat) -> Seq<char>
    decreases n,
{
    if n < 10 {
        seq![digit_char(n)]
    } else {
        digits(n / 10).push(digit_char(n % 10))
    }
}

/// An integer written in decimal, with a leading minus sign when negative.
pub open spec fn decimal(i: int) -> Seq<char> {
    if i < 0 {
        seq!['-'] + digits((-i) as nat)
    } else {
        digits(i as nat)
    }
}

/// The lower-case character of a hexadecimal digit.
pub open spec fn hex_char(d: nat) -> char {
    if d < 10 {
        digit_char(d)
    } else if d == 10 { 'a' } else if d == 11 { 'b' } else if d == 12 { 'c' }
    else if d == 13 { 'd' } else if d == 14 { 'e' } else { 'f' }
}

/// The last `n` hexadecimal digits of `v`, most significant first.
pub open spec fn hex_digits(v: nat, n: nat) -> Seq<char>
    decreases n,
{
    if n == 0 {
        seq![]
    } else {
        hex_digits(v / 16, (n - 1) as nat).push(hex_char(v % 16))
    }
}

/// The canonical text of a UUID: its 32 lower-case hexadecimal digits, most
/// significant first, with hyphens after the 8th, 12th, 16th and 20th.
pub open spec fn uuid_text(key: u128) -> Seq<char> {
    let h = hex_digits(key as nat, 32);
    h.subrange(0, 8) + seq!['-'] + h.subrange(8, 12) + seq!['-'] + h.subrange(12, 16) + seq!['-']
        + h.subrange(16, 20) + seq!['-'] + h.subrange(20, 32)
}

/// The one-character text of a decimal digit.
fn digit_str(d: u128) -> (r: &'static str)
    requires
        d < 10,
    ensures
        r@ == seq![digit_char(d as nat)],
{
    match d {
        0 => {
            proof {
                reveal_strlit("0");
            }
            "0"
        },
        1 => {
            proof {
                reveal_strlit("1");
            }
            "1"
        },
        2 => {
            proof {
                reveal_strlit("2");
            }
            "2"
        },
        3 => {
            proof {
                reveal_strlit("3");
            }
            "3"
        },
        4 => {
            proof {
                reveal_strlit("4");
            }
            "4"
        },
        5 => {
            proof {
                reveal_strlit("5");
            }
            "5"
        },
        6 => {
            proof {
                reveal_strlit("6");
            }
            "6"
        },
        7 => {
            proof {
                reveal_strlit("7");
            }
            "7"
        },
        8 => {
            proof {
                reveal_strlit("8");
            }
            "8"
        },
        _ => {
            proof {
                reveal_strlit("9");
            }
            "9"
        },
    }
}

/// The decimal digits of a natural number.
fn digits_text(n: u128) -> (r: String)
    ensures
        r@ == digits(n as nat),
    decreases n,
{
    if n < 10 {
        digit_str(n).to_owned()
    } else {
        let mut r = digits_text(n / 10);
        r.append(digit_str(n % 10));
        r
    }
}

/// An integer in decimal, with a leading minus sign when negative.
pub(crate) fn integer_text(i: i64) -> (r: String)
    ensures
        r@ == decimal(i as int),
{
    if i < 0 {
        proof {
            reveal_strlit("-");
        }
        let mut r = "-".to_owned();
        let magnitude = (0i128 - i as i128) as u128;
        r.append(digits_text(magnitude).as_str());
        r
    } else {
        digits_text(i as u128)
    }
}

/// A position in decimal.
pub(crate) fn index_text(i: usize) -> (r: String)
    ensures
        r@ == decimal(i as int),
{
    digits_text(i as u128)
}

/// Relies on `uuid::Uuid::from_u128`, which takes the bytes big-endian, and
/// its `Display`: the lower-case hyphenated form.
#[verifier::external_body]
pub(crate) fn key_text(key: u128) -> (r: String)
    ensures
        r@ == uuid_text(key),
{
    uuid::Uuid::from_u128(key).to_string()
}

/// The text that a value is shown as.
pub open spec fn value_text(v: ValueView) -> Seq<char> {
    match v {
        ValueView::Null => "*NULL*"@,
        ValueView::Integer(i) => decimal(i as int),
        ValueView::String(s) => s,
        ValueView::Uuid(k) => uuid_text(k),
    }
}

impl TableValue {

    /// The text that this value is shown as.
    pub fn to_text(&self) -> (r: String)
        ensures
            r@ == value_text(self@),
    {
        match self {
            TableValue::Null => {
                proof {
                    reveal_strlit("*NULL*");
                }
                "*NULL*".to_owned()
            },
            TableValue::Integer(i) => integer_text(*i),
            TableValue::String(s) => s.clone(),
            TableValue::Uuid(k) => key_text(*k),
        }
    }

    /// A copy of this value.
    pub fn duplicate(&self) -> (r: TableValue)
        ensures
            r == *self,
            r@ == self@,
    {
        match self {
            TableValue::Null => TableValue::Null,
            TableValue::Integer(i) => TableValue::Integer(*i),
            TableValue::String(s) => TableValue::String(s.clone()),
            TableValue::Uuid(k) => TableValue::Uuid(*k),
        }
    }

    /// Whether this is the null value.
    pub fn is_null(&self) -> (r: bool)
        ensures
            r == (self@ is Null),
    {
        match self {
            TableValue::Null => true,
            _ => false,
        }
    }
}

impl From<i64> for TableValue {
    fn from(i: i64) -> (r: TableValue) {
        TableValue::Integer(i)
    }
}

impl vstd::std_specs::convert::FromSpecImpl<i64> for TableValue {
    open spec fn obeys_from_spec() -> bool {
        true
    }

    open spec fn from_spec(i: i64) -> TableValue {
        TableValue::Integer(i)
    }
}

impl From<String> for TableValue {
    fn from(s: String) -> (r: TableValue) {
        TableValue::String(s)
    }
}

impl vstd::std_specs::convert::FromSpecImpl<String> for TableValue {
    open spec fn obeys_from_spec() -> bool {
        true
    }

    open spec fn from_spec(s: String) -> TableValue {
        TableValue::String(s)
    }
}

/// What a cell holds: its declared type and its value.
pub struct CellView {
    pub data_type: DataType,
    pub value: ValueView,
}

/// A typed value, the unit that columns store.
#[derive(Debug, Clone, PartialEq, Eq)]
pub struct Cell {
    data_type: DataType,
    inner: TableValue,
}

impl View for Cell {
    type V = CellView;

    closed spec fn view(&self) -> CellView {
        CellView { data_type: self.data_type, value: self.inner@ }
    }
}

/// The null cell of a data type.
pub open spec fn null_cell(data_type: DataType) -> CellView {
    CellView { data_type, value: ValueView::Null }
}

/// The cell that holds a primary key.
pub open spec fn key_cell(key: PrimaryKey) -> CellView {
    CellView { data_type: DataType::Uuid, value: ValueView::Uuid(key) }
}

impl Cell {
    /// The null cell of a data type.
    pub fn null(data_type: DataType) -> (r: Cell)
        ensures
            r@ == null_cell(data_type),
    {
        Cell { data_type, inner: TableValue::Null }
    }

    /// The cell that holds a primary key.
    pub fn key(key: PrimaryKey) -> (r: Cell)
        ensures
            r@ == key_cell(key),
    {
        Cell { data_type: DataType::Uuid, inner: TableValue::Uuid(key) }
    }

    /// The declared type of this cell.
    pub fn data_type(&self) -> (r: DataType)
        ensures
            r == self@.data_type,
    {
        self.data_type
    }

    /// The value of this cell.
    pub fn value(&self) -> (r: &TableValue)
        ensures
            r@ == self@.value,
    {
        &self.inner
    }

    /// A copy of this cell.
    pub fn duplicate(&self) -> (r: Cell)
        ensures
            r@ == self@,
    {
        Cell { data_type: self.data_type, inner: self.inner.duplicate() }
    }
}

/// Native values that turn into typed cells.
pub trait IntoCell: Sized {
    /// The cell that this value becomes.
    spec fn cell_of(&self) -> CellView;

    fn into_cell(self) -> (r: Cell)
        ensures
            r@ == self.cell_of(),
    ;
}

impl IntoCell for i64 {
    open spec fn cell_of(&self) -> CellView {
        CellView { data_type: DataType::Integer, value: ValueView::Integer(*self) }
    }

    fn into_cell(self) -> (r: Cell) {
        Cell { data_type: DataType::Integer, inner: TableValue::Integer(self) }
    }
}

impl IntoCell for String {
    open spec fn cell_of(&self) -> CellView {
        CellView { data_type: DataType::String, value: ValueView::String(self@) }
    }

    fn into_cell(self) -> (r: Cell) {
        Cell { data_type: DataType::String, inner: TableValue::String(self) }
    }
}

impl<'a> IntoCell for &'a str {
    open spec fn cell_of(&self) -> CellView {
        CellView { data_type: DataType::String, value: ValueView::String(self@) }
    }

    fn into_cell(self) -> (r: Cell) {
        Cell { data_type: DataType::String, inner: TableValue::String(self.to_owned()) }
    }
}

} // verus!
