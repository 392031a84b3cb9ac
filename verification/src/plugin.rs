//! Functions of two Typst plugins: a greeting, a call counter's reply, and a
//! table read out of an Excel workbook.
use vstd::prelude::*;
use vstd::utf8::{valid_utf8, encode_utf8, decode_utf8};
use vstd::string::StringSliceAdditionalSpecFns;
use vstd::slice::slice_to_vec;
use calamine::Reader;
use crate::text::{decimal, decimal_bytes, decimal_to_bytes, push_decimal};

verus! {

/// The greeting for `name`: `Hello, `, the name, then `!`.
pub open spec fn greeting(name: Seq<u8>) -> Seq<u8> {
    seq![72u8, 101u8, 108u8, 108u8, 111u8, 44u8, 32u8] + name + seq![33u8]
}

/// The greeting holds the whole name: `Hello, ` before it, `!` after it,
/// and nothing else.
pub proof fn greeting_holds_the_whole_name(name: Seq<u8>)
    ensures
        greeting(name).len() == name.len() + 8,
        greeting(name).subrange(7, 7 + name.len() as int) == name,
        greeting(name).take(7) == seq![72u8, 101u8, 108u8, 108u8, 111u8, 44u8, 32u8],
        greeting(name).last() == 33u8,
{
    let g = greeting(name);
    assert(g.subrange(7, 7 + name.len() as int) =~= name);
    assert(g.take(7) =~= seq![72u8, 101u8, 108u8, 108u8, 111u8, 44u8, 32u8]);
}

/// Greets `name`.
pub fn greet(name: &[u8]) -> (r: Vec<u8>)
    ensures
        r@ == greeting(name@),
{
    let mut r: Vec<u8> = vec![72u8, 101u8, 108u8, 108u8, 111u8, 44u8, 32u8];
    let mut i: usize = 0;
    while i < name.len()
        invariant
            0 <= i <= name@.len(),
            r@ == seq![72u8, 101u8, 108u8, 108u8, 111u8, 44u8, 32u8] + name@.take(i as int),
        decreases name@.len() - i,
    {
        r.push(name[i]);
        assert(name@.take(i + 1) == name@.take(i as int).push(name@[i as int]));
        i = i + 1;
    }
    assert(name@.take(name@.len() as int) == name@);
    r.push(33u8);
    r
}

/// The counter plugin's reply to a call that found the counter at `count`:
/// its decimal representation.
pub fn count_reply(count: usize) -> (r: Vec<u8>)
    ensures
        r@ == decimal_bytes(count as nat),
{
    decimal_to_bytes(count as u64)
}

/// Where and how a byte string stops being valid UTF-8.
#[derive(Clone, Copy, Debug, PartialEq, Eq, Structural)]
pub struct Utf8Fault {
    /// The length of the longest valid prefix.
    pub valid_up_to: usize,
    /// The length of the invalid sequence that follows it, or `None` when the
    /// input ends inside a sequence.
    pub error_len: Option<usize>,
}

/// The length of the longest prefix of `bytes` that is valid UTF-8.
pub open spec fn utf8_valid_up_to(bytes: Seq<u8>) -> int {
    choose|k: int|
        0 <= k <= bytes.len() && valid_utf8(bytes.take(k)) && forall|j: int|
            k < j <= bytes.len() ==> !valid_utf8(#[trigger] bytes.take(j))
}

/// What `std::str::Utf8Error::error_len` reports for `bytes`.
pub uninterp spec fn utf8_error_len(bytes: Seq<u8>) -> Option<usize>;

/// `std::str::from_utf8`: the text that `bytes` encode when they are valid
/// UTF-8. Otherwise, the longest valid prefix's length (which the
/// documentation defines as the largest index up to which the bytes decode),
/// and the length of the invalid sequence after it: `None` when the input
/// ends inside a sequence, 1 to 3 bytes after the valid prefix, else a
/// length within the input. Which length std picks is left to a name.
#[verifier::external_body]
fn str_from_utf8<'a>(bytes: &'a [u8]) -> (r: Result<&'a str, Utf8Fault>)
    ensures
        r is Ok <==> valid_utf8(bytes@),
        r matches Ok(s) ==> s.spec_bytes() == bytes@,
        r matches Err(f) ==> f.valid_up_to == utf8_valid_up_to(bytes@),
        r matches Err(f) ==> f.error_len == utf8_error_len(bytes@),
        r matches Err(f) ==> (f.error_len is None ==> 1 <= bytes@.len() - f.valid_up_to <= 3),
        r matches Err(f) ==> (f.error_len matches Some(n) ==> 1 <= n && f.valid_up_to + n <= bytes@.len()),
{
    match std::str::from_utf8(bytes) {
        Ok(s) => Ok(s),
        Err(e) => Err(Utf8Fault { valid_up_to: e.valid_up_to(), error_len: e.error_len() }),
    }
}

/// The message of a UTF-8 error.
pub open spec fn utf8_message(valid_up_to: int, error_len: Option<usize>) -> Seq<char> {
    match error_len {
        Some(n) => "invalid utf-8 sequence of "@ + decimal(n as nat) + " bytes from index "@
            + decimal(valid_up_to as nat),
        None => "incomplete utf-8 byte sequence from index "@ + decimal(valid_up_to as nat),
    }
}

/// Appends the message of a UTF-8 error to `out`.
fn push_utf8_message(out: &mut String, f: &Utf8Fault)
    ensures
        final(out)@ == old(out)@ + utf8_message(f.valid_up_to as int, f.error_len),
{
    match f.error_len {
        Some(n) => {
            out.append("invalid utf-8 sequence of ");
            push_decimal(out, n as u64);
            out.append(" bytes from index ");
            push_decimal(out, f.valid_up_to as u64);
        },
        None => {
            out.append("incomplete utf-8 byte sequence from index ");
            push_decimal(out, f.valid_up_to as u64);
        },
    }
}

/// Why a string is not an unsigned integer.
#[derive(Clone, Copy, Debug, PartialEq, Eq, Structural)]
pub enum IntErrorKind {
    /// The string is empty.
    Empty,
    /// A character is not a decimal digit.
    InvalidDigit,
    /// The value does not fit in `usize`.
    PosOverflow,
}

/// Whether `b` is an ASCII decimal digit.
pub open spec fn is_digit(b: u8) -> bool {
    48 <= b <= 57
}

/// Reads the digits `s` after the value `acc` already read, from left to
/// right: the first character that is not a digit fails, and so does the
/// first digit that takes the value past `usize::MAX`.
pub open spec fn scan_digits(s: Seq<u8>, acc: int) -> Result<int, IntErrorKind>
    decreases s.len(),
{
    if s.len() == 0 {
        Ok(acc)
    } else if !is_digit(s[0]) {
        Err(IntErrorKind::InvalidDigit)
    } else if acc * 10 + (s[0] - 48) > usize::MAX {
        Err(IntErrorKind::PosOverflow)
    } else {
        scan_digits(s.drop_first(), acc * 10 + (s[0] - 48))
    }
}

/// The value of `s` read as a `usize` in decimal: an optional `+`, then at
/// least one digit.
pub open spec fn parse_usize(s: Seq<u8>) -> Result<int, IntErrorKind> {
    if s.len() == 0 {
        Err(IntErrorKind::Empty)
    } else if s.len() == 1 && (s[0] == 43 || s[0] == 45) {
        Err(IntErrorKind::InvalidDigit)
    } else if s[0] == 43 {
        scan_digits(s.drop_first(), 0)
    } else {
        scan_digits(s, 0)
    }
}

/// Reading one more digit after digits that read as `v` gives `10 * v`
/// plus that digit, when it stays within `usize`.
proof fn scan_digits_push(s: Seq<u8>, acc: int, v: int, b: u8)
    requires
        scan_digits(s, acc) == Ok::<int, IntErrorKind>(v),
        is_digit(b),
        v * 10 + (b - 48) <= usize::MAX,
    ensures
        scan_digits(s.push(b), acc) == Ok::<int, IntErrorKind>(v * 10 + (b - 48)),
    decreases s.len(),
{
    let t = s.push(b);
    if s.len() == 0 {
        assert(v == acc);
        assert(t.drop_first() =~= Seq::<u8>::empty());
        assert(t[0] == b);
        assert(scan_digits(Seq::<u8>::empty(), acc * 10 + (b - 48)) == Ok::<int, IntErrorKind>(acc * 10 + (b - 48)));
    } else {
        assert(t[0] == s[0]);
        assert(t.drop_first() =~= s.drop_first().push(b));
        scan_digits_push(s.drop_first(), acc * 10 + (s[0] - 48), v, b);
    }
}

/// The decimal representation of a number starts with a digit.
proof fn decimal_bytes_start_with_digit(n: nat)
    ensures
        decimal_bytes(n).len() >= 1,
        is_digit(decimal_bytes(n)[0]),
    decreases n,
{
    if n >= 10 {
        decimal_bytes_start_with_digit(n / 10);
    }
}

/// The decimal representation of a number, as the counter plugin replies
/// with it, reads back as that number, both as digits and through
/// [`parse_num`].
pub proof fn decimal_reads_back(n: nat)
    requires
        n <= usize::MAX,
    ensures
        parse_usize(decimal_bytes(n)) == Ok::<int, IntErrorKind>(n as int),
        spec_parse_num(decimal_bytes(n)) == Ok::<int, Seq<char>>(n as int),
{
    decimal_bytes_start_with_digit(n);
    decimal_scans_back(n);
    decimal_bytes_are_valid_utf8(n);
}

/// A single ASCII byte is valid UTF-8.
proof fn ascii_byte_is_valid_utf8(b: u8)
    requires
        b <= 0x7f,
    ensures
        valid_utf8(seq![b]),
{
    assert(b <= 0x7f ==> (b & 0x7f) <= 0x7f) by (bit_vector);
    let s = seq![b];
    assert(s.subrange(1, 1) =~= Seq::<u8>::empty());
    assert(valid_utf8(Seq::<u8>::empty()));
}

/// The decimal representation of a number is valid UTF-8.
proof fn decimal_bytes_are_valid_utf8(n: nat)
    ensures
        valid_utf8(decimal_bytes(n)),
    decreases n,
{
    if n < 10 {
        ascii_byte_is_valid_utf8((48 + n) as u8);
    } else {
        let d = (48 + n % 10) as u8;
        decimal_bytes_are_valid_utf8(n / 10);
        ascii_byte_is_valid_utf8(d);
        vstd::utf8::valid_utf8_concat(decimal_bytes(n / 10), seq![d]);
        assert(decimal_bytes(n / 10) + seq![d] =~= decimal_bytes(n / 10).push(d));
    }
}

/// The digits of a number's decimal representation scan back as the number.
proof fn decimal_scans_back(n: nat)
    requires
        n <= usize::MAX,
    ensures
        scan_digits(decimal_bytes(n), 0) == Ok::<int, IntErrorKind>(n as int),
    decreases n,
{
    if n < 10 {
        let s = decimal_bytes(n);
        assert(s.drop_first() =~= Seq::<u8>::empty());
        assert(scan_digits(Seq::<u8>::empty(), n as int) == Ok::<int, IntErrorKind>(n as int));
    } else {
        decimal_scans_back(n / 10);
        scan_digits_push(decimal_bytes(n / 10), 0, (n / 10) as int, (48 + n % 10) as u8);
    }
}

/// Reads the bytes of `s` from `start` on as a `usize` in decimal.
fn scan_usize(s: &[u8], start: usize) -> (r: Result<usize, IntErrorKind>)
    requires
        start <= s@.len(),
    ensures
        match r {
            Ok(v) => scan_digits(s@.skip(start as int), 0) == Ok::<int, IntErrorKind>(v as int),
            Err(k) => scan_digits(s@.skip(start as int), 0) == Err::<int, IntErrorKind>(k),
        },
{
    let mut acc: usize = 0;
    let mut i: usize = start;
    while i < s.len()
        invariant
            start <= i <= s@.len(),
            scan_digits(s@.skip(start as int), 0) == scan_digits(s@.skip(i as int), acc as int),
        decreases s@.len() - i,
    {
        assert(s@.skip(i as int).drop_first() == s@.skip(i + 1));
        let b = s[i];
        if b < 48 || b > 57 {
            return Err(IntErrorKind::InvalidDigit);
        }
        let d = (b - 48) as usize;
        match acc.checked_mul(10) {
            Some(m) => match m.checked_add(d) {
                Some(v) => {
                    acc = v;
                },
                None => {
                    return Err(IntErrorKind::PosOverflow);
                },
            },
            None => {
                return Err(IntErrorKind::PosOverflow);
            },
        }
        i = i + 1;
    }
    assert(s@.skip(i as int).len() == 0);
    Ok(acc)
}

/// Reads `s` as a `usize` in decimal, as `str::parse` does.
pub fn parse_usize_bytes(s: &[u8]) -> (r: Result<usize, IntErrorKind>)
    ensures
        match r {
            Ok(v) => parse_usize(s@) == Ok::<int, IntErrorKind>(v as int),
            Err(k) => parse_usize(s@) == Err::<int, IntErrorKind>(k),
        },
{
    if s.len() == 0 {
        return Err(IntErrorKind::Empty);
    }
    if s.len() == 1 && (s[0] == 43 || s[0] == 45) {
        return Err(IntErrorKind::InvalidDigit);
    }
    if s[0] == 43 {
        assert(s@.skip(1) == s@.drop_first());
        scan_usize(s, 1)
    } else {
        assert(s@.skip(0) == s@);
        scan_usize(s, 0)
    }
}

/// The message of a failed integer parse.
pub open spec fn int_error_message(k: IntErrorKind) -> Seq<char> {
    match k {
        IntErrorKind::Empty => "cannot parse integer from empty string"@,
        IntErrorKind::InvalidDigit => "invalid digit found in string"@,
        IntErrorKind::PosOverflow => "number too large to fit in target type"@,
    }
}

/// Appends the message of a failed integer parse to `out`.
fn push_int_error_message(out: &mut String, k: IntErrorKind)
    ensures
        final(out)@ == old(out)@ + int_error_message(k),
{
    match k {
        IntErrorKind::Empty => out.append("cannot parse integer from empty string"),
        IntErrorKind::InvalidDigit => out.append("invalid digit found in string"),
        IntErrorKind::PosOverflow => out.append("number too large to fit in target type"),
    }
}

/// What `parse_num` gives for `num`: the number, or the message of the
/// first thing wrong with it.
pub open spec fn spec_parse_num(num: Seq<u8>) -> Result<int, Seq<char>> {
    if !valid_utf8(num) {
        Err("Invalid number: "@ + utf8_message(utf8_valid_up_to(num), utf8_error_len(num)))
    } else {
        match parse_usize(num) {
            Ok(v) => Ok(v),
            Err(k) => Err("Invalid number: "@ + int_error_message(k)),
        }
    }
}

/// Reads a plugin argument as a `usize`: the bytes must be UTF-8, then a
/// decimal number.
pub fn parse_num(num: &[u8]) -> (r: Result<usize, String>)
    ensures
        match r {
            Ok(v) => spec_parse_num(num@) == Ok::<int, Seq<char>>(v as int),
            Err(e) => spec_parse_num(num@) == Err::<int, Seq<char>>(e@),
        },
{
    match str_from_utf8(num) {
        Err(f) => {
            let mut e = String::from_str("Invalid number: ");
            push_utf8_message(&mut e, &f);
            Err(e)
        },
        Ok(_) => match parse_usize_bytes(num) {
            Ok(v) => Ok(v),
            Err(k) => {
                let mut e = String::from_str("Invalid number: ");
                push_int_error_message(&mut e, k);
                Err(e)
            },
        },
    }
}

#[verifier::external_type_specification]
#[verifier::external_body]
#[verifier::reject_recursive_types(T)]
pub struct ExCursor<T>(std::io::Cursor<T>);

#[verifier::external_type_specification]
#[verifier::external_body]
#[verifier::reject_recursive_types(RS)]
pub struct ExXlsx<RS>(calamine::Xlsx<RS>);

#[verifier::external_type_specification]
#[verifier::external_body]
#[verifier::reject_recursive_types(T)]
pub struct ExRange<T>(calamine::Range<T>);

#[verifier::external_type_specification]
#[verifier::external_body]
pub struct ExData(calamine::Data);

/// A workbook opened from bytes held in memory.
pub type Workbook = calamine::Xlsx<std::io::Cursor<Vec<u8>>>;

/// What opening `data` as an XLSX workbook fails with, if it fails: the
/// message of the error.
pub uninterp spec fn xlsx_open_error(data: Seq<u8>) -> Option<Seq<char>>;

/// The sheets of the workbook that `data` opens as: for a sheet name, the
/// sheet's cells, or the message of the error that reading it gives.
pub uninterp spec fn xlsx_sheet(data: Seq<u8>, name: Seq<char>) -> Result<
    Map<(u32, u32), Seq<char>>,
    Seq<char>,
>;

/// The sheets of a workbook: for a sheet name, the sheet's cells, or the
/// message of the error that reading it gives.
pub uninterp spec fn workbook_sheet(book: Workbook, name: Seq<char>) -> Result<
    Map<(u32, u32), Seq<char>>,
    Seq<char>,
>;

/// The cells of a sheet's used range: for each absolute `(row, column)`
/// position inside the range, the text that the cell displays.
pub uninterp spec fn range_cells(range: calamine::Range<calamine::Data>) -> Map<(u32, u32), Seq<char>>;

/// `calamine::open_workbook_from_rs` on an in-memory XLSX file: the
/// workbook, or the message of the error; which one, and the sheets that the
/// workbook holds, depend on `data` alone.
#[verifier::external_body]
fn open_xlsx(data: &[u8]) -> (r: Result<Workbook, String>)
    ensures
        r is Ok <==> xlsx_open_error(data@) is None,
        r matches Err(e) ==> xlsx_open_error(data@) == Some(e@),
        r matches Ok(b) ==> forall|n: Seq<char>| #[trigger] workbook_sheet(b, n) == xlsx_sheet(data@, n),
{
    let opened: Result<Workbook, calamine::XlsxError> = calamine::open_workbook_from_rs(
        std::io::Cursor::new(data.to_vec()),
    );
    match opened {
        Ok(book) => Ok(book),
        Err(e) => Err(e.to_string()),
    }
}

/// `calamine::Reader::worksheet_range`: the cells of the sheet named `name`,
/// or the message of the error that reading it gives.
#[verifier::external_body]
fn worksheet_range(book: &mut Workbook, name: &str) -> (r: Result<calamine::Range<calamine::Data>, String>)
    ensures
        r is Ok <==> workbook_sheet(*old(book), name@) is Ok,
        r matches Ok(range) ==> workbook_sheet(*old(book), name@)->Ok_0 == range_cells(range),
        r matches Err(e) ==> workbook_sheet(*old(book), name@)->Err_0 == e@,
{
    match book.worksheet_range(name) {
        Ok(range) => Ok(range),
        Err(e) => Err(e.to_string()),
    }
}

/// `calamine::Range::get_value` followed by `to_string`: the text of the
/// cell at the absolute position `(row, col)`, or `None` when the position
/// lies outside the range.
#[verifier::external_body]
fn cell_text(range: &calamine::Range<calamine::Data>, row: u32, col: u32) -> (r: Option<String>)
    ensures
        r is Some <==> range_cells(*range).contains_key((row, col)),
        r matches Some(s) ==> s@ == range_cells(*range)[(row, col)],
{
    match range.get_value((row, col)) {
        Some(cell) => Some(cell.to_string()),
        None => None,
    }
}

/// The text of the cell at `(r, c)`, or `null` when there is none.
pub open spec fn cell_or_null(cells: Map<(u32, u32), Seq<char>>, r: int, c: int) -> Seq<char> {
    if cells.contains_key((r as u32, c as u32)) {
        cells[(r as u32, c as u32)]
    } else {
        "null"@
    }
}

/// The cells of row `r` from column `col` on, `n` of them, separated by
/// tabs.
pub open spec fn row_text(cells: Map<(u32, u32), Seq<char>>, r: int, col: int, n: nat) -> Seq<char>
    decreases n,
{
    if n == 0 {
        Seq::empty()
    } else if n == 1 {
        cell_or_null(cells, r, col)
    } else {
        row_text(cells, r, col, (n - 1) as nat) + "\t"@ + cell_or_null(cells, r, col + n - 1)
    }
}

/// The rows from `row` on, `n` of them, each `width` cells wide from column
/// `col`, separated by newlines.
pub open spec fn table_text(
    cells: Map<(u32, u32), Seq<char>>,
    col: int,
    row: int,
    width: nat,
    n: nat,
) -> Seq<char>
    decreases n,
{
    if n == 0 {
        Seq::empty()
    } else if n == 1 {
        row_text(cells, row, col, width)
    } else {
        table_text(cells, col, row, width, (n - 1) as nat) + "\n"@ + row_text(
            cells,
            row + n - 1,
            col,
            width,
        )
    }
}

/// `parts` joined with `sep` between each two of them.
pub open spec fn joined(parts: Seq<Seq<char>>, sep: Seq<char>) -> Seq<char>
    decreases parts.len(),
{
    if parts.len() == 0 {
        Seq::empty()
    } else if parts.len() == 1 {
        parts[0]
    } else {
        joined(parts.drop_last(), sep) + sep + parts.last()
    }
}

/// The texts of the `n` cells of row `r` from column `col` on: each cell's
/// own text where the sheet has the position, `null` where it does not.
pub open spec fn window_row_cells(cells: Map<(u32, u32), Seq<char>>, r: int, col: int, n: nat) -> Seq<Seq<char>> {
    Seq::new(
        n,
        |k: int|
            if cells.contains_key((r as u32, (col + k) as u32)) {
                cells[(r as u32, (col + k) as u32)]
            } else {
                "null"@
            },
    )
}

/// A row of the window is its cells' texts joined with tabs: the `k`-th
/// field is the text of the cell at column `col + k`, or `null` only where
/// the sheet has no such cell.
pub proof fn row_is_its_cells_joined_by_tabs(cells: Map<(u32, u32), Seq<char>>, r: int, col: int, n: nat)
    ensures
        row_text(cells, r, col, n) == joined(window_row_cells(cells, r, col, n), "\t"@),
    decreases n,
{
    let parts = window_row_cells(cells, r, col, n);
    if n >= 2 {
        row_is_its_cells_joined_by_tabs(cells, r, col, (n - 1) as nat);
        assert(parts.drop_last() =~= window_row_cells(cells, r, col, (n - 1) as nat));
    }
}

/// The last field of the first `k + 1` cells of a row is the text of the
/// cell at column `col + k`, whatever `k` is.
pub proof fn row_ends_with_its_last_cell(cells: Map<(u32, u32), Seq<char>>, r: int, col: int, k: nat)
    ensures
        ({
            let cell = if cells.contains_key((r as u32, (col + k) as u32)) {
                cells[(r as u32, (col + k) as u32)]
            } else {
                "null"@
            };
            let t = row_text(cells, r, col, k + 1);
            t.len() >= cell.len() && t.subrange(t.len() - cell.len(), t.len() as int) == cell
        }),
{
    let cell = if cells.contains_key((r as u32, (col + k) as u32)) {
        cells[(r as u32, (col + k) as u32)]
    } else {
        "null"@
    };
    let t = row_text(cells, r, col, k + 1);
    if k == 0 {
        assert(t =~= cell);
    } else {
        let pre = row_text(cells, r, col, k) + "\t"@;
        assert(t == pre + cell);
        assert(t.subrange(t.len() - cell.len(), t.len() as int) =~= cell);
    }
}

/// The window's text is its rows joined with newlines, each row being its
/// cells' texts joined with tabs.
pub proof fn table_is_its_rows_joined_by_newlines(
    cells: Map<(u32, u32), Seq<char>>,
    col: int,
    row: int,
    width: nat,
    n: nat,
)
    ensures
        table_text(cells, col, row, width, n) == joined(
            Seq::new(n, |i: int| joined(window_row_cells(cells, row + i, col, width), "\t"@)),
            "\n"@,
        ),
    decreases n,
{
    let rows = Seq::new(n, |i: int| joined(window_row_cells(cells, row + i, col, width), "\t"@));
    if n >= 1 {
        row_is_its_cells_joined_by_tabs(cells, row + n - 1, col, width);
    }
    if n >= 2 {
        table_is_its_rows_joined_by_newlines(cells, col, row, width, (n - 1) as nat);
        assert(rows.drop_last() =~= Seq::new(
            (n - 1) as nat,
            |i: int| joined(window_row_cells(cells, row + i, col, width), "\t"@),
        ));
    }
    if n == 1 {
        assert(rows[0] == joined(window_row_cells(cells, row, col, width), "\t"@));
    }
}

/// Whether reading a `width` by `height` window at `(row, col)` keeps every
/// index within `usize` and every visited position within `u32`.
pub open spec fn window_fits(col: int, row: int, width: int, height: int) -> bool {
    &&& row + height <= usize::MAX
    &&& height > 0 ==> col + width <= usize::MAX
    &&& height > 0 && width > 0 ==> row + height - 1 <= u32::MAX && col + width - 1 <= u32::MAX
}

/// Appends row `r` of the window to `text`.
fn push_row(
    text: &mut String,
    range: &calamine::Range<calamine::Data>,
    r: usize,
    col: usize,
    width: usize,
)
    requires
        col + width <= usize::MAX,
        width > 0 ==> r <= u32::MAX && col + width - 1 <= u32::MAX,
    ensures
        final(text)@ == old(text)@ + row_text(range_cells(*range), r as int, col as int, width as nat),
{
    let end = col + width;
    let mut c = col;
    while c < end
        invariant
            col <= c <= end,
            end == col + width,
            width > 0 ==> r <= u32::MAX && col + width - 1 <= u32::MAX,
            text@ == old(text)@ + row_text(range_cells(*range), r as int, col as int, (c - col) as nat),
        decreases end - c,
    {
        if c > col {
            text.append("\t");
        }
        match cell_text(range, r as u32, c as u32) {
            Some(s) => text.append(s.as_str()),
            None => text.append("null"),
        }
        proof {
            reveal_strlit("null");
            reveal_strlit("\t");
        }
        c = c + 1;
    }
}

/// The text of the `width` by `height` window at `(row, col)` of a sheet, as
/// UTF-8 bytes: rows separated by newlines, cells by tabs, and `null` for a
/// position outside the sheet's used range.
pub fn render_table(
    range: &calamine::Range<calamine::Data>,
    col: usize,
    row: usize,
    width: usize,
    height: usize,
) -> (r: Vec<u8>)
    requires
        window_fits(col as int, row as int, width as int, height as int),
    ensures
        r@ == encode_utf8(table_text(range_cells(*range), col as int, row as int, width as nat, height as nat)),
{
    let mut text = String::new();
    let end = row + height;
    let mut r = row;
    while r < end
        invariant
            row <= r <= end,
            end == row + height,
            window_fits(col as int, row as int, width as int, height as int),
            text@ == table_text(range_cells(*range), col as int, row as int, width as nat, (r - row) as nat),
        decreases end - r,
    {
        if r > row {
            text.append("\n");
        }
        push_row(&mut text, range, r, col, width);
        proof {
            reveal_strlit("\n");
        }
        r = r + 1;
    }
    let bytes = text.as_str().as_bytes();
    slice_to_vec(bytes)
}

/// What reading the window gives once the workbook is open: the window's
/// text, or the sheet's read error.
pub open spec fn spec_table_from(
    sheet: Result<Map<(u32, u32), Seq<char>>, Seq<char>>,
    col: int,
    row: int,
    width: nat,
    height: nat,
) -> Result<Seq<u8>, Seq<char>> {
    match sheet {
        Ok(cells) => Ok(encode_utf8(table_text(cells, col, row, width, height))),
        Err(e) => Err(sheet_error_message(e)),
    }
}

/// The message of a sheet that cannot be read.
pub open spec fn sheet_error_message(e: Seq<char>) -> Seq<char> {
    "Sheet read error: "@ + e
}

/// The error that `get_table` meets before it reads the sheet, if any: a
/// sheet name that is not UTF-8, then the first argument that is not a
/// number (in the order column, row, width, height), then a workbook that
/// does not open.
pub open spec fn table_early_error(
    data: Seq<u8>,
    sheet: Seq<u8>,
    col: Seq<u8>,
    row: Seq<u8>,
    width: Seq<u8>,
    height: Seq<u8>,
) -> Option<Seq<char>> {
    if !valid_utf8(sheet) {
        Some("Invalid sheet name: "@ + utf8_message(utf8_valid_up_to(sheet), utf8_error_len(sheet)))
    } else if spec_parse_num(col) is Err {
        Some(spec_parse_num(col)->Err_0)
    } else if spec_parse_num(row) is Err {
        Some(spec_parse_num(row)->Err_0)
    } else if spec_parse_num(width) is Err {
        Some(spec_parse_num(width)->Err_0)
    } else if spec_parse_num(height) is Err {
        Some(spec_parse_num(height)->Err_0)
    } else if xlsx_open_error(data) is Some {
        Some("Failed to open workbook: "@ + xlsx_open_error(data)->0)
    } else {
        None
    }
}

/// What `get_table` gives: the first early error, else the window's text
/// or the sheet's read error.
pub open spec fn spec_get_table(
    data: Seq<u8>,
    sheet: Seq<u8>,
    col: Seq<u8>,
    row: Seq<u8>,
    width: Seq<u8>,
    height: Seq<u8>,
) -> Result<Seq<u8>, Seq<char>> {
    match table_early_error(data, sheet, col, row, width, height) {
        Some(m) => Err(m),
        None => spec_table_from(
            xlsx_sheet(data, decode_utf8(sheet)),
            spec_parse_num(col)->Ok_0,
            spec_parse_num(row)->Ok_0,
            spec_parse_num(width)->Ok_0 as nat,
            spec_parse_num(height)->Ok_0 as nat,
        ),
    }
}

/// Whether the window, once the sheet has been read, lies within what
/// [`render_table`] can read; the reading loop overflows otherwise.
pub open spec fn table_window_fits(
    data: Seq<u8>,
    sheet: Seq<u8>,
    col: Seq<u8>,
    row: Seq<u8>,
    width: Seq<u8>,
    height: Seq<u8>,
) -> bool {
    table_early_error(data, sheet, col, row, width, height) is None && xlsx_sheet(
        data,
        decode_utf8(sheet),
    ) is Ok ==> window_fits(
        spec_parse_num(col)->Ok_0,
        spec_parse_num(row)->Ok_0,
        spec_parse_num(width)->Ok_0,
        spec_parse_num(height)->Ok_0,
    )
}

/// A sheet read out of a workbook, with the window to show of it.
pub struct SheetWindow {
    pub range: calamine::Range<calamine::Data>,
    pub col: usize,
    pub row: usize,
    pub width: usize,
    pub height: usize,
}

/// Checks the arguments of [`get_table`] in order, opens the workbook and
/// reads the sheet: gives the sheet with the window, or the first error.
pub fn read_window(
    data: &[u8],
    sheet: &[u8],
    col: &[u8],
    row: &[u8],
    width: &[u8],
    height: &[u8],
) -> (r: Result<SheetWindow, String>)
    ensures
        table_early_error(data@, sheet@, col@, row@, width@, height@) matches Some(m) ==> (r matches Err(e) && e@ == m),
        table_early_error(data@, sheet@, col@, row@, width@, height@) is None ==> (r is Ok <==> xlsx_sheet(data@, decode_utf8(sheet@)) is Ok),
        table_early_error(data@, sheet@, col@, row@, width@, height@) is None ==> (r matches Err(e) ==> e@ == sheet_error_message(xlsx_sheet(data@, decode_utf8(sheet@))->Err_0)),
        r matches Ok(w) ==> {
            &&& range_cells(w.range) == xlsx_sheet(data@, decode_utf8(sheet@))->Ok_0
            &&& spec_parse_num(col@) == Ok::<int, Seq<char>>(w.col as int)
            &&& spec_parse_num(row@) == Ok::<int, Seq<char>>(w.row as int)
            &&& spec_parse_num(width@) == Ok::<int, Seq<char>>(w.width as int)
            &&& spec_parse_num(height@) == Ok::<int, Seq<char>>(w.height as int)
            &&& table_early_error(data@, sheet@, col@, row@, width@, height@) is None
        },
{
    let name = match str_from_utf8(sheet) {
        Ok(name) => name,
        Err(f) => {
            let mut e = String::from_str("Invalid sheet name: ");
            push_utf8_message(&mut e, &f);
            return Err(e);
        },
    };
    proof {
        vstd::utf8::encode_utf8_decode_utf8(name@);
        assert(decode_utf8(sheet@) == name@);
    }
    let c = match parse_num(col) {
        Ok(v) => v,
        Err(e) => {
            return Err(e);
        },
    };
    let rw = match parse_num(row) {
        Ok(v) => v,
        Err(e) => {
            return Err(e);
        },
    };
    let w = match parse_num(width) {
        Ok(v) => v,
        Err(e) => {
            return Err(e);
        },
    };
    let h = match parse_num(height) {
        Ok(v) => v,
        Err(e) => {
            return Err(e);
        },
    };
    let mut book = match open_xlsx(data) {
        Ok(book) => book,
        Err(m) => {
            let mut e = String::from_str("Failed to open workbook: ");
            e.append(m.as_str());
            return Err(e);
        },
    };
    proof {
        assert(workbook_sheet(book, name@) == xlsx_sheet(data@, name@));
    }
    match worksheet_range(&mut book, name) {
        Ok(range) => Ok(SheetWindow { range, col: c, row: rw, width: w, height: h }),
        Err(e) => {
            let mut m = String::from_str("Sheet read error: ");
            m.append(e.as_str());
            Err(m)
        },
    }
}

/// Whether a window lies within what [`render_table`] can read.
pub fn window_fits_exec(col: usize, row: usize, width: usize, height: usize) -> (b: bool)
    ensures
        b == window_fits(col as int, row as int, width as int, height as int),
{
    if row > usize::MAX - height {
        return false;
    }
    if height > 0 && col > usize::MAX - width {
        return false;
    }
    if height > 0 && width > 0 {
        let last_row = (row + height - 1) as u64;
        let last_col = (col + width - 1) as u64;
        if last_row > 0xffff_ffff || last_col > 0xffff_ffff {
            return false;
        }
    }
    true
}

/// Reads a window of a sheet out of an XLSX workbook given as bytes: the
/// sheet's name, the window's column and row, then its width and height, all
/// as UTF-8 text. Gives the window's text (see [`render_table`]) or the
/// first error met.
pub fn get_table(
    data: &[u8],
    sheet: &[u8],
    col: &[u8],
    row: &[u8],
    width: &[u8],
    height: &[u8],
) -> (r: Result<Vec<u8>, String>)
    requires
        table_window_fits(data@, sheet@, col@, row@, width@, height@),
    ensures
        match r {
            Ok(b) => spec_get_table(data@, sheet@, col@, row@, width@, height@) == Ok::<Seq<u8>, Seq<char>>(b@),
            Err(e) => spec_get_table(data@, sheet@, col@, row@, width@, height@) == Err::<Seq<u8>, Seq<char>>(e@),
        },
{
    match read_window(data, sheet, col, row, width, height) {
        Ok(w) => Ok(render_table(&w.range, w.col, w.row, w.width, w.height)),
        Err(e) => Err(e),
    }
}

/// [`get_table`] where its window fits, `None` where reading the window
/// would overflow; the arguments, the workbook and the sheet are checked
/// first, and their errors are given as [`get_table`] gives them.
pub fn try_get_table(
    data: &[u8],
    sheet: &[u8],
    col: &[u8],
    row: &[u8],
    width: &[u8],
    height: &[u8],
) -> (r: Option<Result<Vec<u8>, String>>)
    ensures
        r is None <==> !table_window_fits(data@, sheet@, col@, row@, width@, height@),
        r matches Some(x) ==> match x {
            Ok(b) => spec_get_table(data@, sheet@, col@, row@, width@, height@) == Ok::<Seq<u8>, Seq<char>>(b@),
            Err(e) => spec_get_table(data@, sheet@, col@, row@, width@, height@) == Err::<Seq<u8>, Seq<char>>(e@),
        },
{
    match read_window(data, sheet, col, row, width, height) {
        Err(e) => Some(Err(e)),
        Ok(w) => {
            if window_fits_exec(w.col, w.row, w.width, w.height) {
                Some(get_table(data, sheet, col, row, width, height))
            } else {
                None
            }
        },
    }
}

} // verus!
