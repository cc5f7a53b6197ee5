//! Tables and figures for people.

use vstd::prelude::*;
use vstd::string::*;

use crate::iptables::words_of;
use crate::number::{
    fraction_hundredths, hundredths_text, percent_whole, tenths, tenths_of, two_decimals,
    whole_percent, with_decimal, without_zero_tenth, Fraction,
};
use crate::text::{chars_of, dec, decimal, decimal_wide, texts};

verus! {

pub const KIB: u64 = 0x400;

pub const MIB: u64 = 0x10_0000;

pub const GIB: u64 = 0x4000_0000;

/// What stands for a value that is not known.
pub const UNKNOWN: &'static str = "-";

/// On which side of its column a cell stands.
#[derive(Debug, Clone, Copy, PartialEq, Eq, Structural)]
pub enum Align {
    Left,
    Right,
}

/// How many bytes a character takes.
pub open spec fn char_bytes(c: char) -> nat {
    if (c as u32) < 0x80 {
        1
    } else if (c as u32) < 0x800 {
        2
    } else if (c as u32) < 0x1_0000 {
        3
    } else {
        4
    }
}

/// How many bytes a text takes.
pub open spec fn byte_len(s: Seq<char>) -> nat
    decreases s.len(),
{
    if s.len() == 0 {
        0
    } else {
        byte_len(s.drop_last()) + char_bytes(s.last())
    }
}

/// How many bytes a text takes.
pub fn bytes_of(s: &str) -> (r: u128)
    ensures
        r == byte_len(s@),
{
    let v = chars_of(s);
    let mut n: u128 = 0;
    let mut i: usize = 0;
    assert(v@.take(0) =~= seq![]);
    while i < v.len()
        invariant
            i <= v.len(),
            n == byte_len(v@.take(i as int)),
            n <= 4 * i,
        decreases v.len() - i,
    {
        assert(v@.take(i + 1).drop_last() =~= v@.take(i as int));
        let c: u32 = v[i] as u32;
        let k: u128 = if c < 0x80 {
            1
        } else if c < 0x800 {
            2
        } else if c < 0x1_0000 {
            3
        } else {
            4
        };
        n = n + k;
        i = i + 1;
    }
    assert(v@.take(i as int) =~= v@);
    n
}

/// So many spaces.
pub open spec fn spaces(n: nat) -> Seq<char> {
    Seq::new(n, |i: int| ' ')
}

/// What fills a text up to a width, counted in characters.
pub open spec fn filling(s: Seq<char>, width: nat) -> Seq<char> {
    if s.len() < width {
        spaces((width - s.len()) as nat)
    } else {
        seq![]
    }
}

fn fill(s: &str, width: u128) -> (r: String)
    ensures
        r@ == filling(s@, width as nat),
{
    proof {
        reveal_strlit("");
    }
    let mut r = "".to_owned();
    let n: u128 = s.unicode_len() as u128;
    assert(r@ =~= spaces(0));
    let mut i: u128 = n;
    while i < width
        invariant
            n <= i,
            n < width ==> i <= width,
            n >= width ==> i == n,
            n == s@.len(),
            r@ == spaces((i - n) as nat),
        decreases if i < width { width - i } else { 0 },
    {
        r.push(' ');
        i = i + 1;
        assert(r@ =~= spaces((i - n) as nat));
    }
    assert(r@ =~= filling(s@, width as nat));
    r
}

/// A text at the left of a column of this width.
pub open spec fn left_in(s: Seq<char>, width: nat) -> Seq<char> {
    s + filling(s, width)
}

/// A text at the right of a column of this width.
pub open spec fn right_in(s: Seq<char>, width: nat) -> Seq<char> {
    filling(s, width) + s
}

/// A text at the left of a column of this width.
pub fn left(s: &str, width: u128) -> (r: String)
    ensures
        r@ == left_in(s@, width as nat),
{
    let f = fill(s, width);
    s.to_owned().concat(f.as_str())
}

/// A text at the right of a column of this width.
pub fn right(s: &str, width: u128) -> (r: String)
    ensures
        r@ == right_in(s@, width as nat),
{
    fill(s, width).concat(s)
}

/// A cell in its column. The last one is not filled up on its right.
pub open spec fn cell_text(cell: Seq<char>, width: nat, align: Align, last: bool) -> Seq<char> {
    match align {
        Align::Left => if last {
            cell
        } else {
            left_in(cell, width)
        },
        Align::Right => right_in(cell, width),
    }
}

/// The first `n` cells of a row, with a space between them.
pub open spec fn row_text(
    cells: Seq<Seq<char>>,
    widths: Seq<nat>,
    aligns: Seq<Align>,
    n: int,
) -> Seq<char>
    decreases n,
{
    if n <= 0 {
        seq![]
    } else {
        row_text(cells, widths, aligns, n - 1) + (if n > 1 {
            seq![' ']
        } else {
            seq![]
        }) + cell_text(cells[n - 1], widths[n - 1], aligns[n - 1], n == cells.len())
    }
}

/// The widths as mathematical numbers.
pub open spec fn as_nats(v: Seq<u128>) -> Seq<nat> {
    v.map_values(|w: u128| w as nat)
}

/// A row of a table.
pub fn print_row(cells: &Vec<String>, widths: &Vec<u128>, aligns: &[Align]) -> (r: String)
    requires
        cells@.len() == widths@.len(),
        cells@.len() == aligns@.len(),
    ensures
        r@ == row_text(texts(cells@), as_nats(widths@), aligns@, cells@.len() as int),
{
    proof {
        reveal_strlit("");
    }
    let mut line = "".to_owned();
    let mut i: usize = 0;
    assert(line@ =~= seq![]);
    while i < cells.len()
        invariant
            i <= cells.len(),
            cells@.len() == widths@.len(),
            cells@.len() == aligns@.len(),
            line@ == row_text(texts(cells@), as_nats(widths@), aligns@, i as int),
        decreases cells.len() - i,
    {
        let ghost so_far = line@;
        assert(texts(cells@)[i as int] == cells@[i as int]@);
        assert(as_nats(widths@)[i as int] == widths@[i as int]);
        if i > 0 {
            line.push(' ');
        }
        assert(line@ =~= so_far + (if i > 0 {
            seq![' ']
        } else {
            seq![]
        }));
        let cell = cells[i].as_str();
        let text = match aligns[i] {
            Align::Left => {
                if i == cells.len() - 1 {
                    cell.to_owned()
                } else {
                    left(cell, widths[i])
                }
            },
            Align::Right => right(cell, widths[i]),
        };
        line = line.concat(text.as_str());
        i = i + 1;
    }
    line
}

/// The rows, by their texts.
pub open spec fn table_of(rows: Seq<Vec<String>>) -> Seq<Seq<Seq<char>>> {
    rows.map_values(|r: Vec<String>| texts(r@))
}

/// The width of a column over its heading and its first `n` cells: that of the
/// widest, in bytes.
pub open spec fn column_width(header: Seq<char>, rows: Seq<Seq<Seq<char>>>, col: int, n: int) -> nat
    decreases n,
{
    if n <= 0 {
        byte_len(header)
    } else {
        let w = column_width(header, rows, col, n - 1);
        let c = byte_len(rows[n - 1][col]);
        if c > w {
            c
        } else {
            w
        }
    }
}

/// The widths of the columns of a table.
pub open spec fn column_widths(headers: Seq<Seq<char>>, rows: Seq<Seq<Seq<char>>>) -> Seq<nat> {
    Seq::new(headers.len(), |i: int| column_width(headers[i], rows, i, rows.len() as int))
}

/// The lines of a table.
pub open spec fn table_lines(
    headers: Seq<Seq<char>>,
    aligns: Seq<Align>,
    rows: Seq<Seq<Seq<char>>>,
) -> Seq<Seq<char>> {
    let widths = column_widths(headers, rows);
    seq![row_text(headers, widths, aligns, headers.len() as int)] + Seq::new(
        rows.len(),
        |i: int| row_text(rows[i], widths, aligns, headers.len() as int),
    )
}

fn width_of(header: &str, rows: &Vec<Vec<String>>, col: usize) -> (r: u128)
    requires
        forall|i: int| 0 <= i < rows@.len() ==> col < (#[trigger] rows@[i])@.len(),
    ensures
        r == column_width(header@, table_of(rows@), col as int, rows@.len() as int),
{
    let mut w: u128 = bytes_of(header);
    let mut i: usize = 0;
    while i < rows.len()
        invariant
            i <= rows.len(),
            forall|i: int| 0 <= i < rows@.len() ==> col < (#[trigger] rows@[i])@.len(),
            w == column_width(header@, table_of(rows@), col as int, i as int),
        decreases rows.len() - i,
    {
        assert(table_of(rows@)[i as int] == texts(rows@[i as int]@));
        assert(texts(rows@[i as int]@)[col as int] == rows@[i as int]@[col as int]@);
        let c: u128 = bytes_of(rows[i][col].as_str());
        if c > w {
            w = c;
        }
        i = i + 1;
    }
    w
}

/// The lines of a table, its columns as wide as their widest cells.
pub fn print_table(headers: &[&str], aligns: &[Align], rows: &Vec<Vec<String>>) -> (r: Vec<String>)
    requires
        headers@.len() == aligns@.len(),
        forall|i: int| 0 <= i < rows@.len() ==> (#[trigger] rows@[i])@.len() == headers@.len(),
    ensures
        texts(r@) == table_lines(words_of(headers@), aligns@, table_of(rows@)),
{
    let ghost hs = words_of(headers@);
    let ghost table = table_of(rows@);
    let ghost ws = column_widths(hs, table);
    let mut widths: Vec<u128> = Vec::new();
    let mut heading: Vec<String> = Vec::new();
    let mut i: usize = 0;
    while i < headers.len()
        invariant
            i <= headers.len(),
            hs == words_of(headers@),
            table == table_of(rows@),
            ws == column_widths(hs, table),
            forall|i: int| 0 <= i < rows@.len() ==> (#[trigger] rows@[i])@.len() == headers@.len(),
            widths@.len() == i,
            heading@.len() == i,
            as_nats(widths@) == ws.take(i as int),
            texts(heading@) == hs.take(i as int),
        decreases headers.len() - i,
    {
        let w: u128 = width_of(headers[i], rows, i);
        let ghost before_w = widths@;
        let ghost before_h = heading@;
        widths.push(w);
        heading.push(headers[i].to_owned());
        assert(hs[i as int] == headers@[i as int]@);
        assert(ws[i as int] == w);
        assert(as_nats(widths@) =~= ws.take(i + 1)) by {
            assert(as_nats(before_w) =~= ws.take(i as int));
            assert forall|k: int| 0 <= k <= i implies as_nats(widths@)[k] == ws.take(i + 1)[k] by {
                if k < i {
                    assert(as_nats(before_w)[k] == ws.take(i as int)[k]);
                }
            }
        }
        assert(texts(heading@) =~= hs.take(i + 1)) by {
            assert forall|k: int| 0 <= k <= i implies texts(heading@)[k] == hs.take(i + 1)[k] by {
                if k < i {
                    assert(texts(before_h)[k] == hs.take(i as int)[k]);
                }
            }
        }
        i = i + 1;
    }
    assert(ws.take(i as int) =~= ws);
    assert(hs.take(i as int) =~= hs);
    let ghost lines = table_lines(hs, aligns@, table);
    let mut r: Vec<String> = Vec::new();
    r.push(print_row(&heading, &widths, aligns));
    assert(texts(r@) =~= lines.take(1));
    let mut k: usize = 0;
    while k < rows.len()
        invariant
            k <= rows.len(),
            hs.len() == headers@.len(),
            table == table_of(rows@),
            ws == column_widths(hs, table),
            as_nats(widths@) == ws,
            widths@.len() == headers@.len(),
            headers@.len() == aligns@.len(),
            lines == table_lines(hs, aligns@, table),
            forall|i: int| 0 <= i < rows@.len() ==> (#[trigger] rows@[i])@.len() == headers@.len(),
            texts(r@) == lines.take(k + 1),
        decreases rows.len() - k,
    {
        assert(table[k as int] == texts(rows@[k as int]@));
        let line = print_row(&rows[k], &widths, aligns);
        proof {
            crate::text::lemma_texts_push(r@, line);
        }
        r.push(line);
        assert(line@ == lines[k + 1]);
        assert(texts(r@) =~= lines.take(k + 2));
        k = k + 1;
    }
    assert(lines.take(k + 1) =~= lines);
    r
}

/// A size in the largest of the units gibibyte, mebibyte and kibibyte that it
/// reaches, with one decimal where that is not zero.
pub open spec fn bytes_text(bytes: u64) -> Seq<char> {
    if bytes >= GIB {
        without_zero_tenth(tenths(bytes as nat, GIB as nat)) + " GiB"@
    } else if bytes >= MIB {
        without_zero_tenth(tenths(bytes as nat, MIB as nat)) + " MiB"@
    } else if bytes >= KIB {
        without_zero_tenth(tenths(bytes as nat, KIB as nat)) + " KiB"@
    } else {
        dec(bytes as nat) + " B"@
    }
}

fn in_unit(bytes: u64, unit: u64) -> (r: String)
    requires
        unit > 0,
    ensures
        r@ == without_zero_tenth(tenths(bytes as nat, unit as nat)),
{
    let x: u128 = tenths_of(bytes, unit);
    if x % 10 == 0 {
        decimal_wide(x / 10)
    } else {
        with_decimal(x)
    }
}

/// A size in the largest of the units gibibyte, mebibyte and kibibyte that it
/// reaches, with one decimal where that is not zero.
pub fn format_bytes_binary(bytes: u64) -> (r: String)
    ensures
        r@ == bytes_text(bytes),
{
    if bytes >= GIB {
        in_unit(bytes, GIB).concat(" GiB")
    } else if bytes >= MIB {
        in_unit(bytes, MIB).concat(" MiB")
    } else if bytes >= KIB {
        in_unit(bytes, KIB).concat(" KiB")
    } else {
        decimal(bytes).concat(" B")
    }
}

/// A size that may not be known.
pub open spec fn bytes_opt_text(bytes: Option<u64>) -> Seq<char> {
    match bytes {
        Some(n) => bytes_text(n),
        None => UNKNOWN@,
    }
}

/// A size that may not be known.
pub fn format_bytes_opt(bytes: Option<u64>) -> (r: String)
    ensures
        r@ == bytes_opt_text(bytes),
{
    match bytes {
        Some(n) => format_bytes_binary(n),
        None => UNKNOWN.to_owned(),
    }
}

/// A ratio with two decimals, which may not be known.
pub open spec fn ratio_text(ratio: Option<Fraction>) -> Seq<char> {
    match ratio {
        Some(f) => hundredths_text(fraction_hundredths(f)) + "x"@,
        None => UNKNOWN@,
    }
}

/// A ratio with two decimals, which may not be known.
pub fn format_ratio(ratio: Option<Fraction>) -> (r: String)
    requires
        ratio matches Some(f) ==> f.den > 0,
    ensures
        r@ == ratio_text(ratio),
{
    match ratio {
        Some(f) => two_decimals(f).concat("x"),
        None => UNKNOWN.to_owned(),
    }
}

/// A part of a whole in percent; of nothing, it is none.
pub open spec fn percent_text(used: u64, capacity: u64) -> Seq<char> {
    if capacity == 0 {
        "0%"@
    } else {
        dec(percent_whole(Fraction { num: used, den: capacity })) + "%"@
    }
}

/// A part of a whole in percent; of nothing, it is none.
pub fn format_percent(used: u64, capacity: u64) -> (r: String)
    ensures
        r@ == percent_text(used, capacity),
{
    if capacity == 0 {
        return "0%".to_owned();
    }
    whole_percent(Fraction { num: used, den: capacity }).concat("%")
}

proof fn lemma_column_width(header: Seq<char>, rows: Seq<Seq<Seq<char>>>, col: int, n: int, i: int)
    requires
        0 <= i < n,
    ensures
        byte_len(rows[i][col]) <= column_width(header, rows, col, n),
        byte_len(header) <= column_width(header, rows, col, n),
    decreases n,
{
    if i < n - 1 {
        lemma_column_width(header, rows, col, n - 1, i);
    } else if n > 1 {
        lemma_column_width(header, rows, col, n - 1, 0);
    }
}

/// No cell of a table is wider than its column.
pub proof fn law_cells_fit(
    headers: Seq<Seq<char>>,
    rows: Seq<Seq<Seq<char>>>,
    row: int,
    col: int,
)
    requires
        0 <= row < rows.len(),
        0 <= col < headers.len(),
    ensures
        byte_len(rows[row][col]) <= column_widths(headers, rows)[col],
        byte_len(headers[col]) <= column_widths(headers, rows)[col],
{
    lemma_column_width(headers[col], rows, col, rows.len() as int, row);
}

} // verus!
