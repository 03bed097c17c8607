//! Fixed-width text tables.
//!
//! A column is as wide as the widest of its header and cells, measured in
//! terminal columns. Cells are padded with spaces on the right; rules of
//! dashes stand above the header, below it, and below the last row.

use unicode_width::UnicodeWidthStr;
use vstd::prelude::*;
use crate::text::texts;

verus! {

/// Number of terminal columns that `s` takes, as `UnicodeWidthStr::width` of
/// the crate `unicode-width` measures it: wide glyphs count as two columns,
/// combining marks as none.
pub uninterp spec fn display_width(s: Seq<char>) -> usize;

/// `UnicodeWidthStr::width`.
#[verifier::external_body]
pub(crate) fn str_width(s: &str) -> (w: usize)
    ensures
        w == display_width(s@),
{
    UnicodeWidthStr::width(s)
}

/// The character `c`, `n` times over; nothing for a negative `n`.
pub open spec fn repeated(c: char, n: int) -> Seq<char> {
    Seq::new(
        if n > 0 {
            n as nat
        } else {
            0
        },
        |i: int| c,
    )
}

/// A rule up to and with the first `n` columns.
pub open spec fn separator_prefix(widths: Seq<usize>, n: nat) -> Seq<char>
    decreases n,
{
    if n == 0 || n > widths.len() {
        seq!['+']
    } else {
        separator_prefix(widths, (n - 1) as nat) + repeated('-', widths[n - 1] + 2) + seq!['+']
    }
}

/// The rule for columns of the given widths: for each column its width in
/// dashes and two more, between plus signs.
pub open spec fn separator(widths: Seq<usize>) -> Seq<char> {
    separator_prefix(widths, widths.len())
}

/// The cell with spaces on its right up to `width` columns; the cell as it
/// is where it is that wide or wider.
pub open spec fn padded(cell: Seq<char>, width: int) -> Seq<char> {
    cell + repeated(' ', width - display_width(cell))
}

/// A row up to and with its first `n` cells.
pub open spec fn row_prefix(cells: Seq<Seq<char>>, widths: Seq<usize>, n: nat) -> Seq<char>
    decreases n,
{
    if n == 0 || n > cells.len() || n > widths.len() {
        seq!['|']
    } else {
        row_prefix(cells, widths, (n - 1) as nat) + seq![' '] + padded(
            cells[n - 1],
            widths[n - 1] as int,
        ) + seq![' ', '|']
    }
}

/// The number of cells that a row shows: as many as there are cells and
/// widths.
pub open spec fn row_len(cells: Seq<Seq<char>>, widths: Seq<usize>) -> nat {
    if cells.len() <= widths.len() {
        cells.len()
    } else {
        widths.len()
    }
}

/// The row of the given cells: each padded to the width of its column, with
/// a space on either side, between bars.
pub open spec fn row(cells: Seq<Seq<char>>, widths: Seq<usize>) -> Seq<char> {
    row_prefix(cells, widths, row_len(cells, widths))
}

/// Width of column `col` over its header and the first `n` rows.
pub open spec fn column_width(
    headers: Seq<Seq<char>>,
    rows: Seq<Seq<Seq<char>>>,
    col: int,
    n: nat,
) -> usize
    decreases n,
{
    if n == 0 || n > rows.len() {
        display_width(headers[col])
    } else {
        let above = column_width(headers, rows, col, (n - 1) as nat);
        let cells = rows[n - 1];
        if col < cells.len() && display_width(cells[col]) > above {
            display_width(cells[col])
        } else {
            above
        }
    }
}

/// The width of every column: the largest display width among its header
/// and its cells.
pub open spec fn column_widths(headers: Seq<Seq<char>>, rows: Seq<Seq<Seq<char>>>) -> Seq<usize> {
    Seq::new(headers.len(), |col: int| column_width(headers, rows, col, rows.len()))
}

/// The first `n` rows, each after a line break.
pub open spec fn body(rows: Seq<Seq<Seq<char>>>, widths: Seq<usize>, n: nat) -> Seq<char>
    decreases n,
{
    if n == 0 || n > rows.len() {
        Seq::empty()
    } else {
        body(rows, widths, (n - 1) as nat) + seq!['\n'] + row(rows[n - 1], widths)
    }
}

/// The table: a rule, the header row, a rule, the rows, and a rule, one to
/// a line.
pub open spec fn table(headers: Seq<Seq<char>>, rows: Seq<Seq<Seq<char>>>) -> Seq<char> {
    let widths = column_widths(headers, rows);
    separator(widths) + seq!['\n'] + row(headers, widths) + seq!['\n'] + separator(widths) + body(
        rows,
        widths,
        rows.len(),
    ) + seq!['\n'] + separator(widths)
}

/// The texts of the cells of a list of rows.
pub open spec fn row_texts(rows: Seq<Vec<String>>) -> Seq<Seq<Seq<char>>> {
    Seq::new(rows.len(), |i: int| texts(rows[i]@))
}

/// The width of a column is the display width of its header or of one of
/// its cells, and none of them is wider.
pub proof fn lemma_column_width_is_max(
    headers: Seq<Seq<char>>,
    rows: Seq<Seq<Seq<char>>>,
    col: int,
    n: nat,
)
    requires
        0 <= col < headers.len(),
        n <= rows.len(),
    ensures
        display_width(headers[col]) <= column_width(headers, rows, col, n),
        forall|i: int|
            0 <= i < n && col < rows[i].len() ==> display_width(#[trigger] rows[i][col])
                <= column_width(headers, rows, col, n),
        column_width(headers, rows, col, n) == display_width(headers[col]) || exists|i: int|
            0 <= i < n && col < rows[i].len() && column_width(headers, rows, col, n)
                == display_width(#[trigger] rows[i][col]),
    decreases n,
{
    if n > 0 {
        lemma_column_width_is_max(headers, rows, col, (n - 1) as nat);
        let above = column_width(headers, rows, col, (n - 1) as nat);
        if above != display_width(headers[col]) {
            let i = choose|i: int|
                0 <= i < n - 1 && col < rows[i].len() && above == display_width(
                    #[trigger] rows[i][col],
                );
        }
    }
}

/// The lines of the table: a rule, the header row, a rule, a row for each
/// row of cells in their order, and a rule.
pub open spec fn lines(headers: Seq<Seq<char>>, rows: Seq<Seq<Seq<char>>>) -> Seq<Seq<char>> {
    let widths = column_widths(headers, rows);
    seq![separator(widths), row(headers, widths), separator(widths)] + Seq::new(
        rows.len(),
        |i: int| row(rows[i], widths),
    ) + seq![separator(widths)]
}

/// The first `n` lines with a line break between each two of them.
pub open spec fn joined(lines: Seq<Seq<char>>, n: nat) -> Seq<char>
    decreases n,
{
    if n == 0 || n > lines.len() {
        Seq::empty()
    } else if n == 1 {
        lines[0]
    } else {
        joined(lines, (n - 1) as nat) + seq!['\n'] + lines[n - 1]
    }
}

/// The number of spaces that pad a cell to `width` columns.
pub open spec fn padding(cell: Seq<char>, width: int) -> int {
    if width > display_width(cell) {
        width - display_width(cell)
    } else {
        0
    }
}

/// The columns that a row takes up to and with its first `n` cells, counted
/// part by part: one for the bar in front, and for each cell its display
/// width, its padding, and three for the spaces and the bar around it.
pub open spec fn row_columns(cells: Seq<Seq<char>>, widths: Seq<usize>, n: nat) -> int
    decreases n,
{
    if n == 0 || n > cells.len() || n > widths.len() {
        1
    } else {
        row_columns(cells, widths, (n - 1) as nat) + display_width(cells[n - 1]) + padding(
            cells[n - 1],
            widths[n - 1] as int,
        ) + 3
    }
}

/// The columns that a rule takes up to and with its first `n` columns: one
/// for the plus sign in front, and for each column its width and three.
pub open spec fn rule_columns(widths: Seq<usize>, n: nat) -> int
    decreases n,
{
    if n == 0 || n > widths.len() {
        1
    } else {
        rule_columns(widths, (n - 1) as nat) + widths[n - 1] + 3
    }
}

/// The table is its lines, four more than there are rows, with a line
/// break between each two of them and none at the end.
pub proof fn lemma_table_lines(headers: Seq<Seq<char>>, rows: Seq<Seq<Seq<char>>>)
    ensures
        lines(headers, rows).len() == rows.len() + 4,
        table(headers, rows) == joined(lines(headers, rows), lines(headers, rows).len()),
{
    let widths = column_widths(headers, rows);
    let all = lines(headers, rows);
    lemma_joined_body(headers, rows, rows.len());
    assert(joined(all, 3) =~= separator(widths) + seq!['\n'] + row(headers, widths) + seq!['\n']
        + separator(widths)) by {
        reveal_with_fuel(joined, 4);
    }
    assert(all[rows.len() as int + 3] == separator(widths));
}

/// The lines up to and with the first `n` rows are the head of the table
/// and the body of those rows.
proof fn lemma_joined_body(headers: Seq<Seq<char>>, rows: Seq<Seq<Seq<char>>>, n: nat)
    requires
        n <= rows.len(),
    ensures
        joined(lines(headers, rows), n + 3) == joined(lines(headers, rows), 3) + body(
            rows,
            column_widths(headers, rows),
            n,
        ),
    decreases n,
{
    let widths = column_widths(headers, rows);
    let all = lines(headers, rows);
    if n > 0 {
        lemma_joined_body(headers, rows, (n - 1) as nat);
        assert(all[n as int + 2] == row(rows[n - 1], widths));
        assert(joined(all, n + 3) =~= joined(all, 3) + body(rows, widths, n));
    } else {
        assert(joined(all, 3) + body(rows, widths, 0) =~= joined(all, 3));
    }
}

/// A rule has as many characters as it takes columns.
pub proof fn lemma_separator_len(widths: Seq<usize>, n: nat)
    requires
        n <= widths.len(),
    ensures
        separator_prefix(widths, n).len() == rule_columns(widths, n),
    decreases n,
{
    if n > 0 {
        lemma_separator_len(widths, (n - 1) as nat);
    }
}

/// A row whose cells are no wider than their columns takes as many columns
/// as the rule, counted part by part.
pub proof fn lemma_row_columns(cells: Seq<Seq<char>>, widths: Seq<usize>, n: nat)
    requires
        n <= cells.len(),
        n <= widths.len(),
        forall|j: int| 0 <= j < n ==> display_width(#[trigger] cells[j]) <= widths[j],
    ensures
        row_columns(cells, widths, n) == rule_columns(widths, n),
    decreases n,
{
    if n > 0 {
        lemma_row_columns(cells, widths, (n - 1) as nat);
    }
}

/// In a table every line takes the same number of columns, counted part by
/// part: the header row and every row with a cell for each header take as
/// many as the rule, which is one column and, for each column of the table,
/// its width and three.
pub proof fn lemma_lines_align(headers: Seq<Seq<char>>, rows: Seq<Seq<Seq<char>>>)
    ensures
        row_columns(headers, column_widths(headers, rows), headers.len()) == rule_columns(
            column_widths(headers, rows),
            headers.len(),
        ),
        forall|i: int|
            0 <= i < rows.len() && (#[trigger] rows[i]).len() == headers.len() ==> row_columns(
                rows[i],
                column_widths(headers, rows),
                headers.len(),
            ) == rule_columns(column_widths(headers, rows), headers.len()),
        separator(column_widths(headers, rows)).len() == rule_columns(
            column_widths(headers, rows),
            headers.len(),
        ),
{
    let widths = column_widths(headers, rows);
    assert forall|j: int| 0 <= j < headers.len() implies display_width(#[trigger] headers[j])
        <= widths[j] by {
        lemma_column_width_is_max(headers, rows, j, rows.len());
    }
    lemma_row_columns(headers, widths, headers.len());
    assert forall|i: int|
        0 <= i < rows.len() && (#[trigger] rows[i]).len() == headers.len() implies row_columns(
        rows[i],
        widths,
        headers.len(),
    ) == rule_columns(widths, headers.len()) by {
        assert forall|j: int| 0 <= j < headers.len() implies display_width(
            #[trigger] rows[i][j],
        ) <= widths[j] by {
            lemma_column_width_is_max(headers, rows, j, rows.len());
        }
        lemma_row_columns(rows[i], widths, headers.len());
    }
    lemma_separator_len(widths, headers.len());
}

/// No column is wider than it has to be: its header or one of its cells
/// fills it and stands in the table without padding.
pub proof fn lemma_column_is_tight(headers: Seq<Seq<char>>, rows: Seq<Seq<Seq<char>>>, col: int)
    requires
        0 <= col < headers.len(),
    ensures
        padded(headers[col], column_widths(headers, rows)[col] as int) == headers[col]
            || exists|i: int|
            0 <= i < rows.len() && col < rows[i].len() && padded(
                #[trigger] rows[i][col],
                column_widths(headers, rows)[col] as int,
            ) == rows[i][col],
{
    lemma_column_width_is_max(headers, rows, col, rows.len());
    let width = column_widths(headers, rows)[col];
    if width == display_width(headers[col]) {
        assert(padded(headers[col], width as int) =~= headers[col]);
    } else {
        let i = choose|i: int|
            0 <= i < rows.len() && col < rows[i].len() && width == display_width(
                #[trigger] rows[i][col],
            );
        assert(padded(rows[i][col], width as int) =~= rows[i][col]);
    }
}

/// Appends `c` to `out`, `n` times over.
fn push_repeated(out: &mut String, c: char, n: usize)
    ensures
        final(out)@ == old(out)@ + repeated(c, n as int),
{
    let mut k: usize = 0;
    while k < n
        invariant
            k <= n,
            out@ == old(out)@ + repeated(c, k as int),
        decreases n - k,
    {
        out.push(c);
        k += 1;
    }
}

/// The rule for columns of the given widths.
pub fn build_separator(widths: &[usize]) -> (line: String)
    ensures
        line@ == separator(widths@),
{
    let mut line = String::new();
    line.push('+');
    let mut i: usize = 0;
    while i < widths.len()
        invariant
            i <= widths.len(),
            line@ == separator_prefix(widths@, i as nat),
        decreases widths.len() - i,
    {
        line.push('-');
        line.push('-');
        push_repeated(&mut line, '-', widths[i]);
        line.push('+');
        i += 1;
    }
    line
}

/// The cell with spaces on its right up to `width` columns.
pub fn pad_cell(cell: &str, width: usize) -> (out: String)
    ensures
        out@ == padded(cell@, width as int),
{
    let current = str_width(cell);
    let mut out = cell.to_owned();
    if current >= width {
        return out;
    }
    push_repeated(&mut out, ' ', width - current);
    out
}

/// The row of the given cells, as many of them as there are widths.
pub fn build_row(cells: &[String], widths: &[usize]) -> (line: String)
    ensures
        line@ == row(texts(cells@), widths@),
{
    let mut line = String::new();
    line.push('|');
    let mut i: usize = 0;
    while i < cells.len() && i < widths.len()
        invariant
            i <= cells.len(),
            i <= widths.len(),
            line@ == row_prefix(texts(cells@), widths@, i as nat),
        decreases cells.len() - i,
    {
        line.push(' ');
        let cell = pad_cell(cells[i].as_str(), widths[i]);
        line.push_str(cell.as_str());
        line.push(' ');
        line.push('|');
        i += 1;
    }
    line
}

/// The width of every column of the table.
fn measure(headers: &[String], rows: &[Vec<String>]) -> (widths: Vec<usize>)
    requires
        forall|i: int| 0 <= i < rows@.len() ==> (#[trigger] rows@[i]).len() <= headers@.len(),
    ensures
        widths@ == column_widths(texts(headers@), row_texts(rows@)),
{
    let mut widths: Vec<usize> = Vec::new();
    let mut col: usize = 0;
    while col < headers.len()
        invariant
            col <= headers.len(),
            widths@.len() == col,
            forall|j: int|
                0 <= j < col ==> #[trigger] widths@[j] == column_width(
                    texts(headers@),
                    row_texts(rows@),
                    j,
                    0,
                ),
        decreases headers.len() - col,
    {
        widths.push(str_width(headers[col].as_str()));
        col += 1;
    }
    let mut r: usize = 0;
    while r < rows.len()
        invariant
            r <= rows.len(),
            widths@.len() == headers@.len(),
            forall|i: int| 0 <= i < rows@.len() ==> (#[trigger] rows@[i]).len() <= headers@.len(),
            forall|j: int|
                0 <= j < widths@.len() ==> #[trigger] widths@[j] == column_width(
                    texts(headers@),
                    row_texts(rows@),
                    j,
                    r as nat,
                ),
        decreases rows.len() - r,
    {
        let cells = &rows[r];
        let mut idx: usize = 0;
        while idx < cells.len()
            invariant
                r < rows.len(),
                cells == &rows@[r as int],
                idx <= cells.len(),
                cells.len() <= headers@.len(),
                widths@.len() == headers@.len(),
                forall|j: int|
                    0 <= j < widths@.len() ==> #[trigger] widths@[j] == column_width(
                        texts(headers@),
                        row_texts(rows@),
                        j,
                        if j < idx {
                            (r + 1) as nat
                        } else {
                            r as nat
                        },
                    ),
            decreases cells.len() - idx,
        {
            let width = str_width(cells[idx].as_str());
            if width > widths[idx] {
                widths[idx] = width;
            }
            idx += 1;
        }
        r += 1;
    }
    widths
}

/// The table with the given headers and rows. No row may hold more cells
/// than there are headers.
pub fn build_table(headers: &[String], rows: &[Vec<String>]) -> (out: String)
    requires
        forall|i: int| 0 <= i < rows@.len() ==> (#[trigger] rows@[i]).len() <= headers@.len(),
    ensures
        out@ == table(texts(headers@), row_texts(rows@)),
{
    let widths = measure(headers, rows);
    let separator = build_separator(widths.as_slice());
    let mut out = String::new();
    out.push_str(separator.as_str());
    out.push('\n');
    out.push_str(build_row(headers, widths.as_slice()).as_str());
    out.push('\n');
    out.push_str(separator.as_str());
    let ghost head = out@;
    let mut r: usize = 0;
    while r < rows.len()
        invariant
            r <= rows.len(),
            out@ == head + body(row_texts(rows@), widths@, r as nat),
        decreases rows.len() - r,
    {
        out.push('\n');
        out.push_str(build_row(rows[r].as_slice(), widths.as_slice()).as_str());
        r += 1;
    }
    out.push('\n');
    out.push_str(separator.as_str());
    out
}

} // verus!
