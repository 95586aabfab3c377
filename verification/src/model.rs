//! The mathematical model of a table and of its rendering.
//!
//! Every executable operation of the crate is specified against these
//! functions: the builder operations as transformations of [`TableModel`],
//! and rendering as the character sequence [`spec_render`] produces.

use crate::align::Alignment;
use crate::align::spec_aligned;
use crate::align::spec_repeat;
use vstd::prelude::*;

verus! {

/// Model of one column: the header label, the cell text of every body row in
/// order, the tracked running maximum display length, and the padding policy.
#[verifier::ext_equal]
pub struct ColModel {
    pub key: Seq<char>,
    pub cells: Seq<Seq<char>>,
    pub width: nat,
    pub align: Alignment,
}

/// Model of a whole table: the columns in order, the number of body rows,
/// and the rendering options.
#[verifier::ext_equal]
pub struct TableModel {
    pub cols: Seq<ColModel>,
    pub rows: nat,
    pub show_header: bool,
    pub split_rows: bool,
    pub line_char: char,
    pub vertical_char: char,
    pub corner_char: char,
    pub default_align: Alignment,
}

/// The widest display length among a column's label and all its cells.
pub open spec fn spec_max_width(key: Seq<char>, cells: Seq<Seq<char>>) -> nat
    decreases cells.len(),
{
    if cells.len() == 0 {
        key.len()
    } else {
        let rest = spec_max_width(key, cells.drop_last());
        if rest < cells.last().len() {
            cells.last().len()
        } else {
            rest
        }
    }
}

/// A column is consistent when its tracked width is the true maximum and
/// leaves room for the two padding spaces within a machine word.
pub open spec fn col_wf(c: ColModel) -> bool {
    &&& c.width == spec_max_width(c.key, c.cells)
    &&& c.width + 2 <= usize::MAX
}

/// A table is consistent when every column is and holds one cell per row.
pub open spec fn table_wf(m: TableModel) -> bool {
    forall|i: int|
        0 <= i < m.cols.len() ==> (#[trigger] m.cols[i]).cells.len() == m.rows && col_wf(m.cols[i])
}

/// The model of a freshly created table: no columns, no rows, the default
/// rendering options.
pub open spec fn spec_empty_table() -> TableModel {
    TableModel {
        cols: Seq::empty(),
        rows: 0,
        show_header: true,
        split_rows: false,
        line_char: '-',
        vertical_char: '|',
        corner_char: '+',
        default_align: Alignment::Center,
    }
}

/// The model of a freshly added column: no cells yet, the width is the
/// label's display length.
pub open spec fn spec_new_col(key: Seq<char>, a: Alignment) -> ColModel {
    ColModel { key: key, cells: Seq::empty(), width: key.len(), align: a }
}

/// Appending one body row: every column gains one cell, the value at the
/// column's index if the row supplies one and the empty string otherwise;
/// values past the column count are discarded; each width absorbs the new
/// cell's display length.
pub open spec fn spec_add_row(m: TableModel, vals: Seq<Seq<char>>) -> TableModel {
    TableModel {
        cols: Seq::new(
            m.cols.len(),
            |i: int|
                {
                    let v = if 0 <= i < vals.len() {
                        vals[i]
                    } else {
                        Seq::<char>::empty()
                    };
                    let c = m.cols[i];
                    ColModel {
                        key: c.key,
                        cells: c.cells.push(v),
                        width: if c.width < v.len() {
                            v.len()
                        } else {
                            c.width
                        },
                        align: c.align,
                    }
                },
        ),
        rows: (m.rows + 1) as nat,
        ..m
    }
}

/// The per-column segments of a divider: for every column a corner character
/// followed by `width + 2` line characters.
pub open spec fn spec_divider_cells(cols: Seq<ColModel>, lc: char, cc: char) -> Seq<char>
    decreases cols.len(),
{
    if cols.len() == 0 {
        Seq::empty()
    } else {
        spec_divider_cells(cols.drop_last(), lc, cc) + seq![cc] + spec_repeat(
            lc,
            (cols.last().width + 2) as nat,
        )
    }
}

/// A full divider line: the column segments closed by a final corner.
pub open spec fn spec_divider(cols: Seq<ColModel>, lc: char, cc: char) -> Seq<char> {
    spec_divider_cells(cols, lc, cc) + seq![cc]
}

/// The per-column segments of the header line: for every column a vertical
/// character followed by the padded label.
pub open spec fn spec_header_cells(cols: Seq<ColModel>, vc: char) -> Seq<char>
    decreases cols.len(),
{
    if cols.len() == 0 {
        Seq::empty()
    } else {
        spec_header_cells(cols.drop_last(), vc) + seq![vc] + spec_aligned(
            cols.last().key,
            (cols.last().width + 2) as nat,
            cols.last().align,
        )
    }
}

/// A full header line: the column segments closed by a final vertical.
pub open spec fn spec_header_row(cols: Seq<ColModel>, vc: char) -> Seq<char> {
    spec_header_cells(cols, vc) + seq![vc]
}

/// The per-column segments of body row `r`: for every column a vertical
/// character followed by that column's padded cell.
pub open spec fn spec_body_cells(cols: Seq<ColModel>, r: int, vc: char) -> Seq<char>
    decreases cols.len(),
{
    if cols.len() == 0 {
        Seq::empty()
    } else {
        spec_body_cells(cols.drop_last(), r, vc) + seq![vc] + spec_aligned(
            cols.last().cells[r],
            (cols.last().width + 2) as nat,
            cols.last().align,
        )
    }
}

/// A full body line: the column segments closed by a final vertical.
pub open spec fn spec_body_row(cols: Seq<ColModel>, r: int, vc: char) -> Seq<char> {
    spec_body_cells(cols, r, vc) + seq![vc]
}

/// Every line of the rendered table, in order and without newlines: a
/// divider; then, if the header is shown and columns exist, the header line
/// and a divider; then, if rows exist, either every body line followed by a
/// divider (split mode) or all body lines and one closing divider.
pub open spec fn spec_lines(m: TableModel) -> Seq<Seq<char>> {
    let divider = spec_divider(m.cols, m.line_char, m.corner_char);
    let head: Seq<Seq<char>> = if m.show_header && m.cols.len() > 0 {
        seq![spec_header_row(m.cols, m.vertical_char), divider]
    } else {
        Seq::empty()
    };
    let body: Seq<Seq<char>> = if m.rows == 0 {
        Seq::empty()
    } else if m.split_rows {
        Seq::new(
            (2 * m.rows) as nat,
            |i: int|
                if i % 2 == 0 {
                    spec_body_row(m.cols, i / 2, m.vertical_char)
                } else {
                    divider
                },
        )
    } else {
        Seq::new(m.rows, |r: int| spec_body_row(m.cols, r, m.vertical_char)).push(divider)
    };
    seq![divider] + head + body
}

/// The lines joined by single newline characters.
pub open spec fn spec_join_lines(lines: Seq<Seq<char>>) -> Seq<char>
    decreases lines.len(),
{
    if lines.len() == 0 {
        Seq::empty()
    } else if lines.len() == 1 {
        lines[0]
    } else {
        spec_join_lines(lines.drop_last()) + seq!['\n'] + lines.last()
    }
}

/// The complete rendered table.
pub open spec fn spec_render(m: TableModel) -> Seq<char> {
    spec_join_lines(spec_lines(m))
}

/// Appending a line to a joined text inserts exactly one newline, except
/// before the very first line.
pub proof fn lemma_join_push(lines: Seq<Seq<char>>, x: Seq<char>)
    ensures
        spec_join_lines(lines.push(x)) == if lines.len() == 0 {
            x
        } else {
            spec_join_lines(lines) + seq!['\n'] + x
        },
{
    assert(lines.push(x).drop_last() =~= lines);
}

/// The running maximum absorbs one more cell: it grows exactly when the new
/// cell is wider.
pub proof fn lemma_max_width_push(key: Seq<char>, cells: Seq<Seq<char>>, v: Seq<char>)
    ensures
        spec_max_width(key, cells.push(v)) == if spec_max_width(key, cells) < v.len() {
            v.len()
        } else {
            spec_max_width(key, cells)
        },
{
    assert(cells.push(v).drop_last() =~= cells);
}

/// The tracked maximum bounds the label and every cell.
pub proof fn lemma_max_width_bounds(key: Seq<char>, cells: Seq<Seq<char>>)
    ensures
        key.len() <= spec_max_width(key, cells),
        forall|j: int|
            0 <= j < cells.len() ==> (#[trigger] cells[j]).len() <= spec_max_width(key, cells),
    decreases cells.len(),
{
    if cells.len() > 0 {
        lemma_max_width_bounds(key, cells.drop_last());
        assert forall|j: int| 0 <= j < cells.len() implies (#[trigger] cells[j]).len()
            <= spec_max_width(key, cells) by {
            if j < cells.len() - 1 {
                assert(cells.drop_last()[j] == cells[j]);
            }
        }
    }
}

} // verus!
