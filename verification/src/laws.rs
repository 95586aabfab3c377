//! Properties of the rendered layout, proved once for all tables.

use crate::model::ColModel;
use crate::model::TableModel;
use crate::model::col_wf;
use crate::model::lemma_max_width_bounds;
use crate::model::spec_body_cells;
use crate::model::spec_body_row;
use crate::model::spec_divider;
use crate::model::spec_divider_cells;
use crate::model::spec_header_cells;
use crate::model::spec_header_row;
use crate::model::spec_join_lines;
use crate::model::spec_lines;
use crate::model::spec_render;
use crate::model::table_wf;
use vstd::prelude::*;

verus! {

/// The combined display length of the first `cols.len()` column segments of
/// any line: one boundary character plus `width + 2` cells per column.
pub open spec fn spec_cells_width(cols: Seq<ColModel>) -> nat
    decreases cols.len(),
{
    if cols.len() == 0 {
        0
    } else {
        (spec_cells_width(cols.drop_last()) + cols.last().width + 3) as nat
    }
}

/// The character offset of the `k`-th column boundary within a line.
pub open spec fn spec_boundary(cols: Seq<ColModel>, k: int) -> int {
    spec_cells_width(cols.take(k)) as int
}

/// Every column of a consistent table is itself consistent.
pub open spec fn cols_wf(cols: Seq<ColModel>) -> bool {
    forall|i: int| 0 <= i < cols.len() ==> col_wf(#[trigger] cols[i])
}

proof fn lemma_divider_cells_len(cols: Seq<ColModel>, lc: char, cc: char)
    ensures
        spec_divider_cells(cols, lc, cc).len() == spec_cells_width(cols),
    decreases cols.len(),
{
    if cols.len() > 0 {
        lemma_divider_cells_len(cols.drop_last(), lc, cc);
    }
}

proof fn lemma_header_cells_len(cols: Seq<ColModel>, vc: char)
    requires
        cols_wf(cols),
    ensures
        spec_header_cells(cols, vc).len() == spec_cells_width(cols),
    decreases cols.len(),
{
    if cols.len() > 0 {
        lemma_header_cells_len(cols.drop_last(), vc);
        lemma_max_width_bounds(cols.last().key, cols.last().cells);
    }
}

proof fn lemma_body_cells_len(cols: Seq<ColModel>, r: int, vc: char)
    requires
        cols_wf(cols),
        forall|i: int| 0 <= i < cols.len() ==> 0 <= r < (#[trigger] cols[i]).cells.len(),
    ensures
        spec_body_cells(cols, r, vc).len() == spec_cells_width(cols),
    decreases cols.len(),
{
    if cols.len() > 0 {
        lemma_body_cells_len(cols.drop_last(), r, vc);
        lemma_max_width_bounds(cols.last().key, cols.last().cells);
    }
}

/// Every rendered line has the same display length: the combined width of
/// the column segments plus the one closing boundary character. In
/// particular any two lines of one rendering are equally long.
pub proof fn lemma_lines_uniform_width(m: TableModel, i: int)
    requires
        table_wf(m),
        0 <= i < spec_lines(m).len(),
    ensures
        spec_lines(m)[i].len() == spec_cells_width(m.cols) + 1,
{
    lemma_divider_cells_len(m.cols, m.line_char, m.corner_char);
    if m.show_header && m.cols.len() > 0 {
        lemma_header_cells_len(m.cols, m.vertical_char);
    }
    assert forall|r: int| 0 <= r < m.rows implies spec_body_row(
        m.cols,
        r,
        m.vertical_char,
    ).len() == spec_cells_width(m.cols) + 1 by {
        lemma_body_cells_len(m.cols, r, m.vertical_char);
    }
}

proof fn lemma_cells_width_take_le(cols: Seq<ColModel>, k: int)
    requires
        0 <= k <= cols.len(),
    ensures
        spec_cells_width(cols.take(k)) <= spec_cells_width(cols),
    decreases cols.len() - k,
{
    if k == cols.len() {
        assert(cols.take(k) =~= cols);
    } else {
        lemma_cells_width_take_le(cols, k + 1);
        assert(cols.take(k + 1).drop_last() =~= cols.take(k));
    }
}

proof fn lemma_divider_boundary(cols: Seq<ColModel>, lc: char, cc: char, k: int)
    requires
        0 <= k <= cols.len(),
    ensures
        0 <= spec_boundary(cols, k) < spec_divider(cols, lc, cc).len(),
        spec_divider(cols, lc, cc)[spec_boundary(cols, k)] == cc,
    decreases cols.len(),
{
    lemma_divider_cells_len(cols, lc, cc);
    if k == cols.len() {
        assert(cols.take(k) =~= cols);
    } else {
        let prev = cols.drop_last();
        lemma_divider_boundary(prev, lc, cc, k);
        lemma_divider_cells_len(prev, lc, cc);
        lemma_cells_width_take_le(prev, k);
        assert(prev.take(k) =~= cols.take(k));
    }
}

proof fn lemma_header_boundary(cols: Seq<ColModel>, vc: char, k: int)
    requires
        cols_wf(cols),
        0 <= k <= cols.len(),
    ensures
        0 <= spec_boundary(cols, k) < spec_header_row(cols, vc).len(),
        spec_header_row(cols, vc)[spec_boundary(cols, k)] == vc,
    decreases cols.len(),
{
    lemma_header_cells_len(cols, vc);
    if k == cols.len() {
        assert(cols.take(k) =~= cols);
    } else {
        let prev = cols.drop_last();
        lemma_header_boundary(prev, vc, k);
        lemma_header_cells_len(prev, vc);
        lemma_cells_width_take_le(prev, k);
        assert(prev.take(k) =~= cols.take(k));
    }
}

proof fn lemma_body_boundary(cols: Seq<ColModel>, r: int, vc: char, k: int)
    requires
        cols_wf(cols),
        forall|i: int| 0 <= i < cols.len() ==> 0 <= r < (#[trigger] cols[i]).cells.len(),
        0 <= k <= cols.len(),
    ensures
        0 <= spec_boundary(cols, k) < spec_body_row(cols, r, vc).len(),
        spec_body_row(cols, r, vc)[spec_boundary(cols, k)] == vc,
    decreases cols.len(),
{
    lemma_body_cells_len(cols, r, vc);
    if k == cols.len() {
        assert(cols.take(k) =~= cols);
    } else {
        let prev = cols.drop_last();
        lemma_body_boundary(prev, r, vc, k);
        lemma_body_cells_len(prev, r, vc);
        lemma_cells_width_take_le(prev, k);
        assert(prev.take(k) =~= cols.take(k));
    }
}

/// Dividers and content lines align character for character: the `k`-th
/// column boundary sits at the same offset in every rendered line, and the
/// character there is the corner character (on dividers) or the vertical
/// character (on header and body lines).
pub proof fn lemma_boundaries_align(m: TableModel, i: int, k: int)
    requires
        table_wf(m),
        0 <= i < spec_lines(m).len(),
        0 <= k <= m.cols.len(),
    ensures
        ({
            let ln = spec_lines(m)[i];
            let pos = spec_boundary(m.cols, k);
            &&& 0 <= pos < ln.len()
            &&& (ln[pos] == m.corner_char || ln[pos] == m.vertical_char)
        }),
{
    lemma_divider_boundary(m.cols, m.line_char, m.corner_char, k);
    if m.show_header && m.cols.len() > 0 {
        lemma_header_boundary(m.cols, m.vertical_char, k);
    }
    assert forall|r: int| 0 <= r < m.rows implies 0 <= spec_boundary(m.cols, k)
        < (#[trigger] spec_body_row(m.cols, r, m.vertical_char)).len() && spec_body_row(
        m.cols,
        r,
        m.vertical_char,
    )[spec_boundary(m.cols, k)] == m.vertical_char by {
        lemma_body_boundary(m.cols, r, m.vertical_char, k);
    }
}

proof fn lemma_join_uniform_len(lines: Seq<Seq<char>>, w: nat)
    requires
        lines.len() >= 1,
        forall|j: int| 0 <= j < lines.len() ==> (#[trigger] lines[j]).len() == w,
    ensures
        spec_join_lines(lines).len() == lines.len() * (w + 1) - 1,
    decreases lines.len(),
{
    if lines.len() > 1 {
        let prev = lines.drop_last();
        assert forall|j: int| 0 <= j < prev.len() implies (#[trigger] prev[j]).len() == w by {
            assert(prev[j] == lines[j]);
        }
        lemma_join_uniform_len(prev, w);
        assert(lines.len() * (w + 1) == (lines.len() - 1) * (w + 1) + (w + 1))
            by (nonlinear_arith);
    }
}

proof fn lemma_join_uniform_index(lines: Seq<Seq<char>>, w: nat, i: int)
    requires
        lines.len() >= 1,
        forall|j: int| 0 <= j < lines.len() ==> (#[trigger] lines[j]).len() == w,
        0 <= i < lines.len(),
    ensures
        spec_join_lines(lines).subrange(i * (w + 1), i * (w + 1) + w) == lines[i],
        i < lines.len() - 1 ==> spec_join_lines(lines)[i * (w + 1) + w] == '\n',
    decreases lines.len(),
{
    lemma_join_uniform_len(lines, w);
    let n = lines.len() as int;
    let joined = spec_join_lines(lines);
    if n == 1 {
        assert(joined.subrange(0, w as int) =~= lines[0]);
    } else {
        let prev = lines.drop_last();
        assert forall|j: int| 0 <= j < prev.len() implies (#[trigger] prev[j]).len() == w by {
            assert(prev[j] == lines[j]);
        }
        lemma_join_uniform_len(prev, w);
        let jp = spec_join_lines(prev);
        assert(n * (w + 1) == (n - 1) * (w + 1) + (w + 1)) by (nonlinear_arith);
        if i < n - 1 {
            lemma_join_uniform_index(prev, w, i);
            assert(i * (w + 1) + w <= (n - 2) * (w + 1) + w) by (nonlinear_arith)
                requires
                    i <= n - 2,
                    w >= 0,
            ;
            assert((n - 2) * (w + 1) + w == (n - 1) * (w + 1) - 1) by (nonlinear_arith);
            assert(joined.subrange(i * (w + 1), i * (w + 1) + w) =~= jp.subrange(
                i * (w + 1),
                i * (w + 1) + w,
            ));
            if i == n - 2 {
                assert(joined[jp.len() as int] == '\n');
            }
        } else {
            assert(i * (w + 1) == jp.len() + 1);
            assert(joined.subrange(i * (w + 1), i * (w + 1) + w) =~= lines.last());
        }
    }
}

/// The rendered string is a uniform character grid: with line width
/// `W = spec_cells_width(m.cols) + 1`, line `i` occupies exactly the
/// subrange starting at offset `i * (W + 1)`, and a newline character
/// follows every line but the last.
pub proof fn lemma_render_grid(m: TableModel, i: int)
    requires
        table_wf(m),
        0 <= i < spec_lines(m).len(),
    ensures
        ({
            let w = spec_cells_width(m.cols) + 1;
            let lines = spec_lines(m);
            &&& spec_render(m).len() == lines.len() * (w + 1) - 1
            &&& spec_render(m).subrange(i * (w + 1), i * (w + 1) + w) == lines[i]
            &&& (i < lines.len() - 1 ==> spec_render(m)[i * (w + 1) + w] == '\n')
        }),
{
    let w = (spec_cells_width(m.cols) + 1) as nat;
    let lines = spec_lines(m);
    assert forall|j: int| 0 <= j < lines.len() implies (#[trigger] lines[j]).len() == w by {
        lemma_lines_uniform_width(m, j);
    }
    lemma_join_uniform_len(lines, w);
    lemma_join_uniform_index(lines, w, i);
}

/// Rendering is a pure function of the table's contents: two renderings of
/// the same table are character-for-character identical.
pub proof fn lemma_render_deterministic(m: TableModel, r1: Seq<char>, r2: Seq<char>)
    requires
        r1 == spec_render(m),
        r2 == spec_render(m),
    ensures
        r1 == r2,
{
}

} // verus!
