//! The executable table builder and renderer.

use crate::align::Alignment;
use crate::align::fits;
use crate::align::spec_aligned;
use crate::align::spec_repeat;
use crate::model::ColModel;
use crate::model::TableModel;
use crate::model::col_wf;
use crate::model::lemma_join_push;
use crate::model::lemma_max_width_bounds;
use crate::model::lemma_max_width_push;
use crate::model::spec_add_row;
use crate::model::spec_body_cells;
use crate::model::spec_body_row;
use crate::model::spec_divider;
use crate::model::spec_divider_cells;
use crate::model::spec_empty_table;
use crate::model::spec_header_cells;
use crate::model::spec_header_row;
use crate::model::spec_join_lines;
use crate::model::spec_lines;
use crate::model::spec_new_col;
use crate::model::spec_render;
use crate::model::table_wf;
use vstd::prelude::*;
use vstd::string::StrSliceExecFns;

verus! {

/// One column of the table: its header label, the cell text of every body
/// row added so far, the widest display length seen, and the padding policy.
#[derive(Debug)]
pub struct Item {
    key: String,
    value: Vec<String>,
    max_value_len: usize,
    alignment: Alignment,
}

impl View for Item {
    type V = ColModel;

    closed spec fn view(&self) -> ColModel {
        ColModel {
            key: self.key@,
            cells: Seq::new(self.value@.len(), |i: int| self.value@[i]@),
            width: self.max_value_len as nat,
            align: self.alignment,
        }
    }
}

impl Item {
    /// A fresh column: no cells, the width is the label's display length.
    fn new(key: &str, alignment: Alignment) -> (it: Item)
        requires
            key@.len() + 2 <= usize::MAX,
        ensures
            it@ == spec_new_col(key@, alignment),
            col_wf(it@),
    {
        let n = key.unicode_len();
        let it = Item { key: key.to_owned(), value: Vec::new(), max_value_len: n, alignment };
        proof {
            assert(it@.cells =~= Seq::<Seq<char>>::empty());
            assert(it@ =~~= spec_new_col(key@, alignment));
        }
        it
    }
}

/// A table under construction: the columns, the number of body rows added,
/// and the rendering options.
#[derive(Debug)]
pub struct PreTable {
    items: Vec<Item>,
    body_length: usize,
    show_header: bool,
    is_body_split: bool,
    line_char: char,
    vertical_char: char,
    corner_char: char,
    default_alignment: Alignment,
}

impl View for PreTable {
    type V = TableModel;

    closed spec fn view(&self) -> TableModel {
        TableModel {
            cols: Seq::new(self.items@.len(), |i: int| self.items@[i]@),
            rows: self.body_length as nat,
            show_header: self.show_header,
            split_rows: self.is_body_split,
            line_char: self.line_char,
            vertical_char: self.vertical_char,
            corner_char: self.corner_char,
            default_align: self.default_alignment,
        }
    }
}

/// Relies on `String::push`: appends the one character to the end.
#[verifier::external_body]
fn push_char(s: &mut String, c: char)
    ensures
        final(s)@ == old(s)@.push(c),
{
    s.push(c);
}

/// Appends `n` copies of `c` to the buffer.
fn push_repeat(s: &mut String, c: char, n: usize)
    ensures
        final(s)@ == old(s)@ + spec_repeat(c, n as nat),
{
    let ghost s0 = s@;
    let mut i: usize = 0;
    while i < n
        invariant
            i <= n,
            s@ == s0 + spec_repeat(c, i as nat),
        decreases n - i,
    {
        push_char(s, c);
        proof {
            assert(s0 + spec_repeat(c, (i + 1) as nat) =~= (s0 + spec_repeat(c, i as nat)).push(
                c,
            ));
        }
        i = i + 1;
    }
    proof {
        assert(s@ =~= s0 + spec_repeat(c, n as nat));
    }
}

/// Appends a newline and then the given line to the buffer.
fn push_line(out: &mut String, line: &str)
    ensures
        final(out)@ == old(out)@ + seq!['\n'] + line@,
{
    let ghost o0 = out@;
    push_char(out, '\n');
    out.append(line);
    proof {
        assert(out@ =~= o0 + seq!['\n'] + line@);
    }
}

impl PreTable {
    /// Internal consistency: every column holds one cell per body row and
    /// tracks the true maximum display length, with room for the two padding
    /// spaces. Every constructor establishes this and every method preserves
    /// it.
    pub open spec fn wf(&self) -> bool {
        table_wf(self@)
    }

    /// Creates a new, empty table with the default rendering options.
    pub fn new() -> (t: Self)
        ensures
            t.wf(),
            t@ == spec_empty_table(),
    {
        let t = PreTable {
            items: Vec::new(),
            body_length: 0,
            show_header: true,
            is_body_split: false,
            line_char: '-',
            vertical_char: '|',
            corner_char: '+',
            default_alignment: Alignment::Center,
        };
        proof {
            assert(t@.cols =~= spec_empty_table().cols);
            assert(t@ =~~= spec_empty_table());
        }
        t
    }

    /// Appends a single new column with the table's default alignment. The
    /// table must not hold body rows yet: columns are defined before rows.
    pub fn add_header(&mut self, v: &str)
        requires
            old(self).wf(),
            old(self)@.rows == 0,
            v@.len() + 2 <= usize::MAX,
        ensures
            final(self).wf(),
            final(self)@ == (TableModel {
                cols: old(self)@.cols.push(spec_new_col(v@, old(self)@.default_align)),
                ..old(self)@
            }),
    {
        let a = self.default_alignment;
        self.add_header_with_alignment(v, a);
    }

    /// Appends a single new column with the given alignment. The table must
    /// not hold body rows yet: columns are defined before rows.
    pub fn add_header_with_alignment(&mut self, v: &str, alignment: Alignment)
        requires
            old(self).wf(),
            old(self)@.rows == 0,
            v@.len() + 2 <= usize::MAX,
        ensures
            final(self).wf(),
            final(self)@ == (TableModel {
                cols: old(self)@.cols.push(spec_new_col(v@, alignment)),
                ..old(self)@
            }),
    {
        let ghost m0 = self@;
        self.items.push(Item::new(v, alignment));
        proof {
            assert(self@.cols =~= m0.cols.push(spec_new_col(v@, alignment)));
            assert(self@ =~~= TableModel { cols: m0.cols.push(spec_new_col(v@, alignment)), ..m0 });
        }
    }

    /// Replaces all columns: every label becomes a fresh column with the
    /// table's default alignment, and all body rows are dropped.
    pub fn set_header(&mut self, v: Vec<&str>)
        requires
            forall|i: int| 0 <= i < v@.len() ==> (#[trigger] v@[i])@.len() + 2 <= usize::MAX,
        ensures
            final(self).wf(),
            final(self)@ == (TableModel {
                cols: Seq::new(
                    v@.len(),
                    |i: int| spec_new_col(v@[i]@, old(self)@.default_align),
                ),
                rows: 0,
                ..old(self)@
            }),
    {
        let ghost m0 = self@;
        self.items = Vec::new();
        self.body_length = 0;
        proof {
            assert(self@.cols =~= Seq::<ColModel>::empty());
        }
        let mut i: usize = 0;
        while i < v.len()
            invariant
                i <= v@.len(),
                forall|j: int| 0 <= j < v@.len() ==> (#[trigger] v@[j])@.len() + 2 <= usize::MAX,
                self.wf(),
                self@ == (TableModel {
                    cols: Seq::new(i as nat, |j: int| spec_new_col(v@[j]@, m0.default_align)),
                    rows: 0,
                    ..m0
                }),
            decreases v@.len() - i,
        {
            let a = self.default_alignment;
            self.add_header_with_alignment(v[i], a);
            proof {
                assert(self@.cols =~= Seq::new(
                    (i + 1) as nat,
                    |j: int| spec_new_col(v@[j]@, m0.default_align),
                ));
                assert(self@ =~~= TableModel {
                    cols: Seq::new((i + 1) as nat, |j: int| spec_new_col(v@[j]@, m0.default_align)),
                    rows: 0,
                    ..m0
                });
            }
            i = i + 1;
        }
        proof {
            assert(self@ =~~= TableModel {
                cols: Seq::new(v@.len(), |j: int| spec_new_col(v@[j]@, m0.default_align)),
                rows: 0,
                ..m0
            });
        }
    }

    /// Replaces all columns: every pair becomes a fresh column with its own
    /// alignment, and all body rows are dropped.
    pub fn set_header_with_alignment(&mut self, v: Vec<(&str, Alignment)>)
        requires
            forall|i: int| 0 <= i < v@.len() ==> (#[trigger] v@[i]).0@.len() + 2 <= usize::MAX,
        ensures
            final(self).wf(),
            final(self)@ == (TableModel {
                cols: Seq::new(v@.len(), |i: int| spec_new_col(v@[i].0@, v@[i].1)),
                rows: 0,
                ..old(self)@
            }),
    {
        let ghost m0 = self@;
        self.items = Vec::new();
        self.body_length = 0;
        proof {
            assert(self@.cols =~= Seq::<ColModel>::empty());
        }
        let mut i: usize = 0;
        while i < v.len()
            invariant
                i <= v@.len(),
                forall|j: int| 0 <= j < v@.len() ==> (#[trigger] v@[j]).0@.len() + 2 <= usize::MAX,
                self.wf(),
                self@ == (TableModel {
                    cols: Seq::new(i as nat, |j: int| spec_new_col(v@[j].0@, v@[j].1)),
                    rows: 0,
                    ..m0
                }),
            decreases v@.len() - i,
        {
            let pair = v[i];
            self.add_header_with_alignment(pair.0, pair.1);
            proof {
                assert(self@.cols =~= Seq::new(
                    (i + 1) as nat,
                    |j: int| spec_new_col(v@[j].0@, v@[j].1),
                ));
                assert(self@ =~~= TableModel {
                    cols: Seq::new((i + 1) as nat, |j: int| spec_new_col(v@[j].0@, v@[j].1)),
                    rows: 0,
                    ..m0
                });
            }
            i = i + 1;
        }
        proof {
            assert(self@ =~~= TableModel {
                cols: Seq::new(v@.len(), |j: int| spec_new_col(v@[j].0@, v@[j].1)),
                rows: 0,
                ..m0
            });
        }
    }

    /// Appends one body row. Every column gains one cell: the value at the
    /// column's index when the row supplies one, the empty string otherwise;
    /// values past the column count are discarded. Each column's width
    /// absorbs the new cell's display length.
    pub fn add_body(&mut self, v: Vec<&str>)
        requires
            old(self).wf(),
            old(self)@.rows < usize::MAX,
            forall|i: int|
                0 <= i < v@.len() && i < old(self)@.cols.len() ==> (#[trigger] v@[i])@.len() + 2
                    <= usize::MAX,
        ensures
            final(self).wf(),
            final(self)@ == spec_add_row(old(self)@, v@.map_values(|s: &str| s@)),
    {
        let ghost m0 = self@;
        let ghost vals = v@.map_values(|s: &str| s@);
        let ghost target = spec_add_row(m0, vals);
        self.body_length = self.body_length + 1;
        let n = self.items.len();
        let mut i: usize = 0;
        while i < n
            invariant
                i <= n,
                self.items@.len() == n,
                n == m0.cols.len(),
                self@.rows == m0.rows + 1,
                self@.show_header == m0.show_header,
                self@.split_rows == m0.split_rows,
                self@.line_char == m0.line_char,
                self@.vertical_char == m0.vertical_char,
                self@.corner_char == m0.corner_char,
                self@.default_align == m0.default_align,
                v@.len() == vals.len(),
                forall|j: int| 0 <= j < vals.len() ==> vals[j] == (#[trigger] v@[j])@,
                forall|j: int|
                    0 <= j < vals.len() && j < n ==> (#[trigger] vals[j]).len() + 2 <= usize::MAX,
                table_wf(m0),
                target == spec_add_row(m0, vals),
                forall|j: int| 0 <= j < n - i ==> (#[trigger] self.items@[j])@ == m0.cols[i + j],
                forall|j: int|
                    n - i <= j < n ==> (#[trigger] self.items@[j])@ == target.cols[j - (n - i)],
            decreases n - i,
        {
            let mut item = self.items.remove(0);
            let value: &str = if i < v.len() {
                v[i]
            } else {
                ""
            };
            proof {
                reveal_strlit("");
                assert(""@ =~= Seq::<char>::empty());
            }
            let ghost vi: Seq<char> = if 0 <= i < vals.len() {
                vals[i as int]
            } else {
                Seq::<char>::empty()
            };
            let ghost cells_pre = item@.cells;
            let vlen = value.unicode_len();
            item.value.push(value.to_owned());
            if item.max_value_len < vlen {
                item.max_value_len = vlen;
            }
            proof {
                assert(item@.cells =~= cells_pre.push(vi));
                assert(item@ =~~= target.cols[i as int]);
            }
            self.items.push(item);
            i = i + 1;
        }
        proof {
            assert(self@.cols =~= target.cols);
            assert(self@ =~~= target);
            assert forall|j: int| 0 <= j < target.cols.len() implies (#[trigger] target.cols[j]).cells.len()
                == target.rows && col_wf(target.cols[j]) by {
                let vj: Seq<char> = if 0 <= j < vals.len() {
                    vals[j]
                } else {
                    Seq::<char>::empty()
                };
                lemma_max_width_push(m0.cols[j].key, m0.cols[j].cells, vj);
            }
        }
    }

    /// Decides whether the header line is emitted when rendering.
    pub fn set_show_header(&mut self, b: bool)
        ensures
            final(self)@ == (TableModel { show_header: b, ..old(self)@ }),
    {
        self.show_header = b;
    }

    /// Decides whether a divider is emitted after every body row.
    pub fn set_body_split(&mut self, b: bool)
        ensures
            final(self)@ == (TableModel { split_rows: b, ..old(self)@ }),
    {
        self.is_body_split = b;
    }

    /// Sets the character dividers are drawn with.
    pub fn set_line_char(&mut self, c: char)
        ensures
            final(self)@ == (TableModel { line_char: c, ..old(self)@ }),
    {
        self.line_char = c;
    }

    /// Sets the character that separates cells in header and body lines.
    pub fn set_vertical_char(&mut self, c: char)
        ensures
            final(self)@ == (TableModel { vertical_char: c, ..old(self)@ }),
    {
        self.vertical_char = c;
    }

    /// Sets the character drawn at column boundaries of dividers.
    pub fn set_corner_char(&mut self, c: char)
        ensures
            final(self)@ == (TableModel { corner_char: c, ..old(self)@ }),
    {
        self.corner_char = c;
    }

    /// Sets the alignment that columns created without one receive.
    pub fn set_default_alignment(&mut self, a: Alignment)
        ensures
            final(self)@ == (TableModel { default_align: a, ..old(self)@ }),
    {
        self.default_alignment = a;
    }

    /// Builds one divider line from the current column widths: a corner
    /// character at every column boundary, `width + 2` line characters in
    /// between.
    pub fn line(&self) -> (r: String)
        requires
            self.wf(),
        ensures
            r@ == spec_divider(self@.cols, self@.line_char, self@.corner_char),
    {
        let mut s = String::new();
        let n = self.items.len();
        let mut i: usize = 0;
        while i < n
            invariant
                i <= n,
                n == self.items@.len(),
                self.wf(),
                s@ == spec_divider_cells(
                    self@.cols.take(i as int),
                    self@.line_char,
                    self@.corner_char,
                ),
            decreases n - i,
        {
            proof {
                assert(col_wf(self@.cols[i as int]));
            }
            push_char(&mut s, self.corner_char);
            let it = &self.items[i];
            push_repeat(&mut s, self.line_char, it.max_value_len + 2);
            proof {
                assert(self@.cols.take(i + 1).drop_last() =~= self@.cols.take(i as int));
                assert(s@ =~= spec_divider_cells(
                    self@.cols.take(i + 1),
                    self@.line_char,
                    self@.corner_char,
                ));
            }
            i = i + 1;
        }
        push_char(&mut s, self.corner_char);
        proof {
            assert(self@.cols.take(n as int) =~= self@.cols);
            assert(s@ =~= spec_divider(self@.cols, self@.line_char, self@.corner_char));
        }
        s
    }

    /// Builds the header line: every column's padded label between vertical
    /// characters.
    fn header(&self) -> (r: String)
        requires
            self.wf(),
        ensures
            r@ == spec_header_row(self@.cols, self@.vertical_char),
    {
        let mut s = String::new();
        let n = self.items.len();
        let mut i: usize = 0;
        while i < n
            invariant
                i <= n,
                n == self.items@.len(),
                self.wf(),
                s@ == spec_header_cells(self@.cols.take(i as int), self@.vertical_char),
            decreases n - i,
        {
            proof {
                assert(col_wf(self@.cols[i as int]));
                lemma_max_width_bounds(self@.cols[i as int].key, self@.cols[i as int].cells);
            }
            push_char(&mut s, self.vertical_char);
            let it = &self.items[i];
            Self::format_align(it.key.as_str(), it.max_value_len + 2, it.alignment, &mut s);
            proof {
                assert(self@.cols.take(i + 1).drop_last() =~= self@.cols.take(i as int));
                assert(s@ =~= spec_header_cells(self@.cols.take(i + 1), self@.vertical_char));
            }
            i = i + 1;
        }
        push_char(&mut s, self.vertical_char);
        proof {
            assert(self@.cols.take(n as int) =~= self@.cols);
            assert(s@ =~= spec_header_row(self@.cols, self@.vertical_char));
        }
        s
    }

    /// Builds every body line: for each stored row, every column's padded
    /// cell between vertical characters.
    fn body(&self) -> (rows: Vec<String>)
        requires
            self.wf(),
        ensures
            rows@.len() == self@.rows,
            forall|r: int|
                0 <= r < self@.rows ==> (#[trigger] rows@[r])@ == spec_body_row(
                    self@.cols,
                    r,
                    self@.vertical_char,
                ),
    {
        let mut rows: Vec<String> = Vec::new();
        let mut r: usize = 0;
        while r < self.body_length
            invariant
                r <= self@.rows,
                self.wf(),
                rows@.len() == r,
                forall|q: int|
                    0 <= q < r ==> (#[trigger] rows@[q])@ == spec_body_row(
                        self@.cols,
                        q,
                        self@.vertical_char,
                    ),
            decreases self@.rows - r,
        {
            let mut s = String::new();
            let n = self.items.len();
            let mut i: usize = 0;
            while i < n
                invariant
                    i <= n,
                    r < self@.rows,
                    n == self.items@.len(),
                    self.wf(),
                    s@ == spec_body_cells(
                        self@.cols.take(i as int),
                        r as int,
                        self@.vertical_char,
                    ),
                decreases n - i,
            {
                proof {
                    assert(col_wf(self@.cols[i as int]));
                    lemma_max_width_bounds(self@.cols[i as int].key, self@.cols[i as int].cells);
                    assert(self@.cols[i as int] == self.items@[i as int]@);
                    assert(self@.cols[i as int].cells[r as int] == self.items@[i as int].value@[r as int]@);
                    assert(self@.cols[i as int].cells[r as int].len() <= self@.cols[i as int].width);
                }
                push_char(&mut s, self.vertical_char);
                let it = &self.items[i];
                Self::format_align(
                    it.value[r].as_str(),
                    it.max_value_len + 2,
                    it.alignment,
                    &mut s,
                );
                proof {
                    assert(self@.cols.take(i + 1).drop_last() =~= self@.cols.take(i as int));
                    assert(s@ =~= spec_body_cells(
                        self@.cols.take(i + 1),
                        r as int,
                        self@.vertical_char,
                    ));
                }
                i = i + 1;
            }
            push_char(&mut s, self.vertical_char);
            proof {
                assert(self@.cols.take(n as int) =~= self@.cols);
                assert(s@ =~= spec_body_row(self@.cols, r as int, self@.vertical_char));
            }
            rows.push(s);
            r = r + 1;
        }
        rows
    }

    /// Renders the whole table into one string: a divider; the header line
    /// and a divider when the header is shown and columns exist; then, when
    /// rows exist, either every body line followed by a divider (split mode)
    /// or all body lines and one closing divider. Lines are joined by single
    /// newlines. Rendering reads the table without changing it.
    pub fn output(&self) -> (r: String)
        requires
            self.wf(),
        ensures
            r@ == spec_render(self@),
    {
        let ghost m = self@;
        let divider = self.line();
        let mut out = divider.clone();
        let ghost mut lines: Seq<Seq<char>> = seq![divider@];
        proof {
            assert(out@ == spec_join_lines(lines));
        }
        if self.show_header && self.items.len() > 0 {
            let h = self.header();
            push_line(&mut out, h.as_str());
            proof {
                lemma_join_push(lines, h@);
                lines = lines.push(h@);
            }
            push_line(&mut out, divider.as_str());
            proof {
                lemma_join_push(lines, divider@);
                lines = lines.push(divider@);
            }
        }
        let ghost base = lines;
        let body = self.body();
        if self.body_length > 0 {
            if self.is_body_split {
                let mut r: usize = 0;
                while r < body.len()
                    invariant
                        r <= body@.len(),
                        body@.len() == m.rows,
                        m == self@,
                        divider@ == spec_divider(m.cols, m.line_char, m.corner_char),
                        forall|q: int|
                            0 <= q < m.rows ==> (#[trigger] body@[q])@ == spec_body_row(
                                m.cols,
                                q,
                                m.vertical_char,
                            ),
                        lines == base + Seq::new(
                            (2 * r) as nat,
                            |k: int|
                                if k % 2 == 0 {
                                    spec_body_row(m.cols, k / 2, m.vertical_char)
                                } else {
                                    spec_divider(m.cols, m.line_char, m.corner_char)
                                },
                        ),
                        lines.len() >= 1,
                        out@ == spec_join_lines(lines),
                    decreases body@.len() - r,
                {
                    push_line(&mut out, body[r].as_str());
                    proof {
                        lemma_join_push(lines, body@[r as int]@);
                        lines = lines.push(body@[r as int]@);
                    }
                    push_line(&mut out, divider.as_str());
                    proof {
                        lemma_join_push(lines, divider@);
                        lines = lines.push(divider@);
                        assert(lines =~= base + Seq::new(
                            (2 * (r + 1)) as nat,
                            |k: int|
                                if k % 2 == 0 {
                                    spec_body_row(m.cols, k / 2, m.vertical_char)
                                } else {
                                    spec_divider(m.cols, m.line_char, m.corner_char)
                                },
                        ));
                    }
                    r = r + 1;
                }
            } else {
                let mut r: usize = 0;
                while r < body.len()
                    invariant
                        r <= body@.len(),
                        body@.len() == m.rows,
                        m == self@,
                        divider@ == spec_divider(m.cols, m.line_char, m.corner_char),
                        forall|q: int|
                            0 <= q < m.rows ==> (#[trigger] body@[q])@ == spec_body_row(
                                m.cols,
                                q,
                                m.vertical_char,
                            ),
                        lines == base + Seq::new(
                            r as nat,
                            |k: int| spec_body_row(m.cols, k, m.vertical_char),
                        ),
                        lines.len() >= 1,
                        out@ == spec_join_lines(lines),
                    decreases body@.len() - r,
                {
                    push_line(&mut out, body[r].as_str());
                    proof {
                        lemma_join_push(lines, body@[r as int]@);
                        lines = lines.push(body@[r as int]@);
                        assert(lines =~= base + Seq::new(
                            (r + 1) as nat,
                            |k: int| spec_body_row(m.cols, k, m.vertical_char),
                        ));
                    }
                    r = r + 1;
                }
                push_line(&mut out, divider.as_str());
                proof {
                    lemma_join_push(lines, divider@);
                    lines = lines.push(divider@);
                }
            }
        }
        proof {
            assert(lines =~= spec_lines(m));
        }
        out
    }

    /// Pads `v` with spaces to exactly `count` display cells and appends the
    /// padded text to `buf`. Center splits the leftover padding, floor on
    /// the left; Left puts one space before the value, Right one after it.
    pub fn format_align(v: &str, count: usize, alignment: Alignment, buf: &mut String)
        requires
            fits(v@.len(), count as nat, alignment),
        ensures
            final(buf)@ == old(buf)@ + spec_aligned(v@, count as nat, alignment),
    {
        let ghost b0 = buf@;
        let len = v.unicode_len();
        let padding = count - len;
        let start: usize = match alignment {
            Alignment::Left => 1,
            Alignment::Center => padding / 2,
            Alignment::Right => padding - 1,
        };
        let end = padding - start;
        push_repeat(buf, ' ', start);
        buf.append(v);
        push_repeat(buf, ' ', end);
        proof {
            assert(buf@ =~= b0 + spec_aligned(v@, count as nat, alignment));
        }
    }
}

} // verus!
