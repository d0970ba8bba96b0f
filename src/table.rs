//! GFM pipe tables: rows of cell texts rendered with a separator row after the
//! header, every row padded to the same number of columns.
use vstd::prelude::*;

use crate::text::{push_all, push_str, views};

verus! {

/// The `i`th cell of a row, or the empty text past its end.
pub open spec fn cell_at(cells: Seq<Seq<char>>, i: int) -> Seq<char> {
    if 0 <= i < cells.len() {
        cells[i]
    } else {
        Seq::empty()
    }
}

/// The first `w` cells, each as `" <text> |"`.
pub open spec fn row_cells_text(cells: Seq<Seq<char>>, w: nat) -> Seq<char>
    decreases w,
{
    if w == 0 {
        Seq::empty()
    } else {
        row_cells_text(cells, (w - 1) as nat) + " "@ + cell_at(cells, w - 1) + " |"@
    }
}

/// One table line of exactly `w` cells; missing cells are empty.
pub open spec fn table_row(cells: Seq<Seq<char>>, w: nat) -> Seq<char> {
    "|"@ + row_cells_text(cells, w) + "\n"@
}

pub open spec fn separator_cells(w: nat) -> Seq<char>
    decreases w,
{
    if w == 0 {
        Seq::empty()
    } else {
        separator_cells((w - 1) as nat) + " --- |"@
    }
}

/// The line between header and data: `---` in each of `w` columns.
pub open spec fn separator_row(w: nat) -> Seq<char> {
    "|"@ + separator_cells(w) + "\n"@
}

pub open spec fn max_nat(a: nat, b: nat) -> nat {
    if a >= b {
        a
    } else {
        b
    }
}

/// The length of the longest row.
pub open spec fn max_width(rows: Seq<Seq<Seq<char>>>) -> nat
    decreases rows.len(),
{
    if rows.len() == 0 {
        0
    } else {
        max_nat(max_width(rows.drop_last()), rows.last().len())
    }
}

/// The lines of a table whose first row is the header: header, separator, then
/// each data row, all `w` cells wide.
pub open spec fn table_lines(rows: Seq<Seq<Seq<char>>>, w: nat) -> Seq<Seq<char>> {
    seq![table_row(rows[0], w), separator_row(w)] + rows.drop_first().map_values(
        |r: Seq<Seq<char>>| table_row(r, w),
    )
}

pub open spec fn concat_lines(ls: Seq<Seq<char>>) -> Seq<char>
    decreases ls.len(),
{
    if ls.len() == 0 {
        Seq::empty()
    } else {
        concat_lines(ls.drop_last()) + ls.last()
    }
}

/// The Markdown of a table: nothing when it has no row or no cell; otherwise
/// its lines, as wide as the longest row.
pub open spec fn markdown_table(rows: Seq<Seq<Seq<char>>>) -> Seq<char> {
    if rows.len() == 0 || max_width(rows) == 0 {
        Seq::empty()
    } else {
        concat_lines(table_lines(rows, max_width(rows)))
    }
}

/// The number of `|` in a text.
pub open spec fn bar_count(s: Seq<char>) -> nat
    decreases s.len(),
{
    if s.len() == 0 {
        0
    } else {
        bar_count(s.drop_last()) + if s.last() == '|' {
            1nat
        } else {
            0nat
        }
    }
}

/// The columns of a table line: one fewer than its `|` separators.
pub open spec fn column_count(line: Seq<char>) -> int {
    bar_count(line) - 1
}

pub open spec fn no_bar(s: Seq<char>) -> bool {
    forall|i: int| 0 <= i < s.len() ==> s[i] != '|'
}

pub open spec fn cells_without_bars(rows: Seq<Seq<Seq<char>>>) -> bool {
    forall|r: int, c: int| 0 <= r < rows.len() && 0 <= c < rows[r].len() ==> no_bar(#[trigger] rows[r][c])
}

pub proof fn lemma_bar_count_concat(a: Seq<char>, b: Seq<char>)
    ensures
        bar_count(a + b) == bar_count(a) + bar_count(b),
    decreases b.len(),
{
    if b.len() == 0 {
        assert(a + b =~= a);
    } else {
        lemma_bar_count_concat(a, b.drop_last());
        assert((a + b).drop_last() =~= a + b.drop_last());
    }
}

proof fn lemma_bar_count_none(s: Seq<char>)
    requires
        no_bar(s),
    ensures
        bar_count(s) == 0,
    decreases s.len(),
{
    if s.len() > 0 {
        lemma_bar_count_none(s.drop_last());
    }
}

proof fn lemma_literal_bars()
    ensures
        bar_count("|"@) == 1,
        bar_count(" |"@) == 1,
        bar_count(" "@) == 0,
        bar_count("\n"@) == 0,
        bar_count(" --- |"@) == 1,
{
    reveal_strlit("|");
    reveal_strlit(" |");
    reveal_strlit(" ");
    reveal_strlit("\n");
    reveal_strlit(" --- |");
    let e = Seq::<char>::empty();
    assert(bar_count(e) == 0);
    assert(seq![' '].drop_last() =~= e);
    assert(bar_count(seq![' ']) == 0);
    assert(seq!['|'].drop_last() =~= e);
    assert(bar_count(seq!['|']) == 1);
    assert(seq!['\n'].drop_last() =~= e);
    assert(bar_count(seq!['\n']) == 0);
    assert(seq![' ', '|'].drop_last() =~= seq![' ']);
    assert(bar_count(seq![' ', '|']) == 1);
    assert(seq![' ', '-'].drop_last() =~= seq![' ']);
    assert(bar_count(seq![' ', '-']) == 0);
    assert(seq![' ', '-', '-'].drop_last() =~= seq![' ', '-']);
    assert(bar_count(seq![' ', '-', '-']) == 0);
    assert(seq![' ', '-', '-', '-'].drop_last() =~= seq![' ', '-', '-']);
    assert(bar_count(seq![' ', '-', '-', '-']) == 0);
    assert(seq![' ', '-', '-', '-', ' '].drop_last() =~= seq![' ', '-', '-', '-']);
    assert(bar_count(seq![' ', '-', '-', '-', ' ']) == 0);
    assert(seq![' ', '-', '-', '-', ' ', '|'].drop_last() =~= seq![' ', '-', '-', '-', ' ']);
    assert(bar_count(seq![' ', '-', '-', '-', ' ', '|']) == 1);
    assert("|"@ =~= seq!['|']);
    assert(" |"@ =~= seq![' ', '|']);
    assert(" "@ =~= seq![' ']);
    assert("\n"@ =~= seq!['\n']);
    assert(" --- |"@ =~= seq![' ', '-', '-', '-', ' ', '|']);
}

/// A table line of `w` cells has `w + 1` bars when no cell holds one.
pub proof fn lemma_row_bars(cells: Seq<Seq<char>>, w: nat)
    requires
        forall|c: int| 0 <= c < cells.len() ==> no_bar(#[trigger] cells[c]),
    ensures
        bar_count(row_cells_text(cells, w)) == w,
        bar_count(table_row(cells, w)) == w + 1,
    decreases w,
{
    lemma_literal_bars();
    if w > 0 {
        lemma_row_bars(cells, (w - 1) as nat);
        let prev = row_cells_text(cells, (w - 1) as nat);
        let c = cell_at(cells, w - 1);
        if 0 <= w - 1 < cells.len() {
            lemma_bar_count_none(cells[w - 1]);
        } else {
            assert(bar_count(c) == 0);
        }
        lemma_bar_count_concat(prev, " "@);
        lemma_bar_count_concat(prev + " "@, c);
        lemma_bar_count_concat(prev + " "@ + c, " |"@);
    } else {
        assert(row_cells_text(cells, w) =~= Seq::<char>::empty());
    }
    lemma_bar_count_concat("|"@, row_cells_text(cells, w));
    lemma_bar_count_concat("|"@ + row_cells_text(cells, w), "\n"@);
}

/// The separator line of `w` columns has `w + 1` bars.
pub proof fn lemma_separator_bars(w: nat)
    ensures
        bar_count(separator_cells(w)) == w,
        bar_count(separator_row(w)) == w + 1,
    decreases w,
{
    lemma_literal_bars();
    if w > 0 {
        lemma_separator_bars((w - 1) as nat);
        lemma_bar_count_concat(separator_cells((w - 1) as nat), " --- |"@);
    } else {
        assert(separator_cells(w) =~= Seq::<char>::empty());
    }
    lemma_bar_count_concat("|"@, separator_cells(w));
    lemma_bar_count_concat("|"@ + separator_cells(w), "\n"@);
}

/// Every line of a rendered table, the separator included, has exactly as many
/// columns as the longest row has cells, however ragged the rows are (cells
/// holding no `|` of their own).
pub proof fn lemma_table_lines_uniform(rows: Seq<Seq<Seq<char>>>)
    requires
        rows.len() > 0,
        cells_without_bars(rows),
    ensures
        markdown_table(rows) == if max_width(rows) == 0 {
            Seq::empty()
        } else {
            concat_lines(table_lines(rows, max_width(rows)))
        },
        table_lines(rows, max_width(rows)).len() == rows.len() + 1,
        forall|k: int|
            0 <= k < rows.len() + 1 ==> column_count(#[trigger] table_lines(rows, max_width(rows))[k])
                == max_width(rows),
{
    let w = max_width(rows);
    let ls = table_lines(rows, w);
    assert forall|k: int| 0 <= k < rows.len() + 1 implies column_count(#[trigger] ls[k]) == w by {
        if k == 0 {
            assert forall|c: int| 0 <= c < rows[0].len() implies no_bar(#[trigger] rows[0][c]) by {}
            lemma_row_bars(rows[0], w);
        } else if k == 1 {
            lemma_separator_bars(w);
        } else {
            let r = rows[k - 1];
            assert(ls[k] == table_row(rows.drop_first()[k - 2], w));
            assert(rows.drop_first()[k - 2] == r);
            assert forall|c: int| 0 <= c < r.len() implies no_bar(#[trigger] r[c]) by {
                assert(rows[k - 1][c] == r[c]);
            }
            lemma_row_bars(r, w);
        }
    }
}

/// Appends one table line of exactly `w` cells.
pub fn push_table_row(out: &mut Vec<char>, cells: &Vec<Vec<char>>, w: usize)
    ensures
        final(out)@ == old(out)@ + table_row(views(cells@), w as nat),
{
    push_str(out, "|");
    let ghost start = out@;
    let mut i: usize = 0;
    while i < w
        invariant
            i <= w,
            out@ == start + row_cells_text(views(cells@), i as nat),
        decreases w - i,
    {
        push_str(out, " ");
        if i < cells.len() {
            push_all(out, &cells[i]);
        }
        push_str(out, " |");
        i = i + 1;
        assert(out@ =~= start + row_cells_text(views(cells@), i as nat));
    }
    push_str(out, "\n");
    assert(out@ =~= old(out)@ + table_row(views(cells@), w as nat));
}

/// Appends the separator line of `w` columns.
pub fn push_separator_row(out: &mut Vec<char>, w: usize)
    ensures
        final(out)@ == old(out)@ + separator_row(w as nat),
{
    push_str(out, "|");
    let ghost start = out@;
    let mut i: usize = 0;
    while i < w
        invariant
            i <= w,
            out@ == start + separator_cells(i as nat),
        decreases w - i,
    {
        push_str(out, " --- |");
        i = i + 1;
        assert(out@ =~= start + separator_cells(i as nat));
    }
    push_str(out, "\n");
    assert(out@ =~= old(out)@ + separator_row(w as nat));
}

pub open spec fn table_views(rows: Seq<Vec<Vec<char>>>) -> Seq<Seq<Seq<char>>> {
    rows.map_values(|r: Vec<Vec<char>>| views(r@))
}

pub fn max_row_width(rows: &Vec<Vec<Vec<char>>>) -> (w: usize)
    ensures
        w as nat == max_width(table_views(rows@)),
{
    let ghost tv = table_views(rows@);
    let mut w: usize = 0;
    let mut i: usize = 0;
    while i < rows.len()
        invariant
            i <= rows.len(),
            tv == table_views(rows@),
            w as nat == max_width(tv.take(i as int)),
        decreases rows.len() - i,
    {
        assert(tv.take(i + 1).drop_last() =~= tv.take(i as int));
        assert(tv[i as int].len() == rows@[i as int]@.len());
        if rows[i].len() > w {
            w = rows[i].len();
        }
        i = i + 1;
    }
    assert(tv.take(rows.len() as int) =~= tv);
    w
}

/// Renders rows as a GFM table whose first row is the header: every line as
/// wide as the longest row, missing cells empty. Empty when there is no row or
/// no cell.
pub fn render_markdown_table(rows: &Vec<Vec<Vec<char>>>) -> (r: Vec<char>)
    ensures
        r@ == markdown_table(table_views(rows@)),
{
    let ghost tv = table_views(rows@);
    if rows.len() == 0 {
        return Vec::new();
    }
    let w = max_row_width(rows);
    if w == 0 {
        return Vec::new();
    }
    let ghost ls = table_lines(tv, w as nat);
    let mut out: Vec<char> = Vec::new();
    push_table_row(&mut out, &rows[0], w);
    push_separator_row(&mut out, w);
    assert(tv[0] == views(rows@[0]@));
    assert(ls[0] == table_row(tv[0], w as nat));
    assert(ls[1] == separator_row(w as nat));
    assert(ls.take(2).drop_last() =~= ls.take(1));
    assert(ls.take(1).drop_last() =~= ls.take(0));
    assert(concat_lines(ls.take(0)) =~= Seq::<char>::empty());
    assert(concat_lines(ls.take(1)) =~= ls[0]);
    assert(out@ =~= concat_lines(ls.take(2)));
    let mut i: usize = 1;
    while i < rows.len()
        invariant
            1 <= i <= rows.len(),
            tv == table_views(rows@),
            ls == table_lines(tv, w as nat),
            ls.len() == rows.len() + 1,
            out@ == concat_lines(ls.take(i + 1)),
        decreases rows.len() - i,
    {
        push_table_row(&mut out, &rows[i], w);
        assert(ls.take(i + 2).drop_last() =~= ls.take(i + 1));
        assert(ls[i + 1] == table_row(tv.drop_first()[i - 1], w as nat));
        assert(tv.drop_first()[i - 1] == views(rows@[i as int]@));
        i = i + 1;
    }
    assert(ls.take(rows.len() + 1) =~= ls);
    out
}

} // verus!
