//! A table of text cells whose columns are padded to a common width.

use vstd::prelude::*;
use vstd::string::StrSliceExecFns;
use crate::text::views;

verus! {

/// `n` spaces.
pub open spec fn spaces(n: int) -> Seq<char> {
    Seq::new(if n > 0 { n as nat } else { 0 }, |i: int| ' ')
}

/// `text` followed by `n` spaces, or `text` itself where `n` is not positive.
pub open spec fn pad(text: Seq<char>, n: int) -> Seq<char> {
    text + spaces(n)
}

/// The cells of a table as plain values, row by row.
pub open spec fn grid(rows: Seq<Vec<String>>) -> Seq<Seq<Seq<char>>> {
    rows.map_values(|r: Vec<String>| views(r@))
}

/// The width of column `j`: the length of the longest cell that any row has there.
pub open spec fn column_width(rows: Seq<Seq<Seq<char>>>, j: int) -> nat
    decreases rows.len(),
{
    if rows.len() == 0 {
        0
    } else {
        let rest = column_width(rows.drop_last(), j);
        let row = rows.last();
        if 0 <= j < row.len() && row[j].len() > rest {
            row[j].len()
        } else {
            rest
        }
    }
}

/// The table `rows` with every cell padded with spaces to the width of its
/// column.
pub open spec fn aligned(rows: Seq<Seq<Seq<char>>>) -> Seq<Seq<Seq<char>>> {
    Seq::new(
        rows.len(),
        |i: int|
            Seq::new(
                rows[i].len(),
                |j: int| pad(rows[i][j], column_width(rows, j) - rows[i][j].len()),
            ),
    )
}

/// No cell of column `j` is longer than the column's width.
pub(crate) proof fn lemma_column_width_bounds(rows: Seq<Seq<Seq<char>>>, i: int, j: int)
    requires
        0 <= i < rows.len(),
        0 <= j < rows[i].len(),
    ensures
        rows[i][j].len() <= column_width(rows, j),
    decreases rows.len(),
{
    if i < rows.len() - 1 {
        lemma_column_width_bounds(rows.drop_last(), i, j);
    }
}

/// The number of characters in `text`.
pub fn count_chars(text: &str) -> (n: usize)
    ensures
        n == text@.len(),
{
    text.unicode_len()
}

fn fill(text: &str, n: usize) -> (filled: String)
    ensures
        filled@ == pad(text@, n as int),
{
    let mut filled = text.to_owned();
    let mut i: usize = 0;
    proof {
        assert(filled@ =~= pad(text@, 0));
    }
    while i < n
        invariant
            i <= n,
            filled@ == pad(text@, i as int),
        decreases n - i,
    {
        filled.push(' ');
        i += 1;
        proof {
            assert(filled@ =~= pad(text@, i as int));
        }
    }
    filled
}

/// `text` followed by `n` spaces, or `text` itself where `n` is not positive.
pub fn fill_text(text: &str, n: i32) -> (filled: String)
    ensures
        filled@ == pad(text@, n as int),
{
    if n <= 0 {
        proof {
            assert(text@ =~= pad(text@, n as int));
        }
        return text.to_owned();
    }
    fill(text, n as usize)
}

/// The widths of the columns of `rows`.
fn column_widths(rows: &Vec<Vec<String>>) -> (widths: Vec<usize>)
    ensures
        forall|j: int| 0 <= j < widths.len() ==> widths[j] == column_width(grid(rows@), j),
        forall|i: int| 0 <= i < rows.len() ==> (#[trigger] rows[i]).len() <= widths.len(),
{
    let mut widths: Vec<usize> = Vec::new();
    let mut i: usize = 0;
    proof {
        assert(grid(rows@).take(0) =~= Seq::<Seq<Seq<char>>>::empty());
    }
    while i < rows.len()
        invariant
            i <= rows.len(),
            forall|j: int|
                0 <= j < widths.len() ==> widths[j] == column_width(grid(rows@).take(i as int), j),
            forall|j: int| j >= widths.len() ==> column_width(grid(rows@).take(i as int), j) == 0,
            forall|k: int| 0 <= k < i ==> (#[trigger] rows[k]).len() <= widths.len(),
        decreases rows.len() - i,
    {
        let row = &rows[i];
        let ghost done = grid(rows@).take(i as int);
        let ghost next = grid(rows@).take(i + 1);
        let ghost cells = views(row@);
        proof {
            assert(next.drop_last() =~= done);
            assert(next.last() == cells);
        }
        let mut j: usize = 0;
        while j < row.len()
            invariant
                j <= row.len(),
                i < rows.len(),
                row == &rows[i as int],
                cells == views(row@),
                next.len() > 0,
                next.drop_last() == done,
                next.last() == cells,
                j <= widths.len(),
                forall|c: int|
                    0 <= c < widths.len() ==> widths[c] == (if c < j {
                        column_width(next, c)
                    } else {
                        column_width(done, c)
                    }),
                forall|c: int| c >= widths.len() ==> column_width(done, c) == 0,
                forall|k: int| 0 <= k < i ==> (#[trigger] rows[k]).len() <= widths.len(),
            decreases row.len() - j,
        {
            let length = count_chars(row[j].as_str());
            proof {
                assert(cells[j as int] == row@[j as int]@);
                assert(column_width(next, j as int) == (if length > column_width(done, j as int) {
                    length as nat
                } else {
                    column_width(done, j as int)
                }));
            }
            if j >= widths.len() {
                widths.push(length);
            } else if length > widths[j] {
                widths.set(j, length);
            }
            j += 1;
        }
        proof {
            assert forall|c: int| 0 <= c < widths.len() implies widths[c] == column_width(
                next,
                c,
            ) by {}
            assert forall|c: int| c >= widths.len() implies column_width(next, c) == 0 by {
                assert(column_width(done, c) == 0);
            }
        }
        i += 1;
    }
    proof {
        assert(grid(rows@).take(rows.len() as int) =~= grid(rows@));
    }
    widths
}

/// The rows `headers` and then `body`, every cell padded with spaces to the
/// width of the widest cell of its column.
pub fn table(body: Vec<Vec<String>>, headers: Vec<String>) -> (out: Vec<Vec<String>>)
    ensures
        grid(out@) == aligned(seq![views(headers@)] + grid(body@)),
{
    let mut rows = body;
    rows.insert(0, headers);
    let ghost all = seq![views(headers@)] + grid(body@);
    proof {
        assert(grid(rows@) =~= all);
    }
    let widths = column_widths(&rows);
    let mut out: Vec<Vec<String>> = Vec::new();
    let mut i: usize = 0;
    while i < rows.len()
        invariant
            i <= rows.len(),
            out.len() == i,
            grid(rows@) == all,
            all.len() == rows.len(),
            forall|j: int| 0 <= j < widths.len() ==> widths[j] == column_width(all, j),
            forall|k: int| 0 <= k < rows.len() ==> (#[trigger] rows[k]).len() <= widths.len(),
            forall|k: int| 0 <= k < i ==> (#[trigger] grid(out@)[k]).len() == all[k].len(),
            forall|k: int, j: int|
                0 <= k < i && 0 <= j < all[k].len() ==> #[trigger] grid(out@)[k][j] == pad(
                    all[k][j],
                    column_width(all, j) - all[k][j].len(),
                ),
        decreases rows.len() - i,
    {
        let row = &rows[i];
        let ghost cells = all[i as int];
        proof {
            assert(grid(rows@)[i as int] == views(row@));
        }
        let mut line: Vec<String> = Vec::with_capacity(row.len());
        let mut j: usize = 0;
        while j < row.len()
            invariant
                j <= row.len(),
                i < rows.len(),
                row == &rows[i as int],
                row.len() <= widths.len(),
                cells == views(row@),
                all.len() == rows.len(),
                cells == all[i as int],
                line.len() == j,
                forall|c: int| 0 <= c < widths.len() ==> widths[c] == column_width(all, c),
                forall|c: int|
                    0 <= c < j ==> (#[trigger] line[c])@ == pad(
                        cells[c],
                        column_width(all, c) - cells[c].len(),
                    ),
            decreases row.len() - j,
        {
            let item = row[j].as_str();
            let length = count_chars(item);
            proof {
                assert(cells[j as int] == item@);
                lemma_column_width_bounds(all, i as int, j as int);
            }
            line.push(fill(item, widths[j] - length));
            j += 1;
        }
        let ghost before = grid(out@);
        out.push(line);
        proof {
            assert(grid(out@) =~= before.push(views(line@)));
            assert forall|k: int| 0 <= k < i + 1 implies (#[trigger] grid(out@)[k]).len()
                == all[k].len() by {
                if k < i {
                    assert(grid(out@)[k] == before[k]);
                }
            }
            assert forall|k: int, c: int| 0 <= k < i + 1 && 0 <= c < all[k].len() implies (
            #[trigger] grid(out@)[k][c]) == pad(
                all[k][c],
                column_width(all, c) - all[k][c].len(),
            ) by {
                if k < i {
                    assert(grid(out@)[k] == before[k]);
                } else {
                    assert(grid(out@)[k][c] == line[c]@);
                }
            }
        }
        i += 1;
    }
    proof {
        let want = aligned(all);
        assert(grid(out@).len() == want.len());
        assert forall|k: int| 0 <= k < want.len() implies grid(out@)[k] == want[k] by {
            assert(grid(out@)[k].len() == all[k].len());
            assert forall|c: int| 0 <= c < all[k].len() implies grid(out@)[k][c] == want[k][c] by {
                assert(grid(out@)[k][c] == pad(
                    all[k][c],
                    column_width(all, c) - all[k][c].len(),
                ));
            }
            assert(grid(out@)[k] =~= want[k]);
        }
        assert(grid(out@) =~= want);
    }
    out
}

} // verus!
