use vstd::prelude::*;
use crate::cell::Cell;
use crate::cells::{Cells, CellsError};
use crate::text::chars_of;

verus! {

/// Whether `c` is white space: one of the characters with the Unicode
/// property White_Space.
pub open spec fn blank(c: char) -> bool {
    let code = c as u32;
    (0x9 <= code <= 0xD) || code == 0x20 || code == 0x85 || code == 0xA0 || code == 0x1680 || (
    0x2000 <= code <= 0x200A) || code == 0x2028 || code == 0x2029 || code == 0x202F || code
        == 0x205F || code == 0x3000
}

pub fn is_blank(c: char) -> (white: bool)
    ensures
        white == blank(c),
{
    let code = c as u32;
    (0x9 <= code && code <= 0xD) || code == 0x20 || code == 0x85 || code == 0xA0 || code == 0x1680
        || (0x2000 <= code && code <= 0x200A) || code == 0x2028 || code == 0x2029 || code
        == 0x202F || code == 0x205F || code == 0x3000
}

/// What has been read of a pattern text: the rows that are complete, each
/// without its white space, and the marks of the line that is being read.
pub struct Scan {
    pub rows: Seq<Seq<char>>,
    pub line: Seq<char>,
}

/// The rows of a scan once its last line has ended: a line without marks
/// is no row.
pub open spec fn rows_of(scan: Scan) -> Seq<Seq<char>> {
    if scan.line.len() > 0 {
        scan.rows.push(scan.line)
    } else {
        scan.rows
    }
}

/// Reads a pattern text character by character: a line feed ends the line,
/// other white space is passed over, and any other character is a mark of
/// the line.
pub open spec fn scanned(text: Seq<char>) -> Scan
    decreases text.len(),
{
    if text.len() == 0 {
        Scan { rows: Seq::empty(), line: Seq::empty() }
    } else {
        let before = scanned(text.drop_last());
        let c = text.last();
        if c == '\n' {
            Scan { rows: rows_of(before), line: Seq::empty() }
        } else if blank(c) {
            before
        } else {
            Scan { rows: before.rows, line: before.line.push(c) }
        }
    }
}

/// The rows of a pattern text: its lines without their white space, but for
/// the lines that hold nothing else.
pub open spec fn grid(text: Seq<char>) -> Seq<Seq<char>> {
    rows_of(scanned(text))
}

/// Whether all rows have one length.
pub open spec fn even(rows: Seq<Seq<char>>) -> bool {
    forall|i: int| 0 <= i < rows.len() ==> (#[trigger] rows[i]).len() == rows[0].len()
}

/// Whether row `i` has a mark other than `.` in column `j`.
pub open spec fn spot(rows: Seq<Seq<char>>, i: int, j: int) -> bool {
    0 <= i < rows.len() && 0 <= j < rows[i].len() && rows[i][j] != '.'
}

/// The locations of the marks other than `.`: row and column count from 0.
pub open spec fn marked(rows: Seq<Seq<char>>) -> Set<(isize, isize)> {
    Set::new(
        |at: (isize, isize)|
            exists|i: int, j: int| #[trigger] spot(rows, i, j) && at == (i as isize, j as isize),
    )
}

/// Rows stay of one length when another is added exactly if they were so
/// and the new row has that length too.
proof fn even_with_one_more(rows: Seq<Seq<char>>, line: Seq<char>)
    ensures
        even(rows.push(line)) <==> even(rows) && (rows.len() == 0 || line.len() == rows[0].len()),
{
    let more = rows.push(line);
    assert(more[rows.len() as int] == line);
    assert forall|k: int| 0 <= k < rows.len() implies more[k] == rows[k] by {}
    if even(rows) && (rows.len() == 0 || line.len() == rows[0].len()) {
        assert forall|k: int| 0 <= k < more.len() implies (#[trigger] more[k]).len()
            == more[0].len() by {
            if k < rows.len() {
                assert(rows[k].len() == rows[0].len());
            }
        }
    }
    if even(more) {
        assert forall|k: int| 0 <= k < rows.len() implies (#[trigger] rows[k]).len()
            == rows[0].len() by {
            assert(more[k].len() == more[0].len());
        }
        if rows.len() > 0 {
            assert(more[rows.len() as int].len() == more[0].len());
        }
    }
}

impl Cells {
    /// Reads a set of cells from a pattern text. Lines of white space are
    /// passed over, and so is the white space within a line. What is left of
    /// each line is a row; `.` is a dead cell and any other character a live
    /// one. Rows of different lengths are an error.
    pub fn try_from(text: &str) -> (result: Result<Cells, CellsError>)
        ensures
            match result {
                Ok(cells) => even(grid(text@)) && cells@ == marked(grid(text@)),
                Err(error) => !even(grid(text@)) && error is InconsistentLineLengths,
            },
    {
        let chars = chars_of(text);
        let mut cells = Cells::default();
        let mut width: Option<usize> = None;
        let mut uneven = false;
        let mut row: usize = 0;
        let mut column: usize = 0;
        let mut i: usize = 0;
        assert(chars@.take(0) =~= Seq::<char>::empty());
        while i < chars.len()
            invariant
                i <= chars.len(),
                row == scanned(chars@.take(i as int)).rows.len(),
                column == scanned(chars@.take(i as int)).line.len(),
                row + column <= i,
                row == 0 ==> width is None,
                row > 0 ==> width is Some && width.unwrap() == scanned(
                    chars@.take(i as int),
                ).rows[0].len(),
                uneven == !even(scanned(chars@.take(i as int)).rows),
                forall|at: (isize, isize)|
                    #![trigger cells@.contains(at)]
                    cells@.contains(at) <==> marked(rows_of(scanned(chars@.take(i as int)))).contains(at),
            decreases chars.len() - i,
        {
            let c = chars[i];
            let ghost before = scanned(chars@.take(i as int));
            let ghost after = scanned(chars@.take(i + 1));
            proof {
                assert(chars@.take(i + 1).drop_last() =~= chars@.take(i as int));
                assert(chars@.take(i + 1).last() == c);
            }
            if c == '\n' {
                if column > 0 {
                    match width {
                        None => {
                            width = Some(column);
                        },
                        Some(first) => {
                            if first != column {
                                uneven = true;
                            }
                        },
                    }
                    proof {
                        assert(after.rows =~= before.rows.push(before.line));
                        even_with_one_more(before.rows, before.line);
                    }
                    row += 1;
                    column = 0;
                }
                assert(rows_of(after) =~= rows_of(before));
            } else if is_blank(c) {
            } else {
                if c != '.' {
                    cells.add_cell(Cell::new(#[verifier::truncate] (row as isize), #[verifier::truncate] (column as isize)));
                }
                proof {
                    let old_rows = rows_of(before);
                    let new_rows = rows_of(after);
                    assert(new_rows =~= before.rows.push(before.line.push(c)));
                    assert forall|r: int, k: int|
                        #![trigger spot(new_rows, r, k)]
                        #![trigger spot(old_rows, r, k)]
                        spot(new_rows, r, k) <==> spot(old_rows, r, k) || (r == row && k == column
                            && c != '.') by {
                        if 0 <= r < before.rows.len() {
                            assert(new_rows[r] == old_rows[r]);
                        }
                        if r == before.rows.len() && 0 <= k < before.line.len() {
                            assert(old_rows[r] == before.line);
                            assert(new_rows[r][k] == old_rows[r][k]);
                        }
                    }
                    assert forall|at: (isize, isize)|
                        #![trigger cells@.contains(at)]
                        cells@.contains(at) <==> marked(new_rows).contains(at) by {
                        if marked(new_rows).contains(at) {
                            let (r, k) = choose|r: int, k: int|
                                #[trigger] spot(new_rows, r, k) && at == (r as isize, k as isize);
                            if spot(old_rows, r, k) {
                                assert(marked(old_rows).contains(at));
                            }
                        }
                        if marked(old_rows).contains(at) {
                            let (r, k) = choose|r: int, k: int|
                                #[trigger] spot(old_rows, r, k) && at == (r as isize, k as isize);
                            assert(spot(new_rows, r, k));
                        }
                        if c != '.' && at == (row as isize, column as isize) {
                            assert(spot(new_rows, row as int, column as int));
                        }
                    }
                }
                column += 1;
            }
            i += 1;
        }
        assert(chars@.take(i as int) =~= text@);
        let ghost last = scanned(text@);
        if column > 0 {
            if let Some(first) = width {
                if first != column {
                    uneven = true;
                }
            }
            proof {
                assert(grid(text@) =~= last.rows.push(last.line));
                even_with_one_more(last.rows, last.line);
            }
        }
        if uneven {
            Err(CellsError::InconsistentLineLengths)
        } else {
            assert(cells@ =~= marked(grid(text@)));
            Ok(cells)
        }
    }
}

} // verus!
