use vstd::prelude::*;
use vstd::string::StringExecFns;
use crate::cell::Cell;
use crate::cells::{Cells, listed};

verus! {

/// The character of a decimal digit.
pub open spec fn digit(d: nat) -> char {
    if d == 0 {
        '0'
    } else if d == 1 {
        '1'
    } else if d == 2 {
        '2'
    } else if d == 3 {
        '3'
    } else if d == 4 {
        '4'
    } else if d == 5 {
        '5'
    } else if d == 6 {
        '6'
    } else if d == 7 {
        '7'
    } else if d == 8 {
        '8'
    } else {
        '9'
    }
}

/// The decimal digits of `n`, without leading zeros.
pub open spec fn digits(n: nat) -> Seq<char>
    decreases n,
{
    if n < 10 {
        seq![digit(n)]
    } else {
        digits(n / 10).push(digit(n % 10))
    }
}

/// The number `v` in decimal, with a minus sign where it is negative.
pub open spec fn decimal(v: int) -> Seq<char> {
    if v < 0 {
        seq!['-'] + digits((-v) as nat)
    } else {
        digits(v as nat)
    }
}

/// The text of one cell: `Cell(row, column)`.
pub open spec fn cell_text(at: (isize, isize)) -> Seq<char> {
    seq!['C', 'e', 'l', 'l', '('] + decimal(at.0 as int) + seq![',', ' '] + decimal(at.1 as int)
        + seq![')']
}

/// The texts of the first `upto` cells of `items`, with a comma and a space
/// between two of them.
pub open spec fn cells_text(items: Seq<Cell>, upto: nat) -> Seq<char>
    decreases upto,
{
    if upto == 0 {
        Seq::empty()
    } else if upto == 1 {
        cell_text(items[0]@)
    } else {
        cells_text(items, (upto - 1) as nat) + seq![',', ' '] + cell_text(items[upto - 1]@)
    }
}

fn append_digits(text: &mut String, n: u128)
    ensures
        final(text)@ == old(text)@ + digits(n as nat),
    decreases n,
{
    if n >= 10 {
        append_digits(text, n / 10);
    }
    proof {
        reveal_strlit("0");
        reveal_strlit("1");
        reveal_strlit("2");
        reveal_strlit("3");
        reveal_strlit("4");
        reveal_strlit("5");
        reveal_strlit("6");
        reveal_strlit("7");
        reveal_strlit("8");
        reveal_strlit("9");
    }
    let last = n % 10;
    let mark = if last == 0 {
        "0"
    } else if last == 1 {
        "1"
    } else if last == 2 {
        "2"
    } else if last == 3 {
        "3"
    } else if last == 4 {
        "4"
    } else if last == 5 {
        "5"
    } else if last == 6 {
        "6"
    } else if last == 7 {
        "7"
    } else if last == 8 {
        "8"
    } else {
        "9"
    };
    assert(mark@ =~= seq![digit(last as nat)]);
    text.append(mark);
    assert(text@ =~= old(text)@ + digits(n as nat));
}

fn append_decimal(text: &mut String, v: isize)
    ensures
        final(text)@ == old(text)@ + decimal(v as int),
{
    if v < 0 {
        proof {
            reveal_strlit("-");
        }
        text.append("-");
        assert("-"@ =~= seq!['-']);
        let magnitude = -(v as i128);
        append_digits(text, magnitude as u128);
        assert(text@ =~= old(text)@ + decimal(v as int));
    } else {
        append_digits(text, v as u128);
    }
}

fn append_cell(text: &mut String, cell: &Cell)
    ensures
        final(text)@ == old(text)@ + cell_text(cell@),
{
    proof {
        reveal_strlit("Cell(");
        reveal_strlit(", ");
        reveal_strlit(")");
    }
    assert("Cell("@ =~= seq!['C', 'e', 'l', 'l', '(']);
    assert(", "@ =~= seq![',', ' ']);
    assert(")"@ =~= seq![')']);
    text.append("Cell(");
    append_decimal(text, cell.row);
    text.append(", ");
    append_decimal(text, cell.column);
    text.append(")");
    assert(text@ =~= old(text)@ + cell_text(cell@));
}

impl Cell {
    /// The cell as text: `Cell(row, column)`, the two numbers in decimal.
    pub fn to_string(&self) -> (text: String)
        ensures
            text@ == cell_text(self@),
    {
        let mut text = String::new();
        append_cell(&mut text, self);
        assert(text@ =~= cell_text(self@));
        text
    }
}

impl Cells {
    /// The cells of the set as text, each once, with a comma and a space
    /// between two of them. The order of the cells is left open.
    pub fn to_string(&self) -> (text: String)
        ensures
            exists|items: Seq<Cell>|
                {
                    &&& items.no_duplicates()
                    &&& forall|at: (isize, isize)|
                        #![trigger self@.contains(at)]
                        self@.contains(at) <==> listed(items, items.len() as int, at)
                    &&& #[trigger] cells_text(items, items.len()) == text@
                },
    {
        let items = self.iter();
        let mut text = String::new();
        let mut i: usize = 0;
        proof {
            reveal_strlit(", ");
        }
        assert(", "@ =~= seq![',', ' ']);
        while i < items.len()
            invariant
                i <= items.len(),
                ", "@ == seq![',', ' '],
                text@ == cells_text(items@, i as nat),
            decreases items.len() - i,
        {
            if i > 0 {
                text.append(", ");
            }
            append_cell(&mut text, &items[i]);
            assert(text@ =~= cells_text(items@, (i + 1) as nat));
            i += 1;
        }
        text
    }
}

} // verus!
