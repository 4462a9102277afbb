use vstd::prelude::*;
use crate::bounds::{Bounds, Extent};
use crate::text::chars_of;

verus! {

pub const FORMAT_MESSAGE: &'static str = "bounds format rowmin..rowmax,colmin..colmax";

pub const EMPTY_MESSAGE: &'static str = "cannot parse integer from empty string";

pub const DIGIT_MESSAGE: &'static str = "invalid digit found in string";

pub const LARGE_MESSAGE: &'static str = "number too large to fit in target type";

pub const SMALL_MESSAGE: &'static str = "number too small to fit in target type";

/// Why a text does not give bounds.
#[derive(Clone, Copy, Debug, PartialEq, Eq, Structural)]
pub enum BoundsError {
    /// The text is not two ranges with a comma between them, or a range is
    /// not two numbers with two dots between them.
    Format,
    /// A number has no characters.
    Empty,
    /// A number has a character that is no digit, or is a sign alone.
    InvalidDigit,
    /// A number lies above the largest coordinate.
    TooLarge,
    /// A number lies below the smallest coordinate.
    TooSmall,
}

impl BoundsError {
    /// What the error says.
    pub open spec fn text(self) -> Seq<char> {
        match self {
            BoundsError::Format => FORMAT_MESSAGE@,
            BoundsError::Empty => EMPTY_MESSAGE@,
            BoundsError::InvalidDigit => DIGIT_MESSAGE@,
            BoundsError::TooLarge => LARGE_MESSAGE@,
            BoundsError::TooSmall => SMALL_MESSAGE@,
        }
    }

    pub fn message(&self) -> (text: &'static str)
        ensures
            text@ == self.text(),
    {
        match self {
            BoundsError::Format => FORMAT_MESSAGE,
            BoundsError::Empty => EMPTY_MESSAGE,
            BoundsError::InvalidDigit => DIGIT_MESSAGE,
            BoundsError::TooLarge => LARGE_MESSAGE,
            BoundsError::TooSmall => SMALL_MESSAGE,
        }
    }
}

/// Whether `c` is one of the digits `0` to `9`.
pub open spec fn is_digit(c: char) -> bool {
    '0' <= c <= '9'
}

/// The number that a run of digits stands for when it is read from the
/// left, below zero where `negative` holds. The first character that is no
/// digit, or the first digit with which the number leaves the range of the
/// coordinates, is the error.
pub open spec fn digits_read(s: Seq<char>, negative: bool) -> Result<int, BoundsError>
    decreases s.len(),
{
    if s.len() == 0 {
        Ok(0)
    } else {
        match digits_read(s.drop_last(), negative) {
            Err(error) => Err(error),
            Ok(before) => if !is_digit(s.last()) {
                Err(BoundsError::InvalidDigit)
            } else {
                let digit = s.last() as int - '0' as int;
                let value = if negative {
                    before * 10 - digit
                } else {
                    before * 10 + digit
                };
                if value > isize::MAX {
                    Err(BoundsError::TooLarge)
                } else if value < isize::MIN {
                    Err(BoundsError::TooSmall)
                } else {
                    Ok(value)
                }
            },
        }
    }
}

/// The number that a text stands for: a sign `+` or `-`, which may be left
/// out, and then at least one digit.
pub open spec fn number_read(s: Seq<char>) -> Result<int, BoundsError> {
    if s.len() == 0 {
        Err(BoundsError::Empty)
    } else if s[0] == '+' || s[0] == '-' {
        if s.len() == 1 {
            Err(BoundsError::InvalidDigit)
        } else {
            digits_read(s.skip(1), s[0] == '-')
        }
    } else {
        digits_read(s, false)
    }
}

/// Whether `mark` stands in `s` at the place `at`.
pub open spec fn stands_at(s: Seq<char>, mark: Seq<char>, at: int) -> bool {
    0 <= at && at + mark.len() <= s.len() && s.subrange(at, at + mark.len()) == mark
}

/// The first place from `from` on at which `mark` stands in `s`, and the
/// length of `s` where there is none.
pub open spec fn first_place(s: Seq<char>, mark: Seq<char>, from: int) -> int
    decreases s.len() - from,
{
    if from < 0 || from >= s.len() || from + mark.len() > s.len() {
        s.len() as int
    } else if stands_at(s, mark, from) {
        from
    } else {
        first_place(s, mark, from + 1)
    }
}

/// The two parts of `s` before and behind `mark`, where `mark` parts `s` in
/// exactly two: it stands in `s`, and behind its first place it does not
/// stand again.
pub open spec fn halves(s: Seq<char>, mark: Seq<char>) -> Option<(Seq<char>, Seq<char>)> {
    let place = first_place(s, mark, 0);
    if place >= s.len() {
        None
    } else if first_place(s, mark, place + mark.len()) < s.len() {
        None
    } else {
        Some((s.take(place), s.skip(place + mark.len())))
    }
}

/// The two ends that the text of a range gives: two numbers with two dots
/// between them.
pub open spec fn range_read(s: Seq<char>) -> Result<(int, int), BoundsError> {
    match halves(s, seq!['.', '.']) {
        None => Err(BoundsError::Format),
        Some((low, high)) => match number_read(low) {
            Err(error) => Err(error),
            Ok(start) => match number_read(high) {
                Err(error) => Err(error),
                Ok(end) => Ok((start, end)),
            },
        },
    }
}

/// The rectangle that the text of bounds gives: the range of the rows, a
/// comma, and the range of the columns.
pub open spec fn bounds_read(s: Seq<char>) -> Result<Extent, BoundsError> {
    match halves(s, seq![',']) {
        None => Err(BoundsError::Format),
        Some((rows, columns)) => match range_read(rows) {
            Err(error) => Err(error),
            Ok((row_min, row_max)) => match range_read(columns) {
                Err(error) => Err(error),
                Ok((column_min, column_max)) => Ok(
                    Extent {
                        row_min: row_min as isize,
                        row_max: row_max as isize,
                        column_min: column_min as isize,
                        column_max: column_max as isize,
                    },
                ),
            },
        },
    }
}

/// A number that has been read lies in the range of the coordinates.
pub proof fn digits_read_fit(s: Seq<char>, negative: bool)
    ensures
        digits_read(s, negative) matches Ok(value) ==> isize::MIN <= value <= isize::MAX,
    decreases s.len(),
{
    if s.len() > 0 {
        digits_read_fit(s.drop_last(), negative);
    }
}

fn mark_stands_at(s: &Vec<char>, mark: &Vec<char>, at: usize) -> (stands: bool)
    requires
        at + mark.len() <= s.len(),
    ensures
        stands == stands_at(s@, mark@, at as int),
{
    let mut k: usize = 0;
    while k < mark.len()
        invariant
            k <= mark.len(),
            at + mark.len() <= s.len(),
            forall|j: int| 0 <= j < k ==> s@[at + j] == mark@[j],
        decreases mark.len() - k,
    {
        if s[at + k] != mark[k] {
            assert(s@.subrange(at as int, at + mark.len())[k as int] != mark@[k as int]);
            return false;
        }
        k += 1;
    }
    assert(s@.subrange(at as int, at + mark.len()) =~= mark@);
    true
}

fn find_first_place(s: &Vec<char>, mark: &Vec<char>, from: usize) -> (place: usize)
    ensures
        place == first_place(s@, mark@, from as int),
        place <= s.len(),
        place < s.len() ==> place + mark.len() <= s.len(),
{
    let mut at = from;
    while at < s.len() && mark.len() <= s.len() - at
        invariant
            first_place(s@, mark@, from as int) == first_place(s@, mark@, at as int),
        decreases s.len() - at,
    {
        if mark_stands_at(s, mark, at) {
            return at;
        }
        at += 1;
    }
    s.len()
}

fn part_of(s: &Vec<char>, from: usize, to: usize) -> (part: Vec<char>)
    requires
        from <= to <= s.len(),
    ensures
        part@ == s@.subrange(from as int, to as int),
{
    let mut part: Vec<char> = Vec::new();
    let mut i = from;
    while i < to
        invariant
            from <= i <= to <= s.len(),
            part@ == s@.subrange(from as int, i as int),
        decreases to - i,
    {
        part.push(s[i]);
        assert(part@ =~= s@.subrange(from as int, i + 1));
        i += 1;
    }
    part
}

fn find_halves(s: &Vec<char>, mark: &Vec<char>) -> (parts: Option<(Vec<char>, Vec<char>)>)
    requires
        mark.len() > 0,
    ensures
        match parts {
            Some((before, behind)) => halves(s@, mark@) == Some((before@, behind@)),
            None => halves(s@, mark@) is None,
        },
{
    let place = find_first_place(s, mark, 0);
    if place >= s.len() {
        return None;
    }
    if find_first_place(s, mark, place + mark.len()) < s.len() {
        return None;
    }
    let before = part_of(s, 0, place);
    let behind = part_of(s, place + mark.len(), s.len());
    assert(before@ =~= s@.take(place as int));
    assert(behind@ =~= s@.skip(place + mark.len()));
    Some((before, behind))
}

fn read_number(s: &Vec<char>) -> (number: Result<isize, BoundsError>)
    ensures
        match number {
            Ok(value) => number_read(s@) == Ok::<int, BoundsError>(value as int),
            Err(error) => number_read(s@) == Err::<int, BoundsError>(error),
        },
{
    if s.len() == 0 {
        return Err(BoundsError::Empty);
    }
    let signed = s[0] == '+' || s[0] == '-';
    let negative = s[0] == '-';
    if signed && s.len() == 1 {
        return Err(BoundsError::InvalidDigit);
    }
    let start: usize = if signed { 1 } else { 0 };
    let ghost digits = if signed { s@.skip(1) } else { s@ };
    let mut value: isize = 0;
    let mut i = start;
    assert(digits.take(0) =~= Seq::<char>::empty());
    assert(digits_read(digits.take(0), negative) == Ok::<int, BoundsError>(0));
    while i < s.len()
        invariant
            start <= i <= s.len(),
            digits.len() == s.len() - start,
            forall|j: int| 0 <= j < digits.len() ==> digits[j] == s@[start + j],
            number_read(s@) == digits_read(digits, negative),
            digits_read(digits.take(i - start), negative) == Ok::<int, BoundsError>(value as int),
        decreases s.len() - i,
    {
        let c = s[i];
        proof {
            assert(digits.take(i + 1 - start).drop_last() =~= digits.take(i - start));
            assert(digits.take(i + 1 - start).last() == c);
        }
        let ghost so_far = digits.take(i + 1 - start);
        if !('0' <= c && c <= '9') {
            proof {
                digits_read_stays_failed(digits, negative, i + 1 - start);
            }
            return Err(BoundsError::InvalidDigit);
        }
        let digit = (c as u32 - '0' as u32) as i128;
        let next: i128 = if negative {
            (value as i128) * 10 - digit
        } else {
            (value as i128) * 10 + digit
        };
        if next > isize::MAX as i128 {
            proof {
                digits_read_stays_failed(digits, negative, i + 1 - start);
            }
            return Err(BoundsError::TooLarge);
        }
        if next < isize::MIN as i128 {
            proof {
                digits_read_stays_failed(digits, negative, i + 1 - start);
            }
            return Err(BoundsError::TooSmall);
        }
        value = next as isize;
        i += 1;
    }
    assert(digits.take(i - start) =~= digits);
    Ok(value)
}

/// Once reading has failed, it stays failed with the same error however the
/// text goes on.
pub proof fn digits_read_stays_failed(s: Seq<char>, negative: bool, upto: int)
    requires
        0 <= upto <= s.len(),
        digits_read(s.take(upto), negative) is Err,
    ensures
        digits_read(s, negative) == digits_read(s.take(upto), negative),
    decreases s.len() - upto,
{
    if upto < s.len() {
        assert(s.take(upto + 1).drop_last() =~= s.take(upto));
        digits_read_stays_failed(s, negative, upto + 1);
    } else {
        assert(s.take(upto) =~= s);
    }
}

fn read_range(s: &Vec<char>) -> (range: Result<(isize, isize), BoundsError>)
    ensures
        match range {
            Ok((start, end)) => range_read(s@) == Ok::<(int, int), BoundsError>(
                (start as int, end as int),
            ),
            Err(error) => range_read(s@) == Err::<(int, int), BoundsError>(error),
        },
{
    let dots = vec!['.', '.'];
    assert(dots@ =~= seq!['.', '.']);
    match find_halves(s, &dots) {
        None => Err(BoundsError::Format),
        Some((low, high)) => match read_number(&low) {
            Err(error) => Err(error),
            Ok(start) => match read_number(&high) {
                Err(error) => Err(error),
                Ok(end) => Ok((start, end)),
            },
        },
    }
}

impl Bounds {
    /// Reads bounds from a text such as `0..10,-5..5`: the first and the
    /// last row with two dots between them, a comma, and the first and the
    /// last column in the same way. Bounds whose last row or column lies
    /// before the first are undefined.
    pub fn parse(text: &str) -> (result: Result<Bounds, BoundsError>)
        ensures
            match result {
                Ok(bounds) => bounds_read(text@) matches Ok(extent) && bounds@ == if extent.inhabited() {
                    Some(extent)
                } else {
                    None
                },
                Err(error) => bounds_read(text@) == Err::<Extent, BoundsError>(error),
            },
    {
        let chars = chars_of(text);
        let comma = vec![','];
        assert(comma@ =~= seq![',']);
        match find_halves(&chars, &comma) {
            None => Err(BoundsError::Format),
            Some((rows, columns)) => match read_range(&rows) {
                Err(error) => Err(error),
                Ok((row_min, row_max)) => match read_range(&columns) {
                    Err(error) => Err(error),
                    Ok((column_min, column_max)) => Ok(
                        Bounds::of_extent(Extent { row_min, row_max, column_min, column_max }),
                    ),
                },
            },
        }
    }
}

} // verus!
