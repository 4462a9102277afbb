use life::{Bounds, BoundsError};

#[test]
fn bounds_are_read_from_two_ranges() {
    assert_eq!(Bounds::parse("0..10,10..20"), Ok(Bounds::new(0..=10, 10..=20)));
    assert_eq!(Bounds::parse("-1..10,-1..10"), Ok(Bounds::new(-1..=10, -1..=10)));
    assert_eq!(Bounds::parse("+3..+3,-7..-2"), Ok(Bounds::new(3..=3, -7..=-2)));
    assert_eq!(Bounds::parse("0..10,10..20"), Ok(Bounds::Defined(0..=10, 10..=20)));
    let widest = format!("{}..{},0..0", isize::MIN, isize::MAX);
    assert_eq!(Bounds::parse(&widest), Ok(Bounds::new(isize::MIN..=isize::MAX, 0..=0)));
}

#[test]
fn bounds_that_end_before_they_start_are_undefined() {
    let bounds = Bounds::parse("5..1,0..0").expect("well formed");
    assert!(!bounds.is_defined());
    assert_eq!(bounds, Bounds::Undefined);
}

#[test]
fn text_that_is_not_two_ranges_is_refused() {
    for text in ["", "0..10", "0..10,", "0..10,1..2,3..4", "0,1", "0..1,2", "0..1..2,3..4",
        "0....1,2..3", ",", ",,"]
    {
        assert_eq!(Bounds::parse(text), Err(BoundsError::Format));
    }
    assert_eq!(
        BoundsError::Format.message(),
        "bounds format rowmin..rowmax,colmin..colmax"
    );
}

#[test]
fn a_range_is_parted_at_its_first_two_dots() {
    assert_eq!(Bounds::parse("0...1,2..3"), Err(BoundsError::InvalidDigit));
    assert_eq!(Bounds::parse("..1,2..3"), Err(BoundsError::Empty));
    assert_eq!(Bounds::parse("1..,2..3"), Err(BoundsError::Empty));
    assert_eq!(Bounds::parse("0..10,a..b"), Err(BoundsError::InvalidDigit));
    assert_eq!(Bounds::parse("0..x,a..b"), Err(BoundsError::InvalidDigit));
    assert_eq!(Bounds::parse("0..1,..b"), Err(BoundsError::Empty));
}

#[test]
fn numbers_are_read_as_std_reads_them() {
    let numbers = [
        "",
        "+",
        "-",
        "0",
        "-0",
        "+0",
        "12",
        "-12",
        "+12",
        "007",
        "1a",
        "a1",
        "--1",
        "+-1",
        " 1",
        "1 ",
        "1_000",
        "9223372036854775807",
        "9223372036854775808",
        "-9223372036854775808",
        "-9223372036854775809",
        "99999999999999999999",
        "-99999999999999999999",
        "99999999999999999999x",
        "-99999999999999999999x",
        "x99999999999999999999",
        "2147483647",
        "2147483648",
        "-2147483649",
    ];
    for number in numbers {
        let text = format!("{}..{},{}..{}", number, number, number, number);
        let expected = number.parse::<isize>();
        match (Bounds::parse(&text), expected) {
            (Ok(bounds), Ok(value)) => assert_eq!(bounds, Bounds::new(value..=value, value..=value)),
            (Err(error), Err(expected)) => assert_eq!(error.message(), expected.to_string()),
            (ours, theirs) => panic!("{:?} is read as {:?}, not as {:?}", number, ours, theirs),
        }
    }
}

#[test]
fn each_error_has_its_message() {
    assert_eq!(BoundsError::Empty.message(), "cannot parse integer from empty string");
    assert_eq!(BoundsError::InvalidDigit.message(), "invalid digit found in string");
    assert_eq!(BoundsError::TooLarge.message(), "number too large to fit in target type");
    assert_eq!(BoundsError::TooSmall.message(), "number too small to fit in target type");
    assert_eq!(Bounds::parse("99999999999999999999..0,0..0"), Err(BoundsError::TooLarge));
    assert_eq!(Bounds::parse("0..-99999999999999999999,0..0"), Err(BoundsError::TooSmall));
}
