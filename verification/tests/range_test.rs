use juicehost::handlers::range::{parse_range, RangeResult};

#[test]
fn parse_range_basic() {
    assert_eq!(
        parse_range("bytes=0-99", 1000, 1000),
        RangeResult::Satisfiable(0, 99)
    );
}

#[test]
fn parse_range_suffix() {
    assert_eq!(
        parse_range("bytes=-500", 1000, 1000),
        RangeResult::Satisfiable(500, 999)
    );
}

#[test]
fn parse_range_open_ended() {
    assert_eq!(
        parse_range("bytes=500-", 1000, 1000),
        RangeResult::Satisfiable(500, 999)
    );
}

#[test]
fn parse_range_out_of_bounds() {
    assert_eq!(
        parse_range("bytes=999-1999", 1000, 1000),
        RangeResult::Satisfiable(999, 999)
    );
}

#[test]
fn parse_range_invalid_format() {
    assert_eq!(parse_range("bytes=", 1000, 1000), RangeResult::Ignore);
    assert_eq!(parse_range("nope", 1000, 1000), RangeResult::Ignore);
}

#[test]
fn parse_range_start_beyond_end() {
    assert_eq!(
        parse_range("bytes=500-100", 1000, 1000),
        RangeResult::Ignore
    );
}

#[test]
fn parse_range_clamps_end_suffix_and_response_size() {
    assert_eq!(
        parse_range("bytes=10-9999", 1000, 20),
        RangeResult::Satisfiable(10, 29)
    );
    assert_eq!(
        parse_range("bytes=-5000", 1000, 2000),
        RangeResult::Satisfiable(0, 999)
    );
    assert_eq!(
        parse_range("bytes=1000-", 1000, 1000),
        RangeResult::Unsatisfiable
    );
    assert_eq!(
        parse_range("bytes=0-1,4-5", 1000, 1000),
        RangeResult::Ignore
    );
}

#[test]
fn parse_range_edges() {
    assert_eq!(parse_range("bytes=-0", 10, 5), RangeResult::Unsatisfiable);
    assert_eq!(parse_range("bytes=0-", 0, 5), RangeResult::Unsatisfiable);
    assert_eq!(parse_range("bytes=-", 10, 5), RangeResult::Ignore);
    assert_eq!(parse_range("bytes=a-b", 10, 5), RangeResult::Ignore);
    assert_eq!(parse_range("bytes=1-b", 10, 5), RangeResult::Ignore);
    assert_eq!(
        parse_range("  bytes= 1 - 3  ", 10, 5),
        RangeResult::Satisfiable(1, 3)
    );
    assert_eq!(
        parse_range("bytes=+2-+3", 10, 5),
        RangeResult::Satisfiable(2, 3)
    );
    assert_eq!(
        parse_range("bytes=0-18446744073709551616", 10, 5),
        RangeResult::Ignore
    );
    assert_eq!(
        parse_range("bytes=18446744073709551614-", u64::MAX, u64::MAX),
        RangeResult::Satisfiable(u64::MAX - 1, u64::MAX - 1)
    );
    assert_eq!(
        parse_range("bytes=-9", 10, 4),
        RangeResult::Satisfiable(6, 9)
    );
}
