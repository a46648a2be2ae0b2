//! The `Range` header.

use vstd::prelude::*;
use vstd::string::*;

use crate::text::{
    begins_with, chars_of, contains_char, decimal, decimal_round_trip, find, find_char, is_digit,
    lemma_decimal, lemma_find, lemma_trim_again, lemma_trim_around, outer_space_does_not_count,
    parse_unsigned, prefix_and_rest, strip_prefix, trim, trimmed, trimmed_end, trimmed_start,
    unsigned,
};

verus! {

/// What a `Range` header asks for. Both offsets are inclusive.
#[derive(Debug, Clone, Copy, PartialEq, Eq, Structural)]
pub enum RangeResult {
    Satisfiable(u64, u64),
    Unsatisfiable,
    Ignore,
}

pub open spec fn least(a: int, b: int) -> int {
    if a <= b {
        a
    } else {
        b
    }
}

/// What `bytes=FIRST-LAST` asks of a file of `total` bytes, where at most `max` are sent at once.
pub open spec fn span(first: Seq<char>, last: Seq<char>, total: u64, max: u64) -> RangeResult {
    match unsigned(first, u64::MAX as nat) {
        None => RangeResult::Ignore,
        Some(start) => if start >= total {
            RangeResult::Unsatisfiable
        } else if last.len() == 0 {
            RangeResult::Satisfiable(start as u64, least(total - 1, start + max - 1) as u64)
        } else {
            match unsigned(last, u64::MAX as nat) {
                None => RangeResult::Ignore,
                Some(end) => if end < start {
                    RangeResult::Ignore
                } else {
                    RangeResult::Satisfiable(
                        start as u64,
                        least(least(end as int, total - 1), start + max - 1) as u64,
                    )
                },
            }
        },
    }
}

/// What `bytes=-COUNT`, the last bytes, asks of a file of `total` bytes.
pub open spec fn suffix_span(count: Seq<char>, total: u64, max: u64) -> RangeResult {
    match unsigned(count, u64::MAX as nat) {
        None => RangeResult::Ignore,
        Some(n) => if n == 0 {
            RangeResult::Unsatisfiable
        } else {
            let len = least(least(n as int, total as int), max as int);
            RangeResult::Satisfiable((total - len) as u64, (total - 1) as u64)
        },
    }
}

/// What a single byte range asks of a file of `total` bytes. A header of another unit, a list of
/// ranges and a malformed range are ignored.
pub open spec fn requested_range(header: Seq<char>, total: u64, max: u64) -> RangeResult {
    let header = trimmed(header);
    if !begins_with(header, "bytes="@) {
        RangeResult::Ignore
    } else {
        let range = trimmed(header.skip("bytes="@.len() as int));
        if range.contains(',') {
            RangeResult::Ignore
        } else if total == 0 {
            RangeResult::Unsatisfiable
        } else {
            match find(range, '-') {
                None => RangeResult::Ignore,
                Some(i) => {
                    let first = trimmed(range.take(i));
                    let last = trimmed(range.skip(i + 1));
                    if first.len() == 0 {
                        suffix_span(last, total, max)
                    } else {
                        span(first, last, total, max)
                    }
                },
            }
        }
    }
}

/// Parse a `Range: bytes=START-END` header.
pub fn parse_range(range_val: &str, total_size: u64, max_len: u64) -> (r: RangeResult)
    requires
        max_len > 0,
    ensures
        r == requested_range(range_val@, total_size, max_len),
{
    let header = trim(range_val);
    let range = match strip_prefix(header, "bytes=") {
        Some(rest) => trim(rest),
        None => return RangeResult::Ignore,
    };
    if contains_char(range, ',') {
        return RangeResult::Ignore;
    }
    if total_size == 0 {
        return RangeResult::Unsatisfiable;
    }
    let v = chars_of(range);
    let n: usize = v.len();
    let dash = match find_char(&v, '-') {
        Some(i) => i,
        None => return RangeResult::Ignore,
    };
    assert(range@.subrange(0, dash as int) =~= range@.take(dash as int));
    assert(range@.subrange(dash + 1, range@.len() as int) =~= range@.skip(dash + 1));
    let first = trim(range.substring_char(0, dash));
    let last = trim(range.substring_char(dash + 1, n));
    if first.is_empty() {
        let count = match parse_unsigned(last, u64::MAX) {
            Some(n) => n,
            None => return RangeResult::Ignore,
        };
        if count == 0 {
            return RangeResult::Unsatisfiable;
        }
        let mut len: u64 = count;
        if len > total_size {
            len = total_size;
        }
        if len > max_len {
            len = max_len;
        }
        RangeResult::Satisfiable(total_size - len, total_size - 1)
    } else {
        let start = match parse_unsigned(first, u64::MAX) {
            Some(n) => n,
            None => return RangeResult::Ignore,
        };
        if start >= total_size {
            return RangeResult::Unsatisfiable;
        }
        let mut end: u64 = total_size - 1;
        if !last.is_empty() {
            let asked = match parse_unsigned(last, u64::MAX) {
                Some(n) => n,
                None => return RangeResult::Ignore,
            };
            if asked < start {
                return RangeResult::Ignore;
            }
            if asked < end {
                end = asked;
            }
        }
        if end - start > max_len - 1 {
            end = start + (max_len - 1);
        }
        RangeResult::Satisfiable(start, end)
    }
}

/// A range that can be served lies within the file and is never longer than the limit.
pub proof fn served_range_is_bounded(header: Seq<char>, total: u64, max: u64)
    requires
        max > 0,
    ensures
        match requested_range(header, total, max) {
            RangeResult::Satisfiable(start, end) => start <= end < total && end - start + 1 <= max,
            _ => true,
        },
{
}

/// What a header `bytes=FIRST-LAST` comes to, with any white space around the two: where there is a
/// first position, a range begins there; it ends at the last position, at the end of the file or at
/// the limit, whatever comes first. Where there is none, it is the last bytes of the file.
pub proof fn range_goes_by_its_positions(first: Seq<char>, last: Seq<char>, total: u64, max: u64)
    requires
        max > 0,
        total > 0,
        !first.contains('-'),
        !first.contains(','),
        !last.contains(','),
    ensures
        ({
            let result = requested_range("bytes="@ + first + seq!['-'] + last, total, max);
            let from = unsigned(trimmed(first), u64::MAX as nat);
            let to = unsigned(trimmed(last), u64::MAX as nat);
            if trimmed(first).len() == 0 {
                match to {
                    None => result == RangeResult::Ignore,
                    Some(n) => if n == 0 {
                        result == RangeResult::Unsatisfiable
                    } else {
                        result matches RangeResult::Satisfiable(start, end) && end == total - 1
                            && end - start < n && end - start < max && (start == 0 || end - start + 1
                            == n || end - start + 1 == max)
                    },
                }
            } else {
                match from {
                    None => result == RangeResult::Ignore,
                    Some(at) => if at >= total {
                        result == RangeResult::Unsatisfiable
                    } else if trimmed(last).len() == 0 {
                        result matches RangeResult::Satisfiable(start, end) && start == at && start
                            <= end < total && end - start < max && (end == total - 1 || end - start
                            + 1 == max)
                    } else {
                        match to {
                            None => result == RangeResult::Ignore,
                            Some(until) => if until < at {
                                result == RangeResult::Ignore
                            } else {
                                result matches RangeResult::Satisfiable(start, end) && start == at
                                    && start <= end < total && end <= until && end - start < max && (
                                end == until || end == total - 1 || end - start + 1 == max)
                            },
                        }
                    },
                }
            }
        }),
{
    let unit = "bytes="@;
    let range = first + seq!['-'] + last;
    let header = unit + first + seq!['-'] + last;
    reveal_strlit("bytes=");
    assert(header =~= unit + range);
    // The unit stays at the front of the header when it is trimmed.
    lemma_trim_around(unit + first, '-', last);
    let front = unit + first;
    assert(front[0] == 'b');
    assert(trimmed_start(front) == front);
    let left = first + seq!['-'] + trimmed_end(last);
    assert(trimmed(header) =~= unit + left);
    prefix_and_rest(unit, left, trimmed(header));
    lemma_trim_around(first, '-', trimmed_end(last));
    lemma_trimmed_ends(last);
    let cut = trimmed(left);
    let a = trimmed_start(first);
    let b = trimmed_end(last);
    assert(cut == a + seq!['-'] + b);
    crate::text::lemma_trimmed_start(first);
    crate::text::lemma_trimmed_end(last);
    assert(!cut.contains(',')) by {
        if cut.contains(',') {
            let i = choose|i: int| 0 <= i < cut.len() && cut[i] == ',';
            if i < a.len() {
                assert(a[i] == first[first.len() - a.len() + i]);
                assert(first.contains(first[first.len() - a.len() + i]));
            } else if i > a.len() {
                assert(cut[i] == b[i - a.len() - 1]);
                assert(b[i - a.len() - 1] == last[i - a.len() - 1]);
                assert(last.contains(last[i - a.len() - 1]));
            }
        }
    }
    lemma_find(cut, '-');
    assert(cut[a.len() as int] == '-');
    assert(cut.contains(cut[a.len() as int]));
    let k = find(cut, '-')->0;
    if k < a.len() {
        assert(cut[k] == a[k]);
        assert(a[k] == first[first.len() - a.len() + k]);
        assert(first.contains(first[first.len() - a.len() + k]));
    }
    assert(k == a.len());
    assert(cut.take(k) =~= a);
    assert(cut.skip(k + 1) =~= b);
    lemma_trim_again(first);
    lemma_trim_again(last);
}

/// A text that was trimmed at its end is not trimmed there again.
proof fn lemma_trimmed_ends(s: Seq<char>)
    ensures
        trimmed_end(trimmed_end(s)) == trimmed_end(s),
{
    crate::text::lemma_trimmed_end(s);
}

proof fn lemma_decimal_is_plain(n: nat)
    ensures
        decimal(n).len() > 0,
        trimmed(decimal(n)) == decimal(n),
        !decimal(n).contains('-'),
        !decimal(n).contains(','),
{
    lemma_decimal(n);
    let d = decimal(n);
    let none = Seq::<char>::empty();
    assert(is_digit(d[0]) && is_digit(d[d.len() - 1]));
    outer_space_does_not_count(none, d, none);
    assert(none + d + none =~= d);
    if d.contains('-') {
        let i = choose|i: int| 0 <= i < d.len() && d[i] == '-';
        assert(is_digit(d[i]));
    }
    if d.contains(',') {
        let i = choose|i: int| 0 <= i < d.len() && d[i] == ',';
        assert(is_digit(d[i]));
    }
}

/// A range with a first position inside the file begins at that position. Without a last position
/// it goes on to the end of the file, with one to that position, and never beyond the end of the
/// file or the limit.
pub proof fn range_begins_where_it_is_asked_for(start: u64, last: u64, total: u64, max: u64)
    requires
        start < total,
        max > 0,
    ensures
        requested_range("bytes="@ + decimal(start as nat) + seq!['-'], total, max)
            == RangeResult::Satisfiable(
            start,
            (if total - start <= max {
                total - 1
            } else {
                start + max - 1
            }) as u64,
        ),
        start <= last ==> (requested_range(
            "bytes="@ + decimal(start as nat) + seq!['-'] + decimal(last as nat),
            total,
            max,
        ) matches RangeResult::Satisfiable(from, to) && from == start && to <= last && to < total
            && to - from < max && (to == last || to == total - 1 || to - from + 1 == max)),
        last < start ==> requested_range(
            "bytes="@ + decimal(start as nat) + seq!['-'] + decimal(last as nat),
            total,
            max,
        ) == RangeResult::Ignore,
{
    let first = decimal(start as nat);
    let none = Seq::<char>::empty();
    lemma_decimal_is_plain(start as nat);
    lemma_decimal_is_plain(last as nat);
    decimal_round_trip(start as nat, u64::MAX as nat);
    decimal_round_trip(last as nat, u64::MAX as nat);
    outer_space_does_not_count(none, none, none);
    assert(none + none + none =~= none);
    range_goes_by_its_positions(first, none, total, max);
    assert("bytes="@ + first + seq!['-'] + none =~= "bytes="@ + first + seq!['-']);
    range_goes_by_its_positions(first, decimal(last as nat), total, max);
}

/// A range that begins behind the end of the file cannot be served, and neither can any range of an
/// empty file.
pub proof fn range_behind_the_end_is_unsatisfiable(start: u64, last: u64, total: u64, max: u64)
    requires
        start >= total,
        max > 0,
    ensures
        requested_range("bytes="@ + decimal(start as nat) + seq!['-'], total, max)
            == RangeResult::Unsatisfiable,
        requested_range(
            "bytes="@ + decimal(start as nat) + seq!['-'] + decimal(last as nat),
            total,
            max,
        ) == RangeResult::Unsatisfiable,
{
    let first = decimal(start as nat);
    let none = Seq::<char>::empty();
    lemma_decimal_is_plain(start as nat);
    lemma_decimal_is_plain(last as nat);
    decimal_round_trip(start as nat, u64::MAX as nat);
    assert("bytes="@ + first + seq!['-'] + none =~= "bytes="@ + first + seq!['-']);
    if total > 0 {
        range_goes_by_its_positions(first, none, total, max);
        range_goes_by_its_positions(first, decimal(last as nat), total, max);
    } else {
        lemma_empty_file(first, none, max);
        lemma_empty_file(first, decimal(last as nat), max);
    }
}

/// Whatever is asked of an empty file, unless it is a list, is unsatisfiable.
proof fn lemma_empty_file(first: Seq<char>, last: Seq<char>, max: u64)
    requires
        !first.contains(','),
        !last.contains(','),
    ensures
        requested_range("bytes="@ + first + seq!['-'] + last, 0, max) == RangeResult::Unsatisfiable,
{
    let unit = "bytes="@;
    let header = unit + first + seq!['-'] + last;
    reveal_strlit("bytes=");
    lemma_trim_around(unit + first, '-', last);
    let front = unit + first;
    assert(front[0] == 'b');
    assert(trimmed_start(front) == front);
    let left = first + seq!['-'] + trimmed_end(last);
    assert(trimmed(header) =~= unit + left);
    prefix_and_rest(unit, left, trimmed(header));
    lemma_trim_around(first, '-', trimmed_end(last));
    lemma_trimmed_ends(last);
    let cut = trimmed(left);
    let a = trimmed_start(first);
    let b = trimmed_end(last);
    crate::text::lemma_trimmed_start(first);
    crate::text::lemma_trimmed_end(last);
    if cut.contains(',') {
        let i = choose|i: int| 0 <= i < cut.len() && cut[i] == ',';
        if i < a.len() {
            assert(a[i] == first[first.len() - a.len() + i]);
            assert(first.contains(first[first.len() - a.len() + i]));
        } else if i > a.len() {
            assert(cut[i] == b[i - a.len() - 1]);
            assert(b[i - a.len() - 1] == last[i - a.len() - 1]);
            assert(last.contains(last[i - a.len() - 1]));
        }
    }
}

/// A range of the last `n` bytes is the end of the file: `n` bytes of it, or all of it where it has
/// fewer, or as many as may be sent at once. The last none cannot be served.
pub proof fn range_of_last_bytes_ends_the_file(n: u64, total: u64, max: u64)
    requires
        total > 0,
        max > 0,
    ensures
        ({
            let result = requested_range("bytes="@ + seq!['-'] + decimal(n as nat), total, max);
            if n == 0 {
                result == RangeResult::Unsatisfiable
            } else {
                result matches RangeResult::Satisfiable(start, end) && end == total - 1 && end - start
                    < n && end - start < max && (start == 0 || end - start + 1 == n || end - start
                    + 1 == max)
            }
        }),
{
    let none = Seq::<char>::empty();
    lemma_decimal_is_plain(n as nat);
    decimal_round_trip(n as nat, u64::MAX as nat);
    outer_space_does_not_count(none, none, none);
    assert(none + none + none =~= none);
    range_goes_by_its_positions(none, decimal(n as nat), total, max);
    assert("bytes="@ + none + seq!['-'] + decimal(n as nat) =~= "bytes="@ + seq!['-'] + decimal(
        n as nat,
    ));
}

/// A header of another unit, one that lists ranges, and one without a dash are ignored: whatever is
/// asked for otherwise has the unit, a dash and no comma.
pub proof fn other_ranges_are_ignored(header: Seq<char>, total: u64, max: u64)
    requires
        max > 0,
    ensures
        ({
            let rest = trimmed(trimmed(header).skip(6));
            let unit = begins_with(trimmed(header), "bytes="@);
            &&& !unit ==> requested_range(header, total, max) == RangeResult::Ignore
            &&& rest.contains(',') ==> requested_range(header, total, max) == RangeResult::Ignore
            &&& total > 0 && !rest.contains('-') ==> requested_range(header, total, max)
                == RangeResult::Ignore
            &&& total == 0 && unit && !rest.contains(',') ==> requested_range(header, total, max)
                == RangeResult::Unsatisfiable
        }),
{
    reveal_strlit("bytes=");
    lemma_find(trimmed(trimmed(header).skip(6)), '-');
}

/// White space around a header does not change what it asks for.
pub proof fn space_around_a_range_does_not_count(
    before: Seq<char>,
    header: Seq<char>,
    after: Seq<char>,
    total: u64,
    max: u64,
)
    requires
        forall|i: int| 0 <= i < before.len() ==> crate::text::is_space(#[trigger] before[i]),
        forall|i: int| 0 <= i < after.len() ==> crate::text::is_space(#[trigger] after[i]),
        header.len() > 0 ==> !crate::text::is_space(header[0]) && !crate::text::is_space(
            header.last(),
        ),
    ensures
        requested_range(before + header + after, total, max) == requested_range(header, total, max),
{
    let none = Seq::<char>::empty();
    outer_space_does_not_count(before, header, after);
    outer_space_does_not_count(none, header, none);
    assert(none + header + none =~= header);
}

} // verus!
