//! Text primitives: trimming, searching, splitting, number reading and writing.

use vstd::prelude::*;
use vstd::string::*;

verus! {

/// `String::push`: appends one character at the end.
pub assume_specification[ String::push ](s: &mut String, c: char)
    ensures
        final(s)@ == old(s)@.push(c),
;

/// The characters with the Unicode `White_Space` property.
pub open spec fn is_space(c: char) -> bool {
    let n = c as u32;
    ||| 0x9 <= n <= 0xd
    ||| n == 0x20
    ||| n == 0x85
    ||| n == 0xa0
    ||| n == 0x1680
    ||| 0x2000 <= n <= 0x200a
    ||| n == 0x2028
    ||| n == 0x2029
    ||| n == 0x202f
    ||| n == 0x205f
    ||| n == 0x3000
}

/// Tells whether a character is Unicode white space.
pub fn is_white_space(c: char) -> (r: bool)
    ensures
        r == is_space(c),
{
    let n: u32 = c as u32;
    (0x9 <= n && n <= 0xd) || n == 0x20 || n == 0x85 || n == 0xa0 || n == 0x1680 || (0x2000 <= n
        && n <= 0x200a) || n == 0x2028 || n == 0x2029 || n == 0x202f || n == 0x205f || n == 0x3000
}

/// `s` without its leading white space.
pub open spec fn trimmed_start(s: Seq<char>) -> Seq<char>
    decreases s.len(),
{
    if s.len() > 0 && is_space(s[0]) {
        trimmed_start(s.drop_first())
    } else {
        s
    }
}

/// `s` without its trailing white space.
pub open spec fn trimmed_end(s: Seq<char>) -> Seq<char>
    decreases s.len(),
{
    if s.len() > 0 && is_space(s.last()) {
        trimmed_end(s.drop_last())
    } else {
        s
    }
}

/// `s` without white space at either end.
pub open spec fn trimmed(s: Seq<char>) -> Seq<char> {
    trimmed_end(trimmed_start(s))
}

/// `s` without the run of `c` that ends it.
pub open spec fn without_trailing(s: Seq<char>, c: char) -> Seq<char>
    decreases s.len(),
{
    if s.len() > 0 && s.last() == c {
        without_trailing(s.drop_last(), c)
    } else {
        s
    }
}

/// `s` without the run of `c` that starts it.
pub open spec fn without_leading(s: Seq<char>, c: char) -> Seq<char>
    decreases s.len(),
{
    if s.len() > 0 && s[0] == c {
        without_leading(s.drop_first(), c)
    } else {
        s
    }
}

/// The position of the first `c` in `s`.
pub open spec fn find(s: Seq<char>, c: char) -> Option<int>
    decreases s.len(),
{
    if s.len() == 0 {
        None
    } else if s[0] == c {
        Some(0)
    } else {
        match find(s.drop_first(), c) {
            Some(i) => Some(i + 1),
            None => None,
        }
    }
}

/// The position of the last `c` in `s`.
pub open spec fn find_last(s: Seq<char>, c: char) -> Option<int>
    decreases s.len(),
{
    if s.len() == 0 {
        None
    } else if s.last() == c {
        Some(s.len() - 1)
    } else {
        find_last(s.drop_last(), c)
    }
}

/// Whether `s` begins with `prefix`.
pub open spec fn begins_with(s: Seq<char>, prefix: Seq<char>) -> bool {
    prefix.len() <= s.len() && s.take(prefix.len() as int) == prefix
}

/// Whether `s` ends with `suffix`.
pub open spec fn finishes_with(s: Seq<char>, suffix: Seq<char>) -> bool {
    suffix.len() <= s.len() && s.skip(s.len() - suffix.len()) == suffix
}

/// The pieces of `s` between the occurrences of `c`; one more than there are occurrences.
pub open spec fn pieces(s: Seq<char>, c: char) -> Seq<Seq<char>>
    decreases s.len(),
{
    match find(s, c) {
        Some(i) => if 0 <= i < s.len() {
            seq![s.take(i)] + pieces(s.skip(i + 1), c)
        } else {
            seq![s]
        },
        None => seq![s],
    }
}

pub open spec fn is_digit(c: char) -> bool {
    '0' <= c <= '9'
}

/// The number that a run of decimal digits denotes.
pub open spec fn digits_value(s: Seq<char>) -> nat
    decreases s.len(),
{
    if s.len() == 0 {
        0
    } else {
        digits_value(s.drop_last()) * 10 + (s.last() as nat - '0' as nat) as nat
    }
}

pub open spec fn all_digits(s: Seq<char>) -> bool {
    forall|i: int| 0 <= i < s.len() ==> is_digit(#[trigger] s[i])
}

/// `s` without the plus sign that may start it.
pub open spec fn unsigned_digits(s: Seq<char>) -> Seq<char> {
    if s.len() > 0 && s[0] == '+' {
        s.drop_first()
    } else {
        s
    }
}

/// The number that `s` denotes: an optional plus sign and at least one decimal digit, with a value
/// of at most `max`.
pub open spec fn unsigned(s: Seq<char>, max: nat) -> Option<nat> {
    let digits = unsigned_digits(s);
    if digits.len() > 0 && all_digits(digits) && digits_value(digits) <= max {
        Some(digits_value(digits))
    } else {
        None
    }
}

pub open spec fn digit_char(d: nat) -> char {
    (d + '0' as nat) as char
}

/// `n` in decimal, without leading zeros.
pub open spec fn decimal(n: nat) -> Seq<char>
    decreases n,
{
    if n < 10 {
        seq![digit_char(n)]
    } else {
        decimal(n / 10).push(digit_char(n % 10))
    }
}

pub open spec fn hex_char(d: nat) -> char {
    if d < 10 {
        (d + '0' as nat) as char
    } else {
        (d - 10 + 'a' as nat) as char
    }
}

/// `n` in lower-case hexadecimal, without leading zeros.
pub open spec fn hexadecimal(n: nat) -> Seq<char>
    decreases n,
{
    if n < 16 {
        seq![hex_char(n)]
    } else {
        hexadecimal(n / 16).push(hex_char(n % 16))
    }
}

pub open spec fn lower_char(c: char) -> char {
    if 'A' <= c <= 'Z' {
        ((c as nat) + 32) as char
    } else {
        c
    }
}

/// `s` with the upper-case ASCII letters made lower-case.
pub open spec fn lowered(s: Seq<char>) -> Seq<char> {
    s.map_values(|c: char| lower_char(c))
}

/// The characters of `s` as a vector.
pub fn chars_of(s: &str) -> (v: Vec<char>)
    ensures
        v@ == s@,
{
    let mut v: Vec<char> = Vec::new();
    for c in it: s.chars()
        invariant
            v@ == it.seq().take(it.index()),
            it.seq() == s@,
    {
        v.push(c);
    }
    v
}

/// The text made of the characters `v[from..to]`.
pub fn text_of(v: &Vec<char>, from: usize, to: usize) -> (s: String)
    requires
        from <= to <= v@.len(),
    ensures
        s@ == v@.subrange(from as int, to as int),
{
    let mut s = String::new();
    let mut i: usize = from;
    while i < to
        invariant
            from <= i <= to <= v@.len(),
            s@ == v@.subrange(from as int, i as int),
        decreases to - i,
    {
        s.push(v[i]);
        i = i + 1;
    }
    s
}

/// Compares two texts.
pub fn same(a: &str, b: &str) -> (r: bool)
    ensures
        r == (a@ == b@),
{
    a.to_owned() == b.to_owned()
}

/// `a` followed by `b`.
pub fn join(a: &str, b: &str) -> (r: String)
    ensures
        r@ == a@ + b@,
{
    let mut r = a.to_owned();
    r.append(b);
    r
}

/// What `find` returns: the first position that holds `c`, or nothing where none does.
pub proof fn lemma_find(s: Seq<char>, c: char)
    ensures
        match find(s, c) {
            Some(i) => 0 <= i < s.len() && s[i] == c && forall|j: int|
                0 <= j < i ==> s[j] != c,
            None => !s.contains(c),
        },
    decreases s.len(),
{
    if s.len() > 0 && s[0] != c {
        let t = s.drop_first();
        lemma_find(t, c);
        match find(t, c) {
            Some(i) => {
                assert forall|j: int| 0 <= j < i + 1 implies s[j] != c by {
                    if j > 0 {
                        assert(s[j] == t[j - 1]);
                    }
                }
            },
            None => {
                assert forall|j: int| 0 <= j < s.len() implies s[j] != c by {
                    if j > 0 {
                        assert(s[j] == t[j - 1]);
                        assert(t.contains(t[j - 1]));
                    }
                }
            },
        }
    }
}

/// What `find_last` returns: the last position that holds `c`, or nothing where none does.
pub proof fn lemma_find_last(s: Seq<char>, c: char)
    ensures
        match find_last(s, c) {
            Some(i) => 0 <= i < s.len() && s[i] == c && forall|j: int|
                i < j < s.len() ==> s[j] != c,
            None => !s.contains(c),
        },
    decreases s.len(),
{
    if s.len() > 0 && s.last() != c {
        let t = s.drop_last();
        lemma_find_last(t, c);
        match find_last(t, c) {
            Some(i) => {
                assert forall|j: int| i < j < s.len() implies s[j] != c by {
                    if j < t.len() {
                        assert(s[j] == t[j]);
                    }
                }
            },
            None => {
                assert forall|j: int| 0 <= j < s.len() implies s[j] != c by {
                    if j < t.len() {
                        assert(s[j] == t[j]);
                        assert(t.contains(t[j]));
                    }
                }
            },
        }
    }
}

/// Finds the first `c`.
pub fn find_char(s: &Vec<char>, c: char) -> (r: Option<usize>)
    ensures
        match r {
            Some(i) => find(s@, c) == Some(i as int) && i < s@.len(),
            None => find(s@, c) is None,
        },
{
    proof {
        lemma_find(s@, c);
    }
    let mut i: usize = 0;
    while i < s.len()
        invariant
            i <= s@.len(),
            forall|j: int| 0 <= j < i ==> s@[j] != c,
            match find(s@, c) {
                Some(k) => 0 <= k < s@.len() && s@[k] == c && forall|j: int|
                    0 <= j < k ==> s@[j] != c,
                None => !s@.contains(c),
            },
        decreases s@.len() - i,
    {
        if s[i] == c {
            assert(s@.contains(s@[i as int]));
            return Some(i);
        }
        i = i + 1;
    }
    None
}

/// Finds the last `c`.
pub fn find_last_char(s: &Vec<char>, c: char) -> (r: Option<usize>)
    ensures
        match r {
            Some(i) => find_last(s@, c) == Some(i as int) && i < s@.len(),
            None => find_last(s@, c) is None,
        },
{
    proof {
        lemma_find_last(s@, c);
    }
    let mut i: usize = s.len();
    while i > 0
        invariant
            i <= s@.len(),
            forall|j: int| i <= j < s@.len() ==> s@[j] != c,
            match find_last(s@, c) {
                Some(k) => 0 <= k < s@.len() && s@[k] == c && forall|j: int|
                    k < j < s@.len() ==> s@[j] != c,
                None => !s@.contains(c),
            },
        decreases i,
    {
        i = i - 1;
        if s[i] == c {
            assert(s@.contains(s@[i as int]));
            return Some(i);
        }
    }
    None
}

/// Tells whether `s` holds a `c`.
pub fn contains_char(s: &str, c: char) -> (r: bool)
    ensures
        r == s@.contains(c),
{
    let v = chars_of(s);
    proof {
        lemma_find(s@, c);
    }
    match find_char(&v, c) {
        Some(i) => {
            assert(s@[i as int] == c);
            true
        },
        None => false,
    }
}

/// Tells whether `s` begins with `prefix`.
pub fn starts_with(s: &str, prefix: &str) -> (r: bool)
    ensures
        r == begins_with(s@, prefix@),
{
    let a = chars_of(s);
    let b = chars_of(prefix);
    if b.len() > a.len() {
        return false;
    }
    let mut i: usize = 0;
    while i < b.len()
        invariant
            i <= b@.len() <= a@.len(),
            a@ == s@,
            b@ == prefix@,
            forall|j: int| 0 <= j < i ==> a@[j] == b@[j],
        decreases b@.len() - i,
    {
        if a[i] != b[i] {
            assert(s@.take(prefix@.len() as int)[i as int] != prefix@[i as int]);
            return false;
        }
        i = i + 1;
    }
    assert(s@.take(prefix@.len() as int) =~= prefix@);
    true
}

/// Tells whether `s` ends with `suffix`.
pub fn ends_with(s: &str, suffix: &str) -> (r: bool)
    ensures
        r == finishes_with(s@, suffix@),
{
    let a = chars_of(s);
    let b = chars_of(suffix);
    if b.len() > a.len() {
        return false;
    }
    let off: usize = a.len() - b.len();
    let mut i: usize = 0;
    while i < b.len()
        invariant
            i <= b@.len() <= a@.len() <= usize::MAX,
            off == a@.len() - b@.len(),
            a@ == s@,
            b@ == suffix@,
            forall|j: int| 0 <= j < i ==> a@[off + j] == b@[j],
        decreases b@.len() - i,
    {
        if a[off + i] != b[i] {
            assert(s@.skip(off as int)[i as int] != suffix@[i as int]);
            return false;
        }
        i = i + 1;
    }
    assert(s@.skip(off as int) =~= suffix@);
    true
}

/// What follows `prefix`, where `s` begins with it.
pub fn strip_prefix<'a>(s: &'a str, prefix: &str) -> (r: Option<&'a str>)
    ensures
        match r {
            Some(rest) => begins_with(s@, prefix@) && rest@ == s@.skip(prefix@.len() as int),
            None => !begins_with(s@, prefix@),
        },
{
    if starts_with(s, prefix) {
        let n = s.unicode_len();
        let k = prefix.unicode_len();
        Some(s.substring_char(k, n))
    } else {
        None
    }
}

/// Removes white space at both ends.
pub fn trim(s: &str) -> (r: &str)
    ensures
        r@ == trimmed(s@),
{
    let v = chars_of(s);
    let n: usize = v.len();
    let mut i: usize = 0;
    assert(s@.subrange(0, n as int) =~= s@);
    while i < n && is_white_space(v[i])
        invariant
            v@ == s@,
            i <= n == s@.len(),
            trimmed_start(s@) == trimmed_start(s@.subrange(i as int, n as int)),
        decreases n - i,
    {
        assert(s@.subrange(i as int, n as int).drop_first() =~= s@.subrange(i + 1, n as int));
        i = i + 1;
    }
    assert(trimmed_start(s@) == s@.subrange(i as int, n as int));
    let mut j: usize = n;
    while j > i && is_white_space(v[j - 1])
        invariant
            v@ == s@,
            i <= j <= n == s@.len(),
            trimmed(s@) == trimmed_end(s@.subrange(i as int, j as int)),
        decreases j,
    {
        assert(s@.subrange(i as int, j as int).drop_last() =~= s@.subrange(i as int, j - 1));
        j = j - 1;
    }
    s.substring_char(i, j)
}

/// Removes the run of `c` at the end.
pub fn trim_end_char(s: &str, c: char) -> (r: &str)
    ensures
        r@ == without_trailing(s@, c),
{
    let v = chars_of(s);
    let mut j: usize = v.len();
    assert(s@.subrange(0, j as int) =~= s@);
    while j > 0 && v[j - 1] == c
        invariant
            v@ == s@,
            j <= s@.len(),
            without_trailing(s@, c) == without_trailing(s@.subrange(0, j as int), c),
        decreases j,
    {
        assert(s@.subrange(0, j as int).drop_last() =~= s@.subrange(0, j - 1));
        j = j - 1;
    }
    s.substring_char(0, j)
}

/// Removes the run of `c` at the start.
pub fn trim_start_char(s: &str, c: char) -> (r: &str)
    ensures
        r@ == without_leading(s@, c),
{
    let v = chars_of(s);
    let n: usize = v.len();
    let mut i: usize = 0;
    assert(s@.subrange(0, n as int) =~= s@);
    while i < n && v[i] == c
        invariant
            v@ == s@,
            i <= n == s@.len(),
            without_leading(s@, c) == without_leading(s@.subrange(i as int, n as int), c),
        decreases n - i,
    {
        assert(s@.subrange(i as int, n as int).drop_first() =~= s@.subrange(i + 1, n as int));
        i = i + 1;
    }
    s.substring_char(i, n)
}

/// The view of a text that may be missing.
pub open spec fn text_view(text: Option<String>) -> Option<Seq<char>> {
    match text {
        Some(t) => Some(t@),
        None => None,
    }
}

/// The views of a list of texts.
pub open spec fn views(list: Seq<String>) -> Seq<Seq<char>> {
    list.map_values(|t: String| t@)
}

/// Splits `s` at every `c`.
pub fn split(s: &str, c: char) -> (r: Vec<String>)
    ensures
        views(r@) == pieces(s@, c),
{
    let v = chars_of(s);
    let n: usize = v.len();
    let mut out: Vec<String> = Vec::new();
    let mut start: usize = 0;
    let mut i: usize = 0;
    assert(s@.skip(0) =~= s@);
    assert(views(out@) + pieces(s@.skip(0), c) =~= pieces(s@, c));
    while i < n
        invariant
            v@ == s@,
            start <= i <= n == s@.len(),
            forall|j: int| start <= j < i ==> s@[j] != c,
            views(out@) + pieces(s@.skip(start as int), c) == pieces(s@, c),
        decreases n - i,
    {
        if v[i] == c {
            let ghost rest = s@.skip(start as int);
            let ghost before = out@;
            let piece = text_of(&v, start, i);
            proof {
                lemma_find(rest, c);
                assert(rest[i - start] == c);
                assert(rest.contains(rest[i - start]));
                let k = find(rest, c).unwrap();
                assert(k == i - start) by {
                    assert(rest[k] == s@[start + k]);
                }
                assert(rest.take(k) =~= piece@);
                assert(rest.skip(k + 1) =~= s@.skip(i + 1));
            }
            out.push(piece);
            proof {
                assert(views(out@) =~= views(before).push(piece@));
                assert(views(out@) + pieces(s@.skip(i + 1), c) =~= views(before) + (seq![piece@]
                    + pieces(s@.skip(i + 1), c)));
            }
            start = i + 1;
        }
        i = i + 1;
    }
    let ghost rest = s@.skip(start as int);
    let ghost before = out@;
    let piece = text_of(&v, start, n);
    proof {
        lemma_find(rest, c);
        assert(find(rest, c) is None) by {
            if find(rest, c) is Some {
                let k = find(rest, c).unwrap();
                assert(rest[k] == s@[start + k]);
            }
        }
        assert(rest =~= piece@);
    }
    out.push(piece);
    proof {
        assert(views(out@) =~= views(before).push(piece@));
        assert(views(out@) =~= views(before) + seq![piece@]);
    }
    out
}

/// Reads an unsigned number of at most `max`.
pub fn parse_unsigned(s: &str, max: u64) -> (r: Option<u64>)
    ensures
        match r {
            Some(n) => unsigned(s@, max as nat) == Some(n as nat),
            None => unsigned(s@, max as nat) is None,
        },
{
    let v = chars_of(s);
    let n: usize = v.len();
    let first: usize = if n > 0 && v[0] == '+' {
        1
    } else {
        0
    };
    let ghost digits = unsigned_digits(s@);
    assert(digits =~= s@.skip(first as int));
    if first == n {
        return None;
    }
    let mut value: u64 = 0;
    let mut i: usize = first;
    while i < n
        invariant
            v@ == s@,
            digits == unsigned_digits(s@),
            digits == s@.skip(first as int),
            first <= i <= n == s@.len(),
            forall|j: int| 0 <= j < i - first ==> is_digit(#[trigger] digits[j]),
            value as nat == digits_value(digits.take(i - first)),
            value <= max,
        decreases n - i,
    {
        let c = v[i];
        assert(digits[i - first] == c);
        if c < '0' || c > '9' {
            return None;
        }
        let d: u64 = (c as u32 - '0' as u32) as u64;
        proof {
            let t = digits.take(i - first + 1);
            assert(t.drop_last() =~= digits.take(i - first));
            assert(t.last() == c);
            assert(digits_value(t) == value * 10 + d);
            lemma_digits_grow(digits, i - first + 1);
        }
        if d > max || value > (max - d) / 10 {
            return None;
        }
        value = value * 10 + d;
        i = i + 1;
    }
    assert(digits.take(n - first) =~= digits);
    Some(value)
}

/// A longer run of digits never denotes a smaller number.
proof fn lemma_digits_grow(s: Seq<char>, n: int)
    requires
        0 <= n <= s.len(),
    ensures
        digits_value(s.take(n)) <= digits_value(s),
    decreases s.len(),
{
    if n < s.len() {
        lemma_digits_grow(s.drop_last(), n);
        assert(s.drop_last().take(n) =~= s.take(n));
    } else {
        assert(s.take(n) =~= s);
    }
}

/// Writes `n` in decimal.
pub fn decimal_text(n: u64) -> (r: String)
    ensures
        r@ == decimal(n as nat),
    decreases n,
{
    if n < 10 {
        let mut s = String::new();
        s.push(digit_of(n));
        assert(s@ =~= decimal(n as nat));
        s
    } else {
        let mut s = decimal_text(n / 10);
        s.push(digit_of(n % 10));
        s
    }
}

fn digit_of(d: u64) -> (c: char)
    requires
        d < 16,
    ensures
        c == hex_char(d as nat),
        d < 10 ==> c == digit_char(d as nat),
{
    let b: u8 = if d < 10 {
        d as u8 + 48
    } else {
        (d - 10) as u8 + 97
    };
    b as char
}

/// Writes `n` in lower-case hexadecimal.
pub fn hex_text(n: u128) -> (r: String)
    ensures
        r@ == hexadecimal(n as nat),
    decreases n,
{
    if n < 16 {
        let mut s = String::new();
        s.push(digit_of(n as u64));
        assert(s@ =~= hexadecimal(n as nat));
        s
    } else {
        let mut s = hex_text(n / 16);
        s.push(digit_of((n % 16) as u64));
        s
    }
}

/// Makes the upper-case ASCII letters lower-case.
pub fn lower(s: &str) -> (r: String)
    ensures
        r@ == lowered(s@),
{
    let v = chars_of(s);
    let mut out = String::new();
    let mut i: usize = 0;
    while i < v.len()
        invariant
            v@ == s@,
            i <= v@.len(),
            out@ == lowered(s@.take(i as int)),
        decreases v@.len() - i,
    {
        let c = v[i];
        let d: char = if 'A' <= c && c <= 'Z' {
            (c as u8 + 32) as char
        } else {
            c
        };
        out.push(d);
        assert(lowered(s@.take(i + 1)) =~= lowered(s@.take(i as int)).push(lower_char(c)));
        i = i + 1;
    }
    assert(s@.take(v@.len() as int) =~= s@);
    out
}

/// Reading back a number that was written in decimal gives that number.
pub proof fn decimal_round_trip(n: nat, max: nat)
    requires
        n <= max,
    ensures
        unsigned(decimal(n), max) == Some(n),
{
    lemma_decimal(n);
}

pub(crate) proof fn lemma_decimal(n: nat)
    ensures
        decimal(n).len() > 0,
        all_digits(decimal(n)),
        digits_value(decimal(n)) == n,
    decreases n,
{
    if n < 10 {
        let s = decimal(n);
        assert(s.drop_last() =~= Seq::<char>::empty());
        reveal_with_fuel(digits_value, 2);
    } else {
        lemma_decimal(n / 10);
        let s = decimal(n);
        assert(s.drop_last() =~= decimal(n / 10));
    }
}

/// Leading white space does not change what is left after trimming.
pub proof fn leading_space_is_trimmed(space: Seq<char>, s: Seq<char>)
    requires
        forall|i: int| 0 <= i < space.len() ==> is_space(#[trigger] space[i]),
    ensures
        trimmed_start(space + s) == trimmed_start(s),
        trimmed(space + s) == trimmed(s),
    decreases space.len(),
{
    if space.len() == 0 {
        assert(space + s =~= s);
    } else {
        let rest = space.drop_first();
        assert forall|i: int| 0 <= i < rest.len() implies is_space(#[trigger] rest[i]) by {
            assert(rest[i] == space[i + 1]);
        }
        assert((space + s)[0] == space[0]);
        assert((space + s).drop_first() =~= rest + s);
        leading_space_is_trimmed(rest, s);
    }
}

/// Trailing white space is dropped at the end.
pub(crate) proof fn lemma_trailing_space(s: Seq<char>, space: Seq<char>)
    requires
        forall|i: int| 0 <= i < space.len() ==> is_space(#[trigger] space[i]),
    ensures
        trimmed_end(s + space) == trimmed_end(s),
    decreases space.len(),
{
    if space.len() == 0 {
        assert(s + space =~= s);
    } else {
        let rest = space.drop_last();
        assert forall|i: int| 0 <= i < rest.len() implies is_space(#[trigger] rest[i]) by {
            assert(rest[i] == space[i]);
        }
        assert((s + space).last() == space[space.len() - 1]);
        assert((s + space).drop_last() =~= s + rest);
        lemma_trailing_space(s, rest);
    }
}

/// What is left at the start ends where the text ends, and begins with no white space; what was
/// dropped is white space.
pub(crate) proof fn lemma_trimmed_start(s: Seq<char>)
    ensures
        ({
            let t = trimmed_start(s);
            let n = s.len() - t.len();
            &&& 0 <= n <= s.len()
            &&& t == s.skip(n)
            &&& forall|i: int| 0 <= i < n ==> is_space(#[trigger] s[i])
            &&& t.len() > 0 ==> !is_space(t[0])
        }),
    decreases s.len(),
{
    if s.len() > 0 && is_space(s[0]) {
        let r = s.drop_first();
        lemma_trimmed_start(r);
        let t = trimmed_start(s);
        let n = s.len() - t.len();
        assert(t =~= s.skip(n));
        assert forall|i: int| 0 <= i < n implies is_space(#[trigger] s[i]) by {
            if i > 0 {
                assert(r[i - 1] == s[i]);
            }
        }
    } else {
        assert(s.skip(0) =~= s);
    }
}

/// What is left at the end begins where the text begins, and ends with no white space; what was
/// dropped is white space.
pub(crate) proof fn lemma_trimmed_end(s: Seq<char>)
    ensures
        ({
            let t = trimmed_end(s);
            &&& t.len() <= s.len()
            &&& t == s.take(t.len() as int)
            &&& forall|i: int| t.len() <= i < s.len() ==> is_space(#[trigger] s[i])
            &&& t.len() > 0 ==> !is_space(t.last())
        }),
    decreases s.len(),
{
    if s.len() > 0 && is_space(s.last()) {
        let r = s.drop_last();
        lemma_trimmed_end(r);
        let t = trimmed_end(s);
        assert(t =~= s.take(t.len() as int));
        assert forall|i: int| t.len() <= i < s.len() implies is_space(#[trigger] s[i]) by {
            if i < r.len() {
                assert(r[i] == s[i]);
            }
        }
    } else {
        assert(s.take(s.len() as int) =~= s);
    }
}

/// Trimming drops exactly the white space at both ends: what is left neither begins nor ends with
/// white space, and stands in the text with nothing but white space around it.
pub proof fn trimming_drops_outer_space(s: Seq<char>)
    ensures
        ({
            let t = trimmed(s);
            &&& t.len() > 0 ==> !is_space(t[0]) && !is_space(t.last())
            &&& exists|from: int, to: int|
                0 <= from <= to <= s.len() && t == #[trigger] s.subrange(from, to) && (forall|i: int|
                    0 <= i < from || to <= i < s.len() ==> is_space(#[trigger] s[i]))
        }),
{
    let a = trimmed_start(s);
    let t = trimmed(s);
    lemma_trimmed_start(s);
    lemma_trimmed_end(a);
    let from = s.len() - a.len();
    let to = from + t.len();
    assert(t =~= s.subrange(from, to));
    assert forall|i: int| 0 <= i < from || to <= i < s.len() implies is_space(#[trigger] s[i]) by {
        if i >= to {
            assert(a[i - from] == s[i]);
        }
    }
    if t.len() > 0 {
        assert(t[0] == a[0]);
    }
}

/// A text that neither begins nor ends with white space is left as it is, whatever white space is
/// put around it.
pub proof fn outer_space_does_not_count(before: Seq<char>, s: Seq<char>, after: Seq<char>)
    requires
        forall|i: int| 0 <= i < before.len() ==> is_space(#[trigger] before[i]),
        forall|i: int| 0 <= i < after.len() ==> is_space(#[trigger] after[i]),
        s.len() > 0 ==> !is_space(s[0]) && !is_space(s.last()),
    ensures
        trimmed(before + s + after) == s,
{
    leading_space_is_trimmed(before, s + after);
    assert(before + s + after =~= before + (s + after));
    if s.len() == 0 {
        assert(s + after =~= after + s);
        leading_space_is_trimmed(after, s);
        assert(s + after =~= after);
        assert(after + s =~= after);
        assert(trimmed_start(s) =~= s);
        assert(trimmed_end(s) =~= s);
    } else {
        assert((s + after)[0] == s[0]);
        assert(trimmed_start(s + after) == s + after);
        lemma_trailing_space(s, after);
        assert(trimmed_end(s) == s);
    }
}

/// Trimming a text that was trimmed at its start gives the same as trimming it.
pub(crate) proof fn lemma_trim_again(s: Seq<char>)
    ensures
        trimmed(trimmed_start(s)) == trimmed(s),
        trimmed(trimmed_end(s)) == trimmed(s),
        trimmed(trimmed(s)) == trimmed(s),
{
    let a = trimmed_start(s);
    lemma_trimmed_start(s);
    assert(trimmed_start(a) == a);
    let b = trimmed_end(s);
    lemma_trimmed_end(s);
    let space = s.skip(b.len() as int);
    assert(s =~= b + space);
    assert forall|i: int| 0 <= i < space.len() implies is_space(#[trigger] space[i]) by {
        assert(space[i] == s[b.len() + i]);
    }
    lemma_trimmed_start(b);
    let bs = trimmed_start(b);
    if bs.len() == 0 {
        // All of it is white space.
        assert forall|i: int| 0 <= i < b.len() implies is_space(#[trigger] b[i]) by {}
        leading_space_is_trimmed(b, space);
        leading_space_is_trimmed(space, Seq::empty());
        assert(space + Seq::<char>::empty() =~= space);
        leading_space_is_trimmed(b, Seq::empty());
        assert(b + Seq::<char>::empty() =~= b);
    } else {
        let head = b.take(b.len() - bs.len());
        assert(b =~= head + bs);
        assert forall|i: int| 0 <= i < head.len() implies is_space(#[trigger] head[i]) by {
            assert(head[i] == b[i]);
        }
        leading_space_is_trimmed(head, bs + space);
        assert(s =~= head + (bs + space));
        assert((bs + space)[0] == bs[0]);
        assert(trimmed_start(bs + space) == bs + space);
        lemma_trailing_space(bs, space);
    }
    let t = trimmed(s);
    lemma_trimmed_end(a);
    if t.len() > 0 {
        assert(t[0] == a[0]);
    }
    assert(trimmed_start(t) == t);
    assert(trimmed_end(t) == t);
}

/// The text before and the text behind a character that is no white space are trimmed each on its
/// own side.
pub(crate) proof fn lemma_trim_around(a: Seq<char>, c: char, b: Seq<char>)
    requires
        !is_space(c),
    ensures
        trimmed_start(a + seq![c] + b) == trimmed_start(a) + seq![c] + b,
        trimmed_end(a + seq![c] + b) == a + seq![c] + trimmed_end(b),
        trimmed(a + seq![c] + b) == trimmed_start(a) + seq![c] + trimmed_end(b),
{
    lemma_trim_start_around(a, seq![c] + b);
    lemma_trim_end_around(a + seq![c], b);
    lemma_trim_end_around(trimmed_start(a) + seq![c], b);
    assert(a + seq![c] + b =~= a + (seq![c] + b));
    assert(trimmed_start(a) + seq![c] + b =~= trimmed_start(a) + (seq![c] + b));
}

proof fn lemma_trim_start_around(a: Seq<char>, rest: Seq<char>)
    requires
        rest.len() > 0,
        !is_space(rest[0]),
    ensures
        trimmed_start(a + rest) == trimmed_start(a) + rest,
    decreases a.len(),
{
    if a.len() == 0 {
        assert(a + rest =~= rest);
    } else {
        assert((a + rest)[0] == a[0]);
        if is_space(a[0]) {
            assert((a + rest).drop_first() =~= a.drop_first() + rest);
            lemma_trim_start_around(a.drop_first(), rest);
        }
    }
}

proof fn lemma_trim_end_around(rest: Seq<char>, b: Seq<char>)
    requires
        rest.len() > 0,
        !is_space(rest.last()),
    ensures
        trimmed_end(rest + b) == rest + trimmed_end(b),
    decreases b.len(),
{
    if b.len() == 0 {
        assert(rest + b =~= rest);
        assert(rest + trimmed_end(b) =~= rest);
    } else {
        assert((rest + b).last() == b.last());
        if is_space(b.last()) {
            assert((rest + b).drop_last() =~= rest + b.drop_last());
            lemma_trim_end_around(rest, b.drop_last());
        }
    }
}

/// A text without runs of `c` at its ends is left as it is.
pub proof fn only_the_outer_run_is_dropped(s: Seq<char>, c: char)
    requires
        s.len() > 0 ==> s[0] != c && s.last() != c,
    ensures
        without_leading(s, c) == s,
        without_trailing(s, c) == s,
        without_leading(seq![c] + s, c) == s,
        without_trailing(s + seq![c], c) == s,
        without_trailing(without_leading(seq![c] + s + seq![c], c), c) == s,
{
    assert((seq![c] + s).drop_first() =~= s);
    assert((s + seq![c]).drop_last() =~= s);
    let both = seq![c] + s + seq![c];
    assert(both[0] == c);
    assert(both.drop_first() =~= s + seq![c]);
    if s.len() > 0 {
        assert((s + seq![c])[0] == s[0]);
        assert(without_leading(s + seq![c], c) == s + seq![c]);
    } else {
        assert((s + seq![c])[0] == c);
        assert((s + seq![c]).drop_first() =~= s);
        assert(without_leading(s + seq![c], c) == without_leading(s, c));
    }
}

/// What is left after dropping runs of `c` neither begins nor ends with it; only `c` was dropped.
pub proof fn dropped_runs_hold_one_char(s: Seq<char>, c: char)
    ensures
        ({
            let t = without_trailing(s, c);
            &&& t.len() <= s.len()
            &&& t == s.take(t.len() as int)
            &&& t.len() > 0 ==> t.last() != c
            &&& forall|i: int| t.len() <= i < s.len() ==> #[trigger] s[i] == c
        }),
        ({
            let t = without_leading(s, c);
            let n = s.len() - t.len();
            &&& 0 <= n
            &&& t == s.skip(n)
            &&& t.len() > 0 ==> t[0] != c
            &&& forall|i: int| 0 <= i < n ==> #[trigger] s[i] == c
        }),
    decreases s.len(),
{
    if s.len() == 0 {
        assert(s.take(0) =~= s);
        assert(s.skip(0) =~= s);
    } else {
        let a = s.drop_last();
        let b = s.drop_first();
        dropped_runs_hold_one_char(a, c);
        dropped_runs_hold_one_char(b, c);
        let t = without_trailing(s, c);
        assert(t =~= s.take(t.len() as int));
        assert forall|i: int| t.len() <= i < s.len() implies #[trigger] s[i] == c by {
            if i < a.len() {
                assert(a[i] == s[i]);
            }
        }
        let u = without_leading(s, c);
        let n = s.len() - u.len();
        assert(u =~= s.skip(n));
        assert forall|i: int| 0 <= i < n implies #[trigger] s[i] == c by {
            if i > 0 {
                assert(b[i - 1] == s[i]);
            }
        }
    }
}

/// A text that begins with another is that one and something behind it.
pub proof fn prefix_and_rest(prefix: Seq<char>, rest: Seq<char>, s: Seq<char>)
    ensures
        begins_with(prefix + rest, prefix),
        (prefix + rest).skip(prefix.len() as int) == rest,
        begins_with(s, prefix) ==> s == prefix + s.skip(prefix.len() as int),
        finishes_with(rest + prefix, prefix),
{
    assert((prefix + rest).take(prefix.len() as int) =~= prefix);
    assert((prefix + rest).skip(prefix.len() as int) =~= rest);
    assert((rest + prefix).skip((rest + prefix).len() - prefix.len()) =~= prefix);
    if begins_with(s, prefix) {
        assert(s =~= s.take(prefix.len() as int) + s.skip(prefix.len() as int));
    }
}

/// The value of a run of digits grows with a digit behind it by ten times and that digit.
pub proof fn digits_count_in_tens(s: Seq<char>, d: nat)
    requires
        d < 10,
    ensures
        digits_value(s.push(digit_char(d))) == digits_value(s) * 10 + d,
        digits_value(Seq::<char>::empty()) == 0,
{
    assert(s.push(digit_char(d)).drop_last() =~= s);
}

/// A number is read with leading zeros and with a plus sign, and in no other way: a text with
/// another character, or without a digit, is no number, and neither is one beyond the limit.
pub proof fn numbers_are_read_in_decimal(n: nat, max: nat, s: Seq<char>)
    requires
        n <= max,
    ensures
        unsigned(decimal(n), max) == Some(n),
        unsigned(seq!['0'] + decimal(n), max) == Some(n),
        unsigned(seq!['+'] + decimal(n), max) == Some(n),
        n > 0 ==> unsigned(decimal(n), (n - 1) as nat) is None,
        unsigned(Seq::<char>::empty(), max) is None,
        unsigned(seq!['+'], max) is None,
        unsigned(s, max) matches Some(value) ==> value <= max && s.len() > 0 && (is_digit(s[0])
            || (s[0] == '+' && s.len() > 1)) && (forall|i: int|
            1 <= i < s.len() ==> is_digit(#[trigger] s[i])) && digits_value(
            unsigned_digits(s),
        ) == value,
{
    lemma_decimal(n);
    let d = decimal(n);
    let z = seq!['0'] + d;
    assert(z[0] == '0');
    assert forall|i: int| 0 <= i < z.len() implies is_digit(#[trigger] z[i]) by {
        if i > 0 {
            assert(z[i] == d[i - 1]);
        }
    }
    lemma_leading_zero(d);
    assert(is_digit(d[0]));
    let plus = seq!['+'] + d;
    assert(plus[0] == '+');
    assert(plus.drop_first() =~= d);
    assert(seq!['+'].drop_first() =~= Seq::<char>::empty());
    if unsigned(s, max) is Some {
        let digits = unsigned_digits(s);
        assert(is_digit(digits[0]));
        assert forall|i: int| 1 <= i < s.len() implies is_digit(#[trigger] s[i]) by {
            if s[0] == '+' {
                assert(digits[i - 1] == s[i]);
            } else {
                assert(digits[i] == s[i]);
            }
        }
    }
}

proof fn lemma_leading_zero(s: Seq<char>)
    ensures
        digits_value(seq!['0'] + s) == digits_value(s),
    decreases s.len(),
{
    let z = seq!['0'] + s;
    if s.len() == 0 {
        assert(z.drop_last() =~= Seq::<char>::empty());
        reveal_with_fuel(digits_value, 2);
    } else {
        assert(z.drop_last() =~= seq!['0'] + s.drop_last());
        assert(z.last() == s.last());
        lemma_leading_zero(s.drop_last());
    }
}

/// The pieces of a text, put together again with the separator between them, are the text, and no
/// piece holds the separator.
pub proof fn pieces_make_the_text(s: Seq<char>, c: char)
    ensures
        glued(pieces(s, c), c) == s,
        pieces(s, c).len() > 0,
        forall|i: int| 0 <= i < pieces(s, c).len() ==> !(#[trigger] pieces(s, c)[i]).contains(c),
    decreases s.len(),
{
    lemma_find(s, c);
    match find(s, c) {
        Some(i) => {
            let rest = s.skip(i + 1);
            pieces_make_the_text(rest, c);
            let all = pieces(s, c);
            assert(all =~= seq![s.take(i)] + pieces(rest, c));
            assert(all.drop_first() =~= pieces(rest, c));
            assert(s =~= s.take(i) + seq![c] + rest);
            assert forall|j: int| 0 <= j < all.len() implies !(#[trigger] all[j]).contains(c) by {
                if j == 0 {
                    if all[0].contains(c) {
                        let k = choose|k: int| 0 <= k < s.take(i).len() && s.take(i)[k] == c;
                        assert(s[k] == c);
                    }
                } else {
                    assert(all[j] == pieces(rest, c)[j - 1]);
                }
            }
        },
        None => {
            assert(pieces(s, c) =~= seq![s]);
        },
    }
}

/// Texts with a separator between them.
pub open spec fn glued(list: Seq<Seq<char>>, c: char) -> Seq<char>
    decreases list.len(),
{
    if list.len() == 0 {
        Seq::empty()
    } else if list.len() == 1 {
        list[0]
    } else {
        list[0] + seq![c] + glued(list.drop_first(), c)
    }
}

/// Making a text lower-case keeps its length, changes the letters from `A` to `Z` to those from `a`
/// to `z` and nothing else, and a second time changes nothing.
pub proof fn lower_case_changes_capitals_only(s: Seq<char>)
    ensures
        lowered(s).len() == s.len(),
        forall|i: int|
            0 <= i < s.len() ==> (if 'A' <= s[i] <= 'Z' {
                (#[trigger] lowered(s)[i]) as int - 'a' as int == s[i] as int - 'A' as int
            } else {
                lowered(s)[i] == s[i]
            }),
        lowered(lowered(s)) == lowered(s),
{
    assert(lowered(lowered(s)) =~= lowered(s));
}

/// Different numbers are written differently.
pub proof fn decimals_tell_numbers_apart(a: nat, b: nat)
    requires
        decimal(a) == decimal(b),
    ensures
        a == b,
{
    lemma_decimal(a);
    lemma_decimal(b);
}

/// No visible ASCII character is white space; blanks, tabs and line ends are.
pub proof fn visible_characters_are_no_space(c: char)
    ensures
        '!' <= c <= '~' ==> !is_space(c),
        c == ' ' || c == '\t' || c == '\n' || c == '\r' ==> is_space(c),
{
}

/// The digits of a number stand for their values.
pub proof fn digits_stand_for_values(d: nat)
    requires
        d < 10,
    ensures
        decimal(d) == seq![digit_char(d)],
        digit_char(d) as int == '0' as int + d,
        hexadecimal(d) == decimal(d),
        hex_char(d + 10) as int == 'a' as int + d,
{
}

/// Texts that were put together with a separator that none of them holds come apart again.
pub proof fn glued_texts_come_apart(list: Seq<Seq<char>>, c: char)
    requires
        list.len() > 0,
        forall|i: int| 0 <= i < list.len() ==> !(#[trigger] list[i]).contains(c),
    ensures
        pieces(glued(list, c), c) == list,
    decreases list.len(),
{
    let first = list[0];
    assert(!list[0].contains(c));
    if list.len() == 1 {
        lemma_find(first, c);
        if find(first, c) is Some {
            assert(first.contains(first[find(first, c)->0]));
        }
        assert(list =~= seq![first]);
    } else {
        let rest = list.drop_first();
        assert forall|i: int| 0 <= i < rest.len() implies !(#[trigger] rest[i]).contains(c) by {
            assert(rest[i] == list[i + 1]);
        }
        glued_texts_come_apart(rest, c);
        let s = glued(list, c);
        lemma_find(s, c);
        assert(s[first.len() as int] == c);
        assert(s.contains(s[first.len() as int]));
        let k = find(s, c)->0;
        if k < first.len() {
            assert(s[k] == first[k]);
            assert(first.contains(first[k]));
        }
        assert(s.take(k) =~= first);
        assert(s.skip(k + 1) =~= glued(rest, c));
        assert(list =~= seq![first] + rest);
    }
}

/// Hexadecimal numbers are written digit by digit, with the sixteen digits `0` to `9` and `a` to `f`.
pub proof fn hexadecimal_counts_in_sixteens(n: nat, d: nat)
    requires
        d < 16,
    ensures
        n > 0 ==> hexadecimal(n * 16 + d) == hexadecimal(n).push("0123456789abcdef"@[d as int]),
        hexadecimal(d) == seq!["0123456789abcdef"@[d as int]],
{
    reveal_strlit("0123456789abcdef");
    assert((n * 16 + d) / 16 == n);
    assert((n * 16 + d) % 16 == d);
    assert(hexadecimal(d) =~= seq![hex_char(d)]);
    assert("0123456789abcdef"@[d as int] == hex_char(d)) by {
        assert(d == 0 || d == 1 || d == 2 || d == 3 || d == 4 || d == 5 || d == 6 || d == 7 || d == 8
            || d == 9 || d == 10 || d == 11 || d == 12 || d == 13 || d == 14 || d == 15);
    }
}

/// White space is the tab and the line ends, the space, and the spaces and separators of other scripts.
pub proof fn white_space_is_that_of_unicode(c: char)
    ensures
        is_space(c) <==> ({
            let ends = "\t\n\u{b}\u{c}\r \u{85}\u{a0}\u{1680}\u{2028}\u{2029}\u{202f}\u{205f}\u{3000}"@;
            let wide = "\u{2000}\u{2001}\u{2002}\u{2003}\u{2004}\u{2005}\u{2006}\u{2007}\u{2008}\u{2009}\u{200a}"@;
            ends.contains(c) || wide.contains(c)
        }),
{
    reveal_strlit(
        "\t\n\u{b}\u{c}\r \u{85}\u{a0}\u{1680}\u{2028}\u{2029}\u{202f}\u{205f}\u{3000}",
    );
    reveal_strlit(
        "\u{2000}\u{2001}\u{2002}\u{2003}\u{2004}\u{2005}\u{2006}\u{2007}\u{2008}\u{2009}\u{200a}",
    );
    let ends = "\t\n\u{b}\u{c}\r \u{85}\u{a0}\u{1680}\u{2028}\u{2029}\u{202f}\u{205f}\u{3000}"@;
    let wide = "\u{2000}\u{2001}\u{2002}\u{2003}\u{2004}\u{2005}\u{2006}\u{2007}\u{2008}\u{2009}\u{200a}"@;
    assert(ends.len() == 14);
    assert(wide.len() == 11);
    if is_space(c) {
        let n = c as int;
        if 9 <= n <= 13 {
            assert(ends[n - 9] == c);
        } else if 0x2000 <= n <= 0x200a {
            assert(wide[n - 0x2000] == c);
        } else {
            assert(ends[5] == ' ' && ends[6] == '\u{85}' && ends[7] == '\u{a0}' && ends[8]
                == '\u{1680}' && ends[9] == '\u{2028}' && ends[10] == '\u{2029}' && ends[11]
                == '\u{202f}' && ends[12] == '\u{205f}' && ends[13] == '\u{3000}');
        }
    }
}

} // verus!
