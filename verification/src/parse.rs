use vstd::prelude::*;

use crate::text::{decimal, digit_char, nat_digits};

verus! {

/// `c` is one of the decimal digits `0` to `9`.
pub open spec fn is_digit(c: char) -> bool {
    '0' <= c <= '9'
}

/// The value of the decimal digit `c`.
pub open spec fn digit_value(c: char) -> int {
    (c as int) - ('0' as int)
}

/// The value of the decimal digits `s`, most significant first.
pub open spec fn digits_value(s: Seq<char>) -> int
    decreases s.len(),
{
    if s.len() == 0 {
        0
    } else {
        digits_value(s.drop_last()) * 10 + digit_value(s.last())
    }
}

/// `s` is a nonempty run of decimal digits.
pub open spec fn all_digits(s: Seq<char>) -> bool {
    s.len() > 0 && forall|i: int| 0 <= i < s.len() ==> is_digit(#[trigger] s[i])
}

/// The integer `s` denotes: an optional `+` or `-` followed by one or more
/// decimal digits, nothing else.
pub open spec fn parsed_int(s: Seq<char>) -> Option<int> {
    if s.len() > 0 && (s[0] == '+' || s[0] == '-') {
        if all_digits(s.drop_first()) {
            if s[0] == '-' {
                Some(-digits_value(s.drop_first()))
            } else {
                Some(digits_value(s.drop_first()))
            }
        } else {
            None
        }
    } else if all_digits(s) {
        Some(digits_value(s))
    } else {
        None
    }
}

/// What `str::parse::<i32>` gives for `s`: the integer it denotes when that
/// fits in an `i32`.
pub open spec fn parsed_i32(s: Seq<char>) -> Option<i32> {
    match parsed_int(s) {
        Some(v) => if i32::MIN <= v <= i32::MAX { Some(v as i32) } else { None },
        None => None,
    }
}

/// Adding digits never makes a run of digits smaller.
proof fn lemma_digits_value_grows(s: Seq<char>, k: int)
    requires
        0 <= k <= s.len(),
        forall|i: int| 0 <= i < s.len() ==> is_digit(#[trigger] s[i]),
    ensures
        digits_value(s) >= digits_value(s.take(k)),
        digits_value(s.take(k)) >= 0,
    decreases s.len() - k,
{
    if k < s.len() {
        lemma_digits_value_grows(s, k + 1);
        assert(s.take(k + 1).drop_last() =~= s.take(k));
        assert(s.take(k + 1).last() == s[k]);
    } else {
        assert(s.take(k) =~= s);
        lemma_digits_value_nonnegative(s);
    }
}

proof fn lemma_digits_value_nonnegative(s: Seq<char>)
    requires
        forall|i: int| 0 <= i < s.len() ==> is_digit(#[trigger] s[i]),
    ensures
        digits_value(s) >= 0,
    decreases s.len(),
{
    if s.len() > 0 {
        assert(is_digit(s[s.len() - 1]));
        lemma_digits_value_nonnegative(s.drop_last());
    }
}

/// Parses `s` as `str::parse::<i32>` does: an optional sign, then decimal
/// digits; `None` when `s` is not of that form or its value does not fit.
pub fn parse_i32(s: &str) -> (parsed: Option<i32>)
    ensures
        parsed == parsed_i32(s@),
{
    let n = s.unicode_len();
    if n == 0 {
        return None;
    }
    let first = s.get_char(0);
    let negative = first == '-';
    let start: usize = if first == '+' || first == '-' { 1 } else { 0 };
    if start == n {
        return None;
    }
    let ghost body = s@.skip(start as int);
    assert(start == 1 ==> body =~= s@.drop_first());
    assert(start == 0 ==> body =~= s@);
    let mut value: i64 = 0;
    let mut i: usize = start;
    while i < n
        invariant
            start <= i <= n,
            start <= 1,
            n == s@.len(),
            start < n,
            body == s@.skip(start as int),
            start == 1 ==> body == s@.drop_first(),
            start == 0 ==> body == s@,
            (start == 1) == (s@[0] == '+' || s@[0] == '-'),
            negative == (s@[0] == '-'),
            forall|j: int| 0 <= j < i - start ==> is_digit(#[trigger] body[j]),
            value == digits_value(body.take(i - start)),
            0 <= value <= 0x8000_0000,
        decreases n - i,
    {
        let c = s.get_char(i);
        assert(body[i - start] == s@[i as int]);
        if !('0' <= c && c <= '9') {
            assert(!is_digit(body[i - start]));
            assert(!all_digits(body));
            return None;
        }
        proof {
            let k = i - start;
            assert(body.take(k + 1).drop_last() =~= body.take(k));
            assert(body.take(k + 1).last() == c);
        }
        value = value * 10 + ((c as u32) - ('0' as u32)) as i64;
        assert(value == digits_value(body.take(i - start + 1)));
        if value > 0x8000_0000 {
            proof {
                if all_digits(body) {
                    lemma_digits_value_grows(body, (i - start + 1) as int);
                    assert(digits_value(body) > 0x8000_0000);
                    if start == 1 {
                        assert(parsed_int(s@) == Some(-digits_value(body)) || parsed_int(s@) == Some(digits_value(body)));
                    } else {
                        assert(parsed_int(s@) == Some(digits_value(body)));
                    }
                } else {
                    assert(parsed_int(s@) is None);
                }
            }
            return None;
        }
        i = i + 1;
    }
    assert(body.take(n - start) =~= body);
    if negative {
        Some((-value) as i32)
    } else if value > 0x7fff_ffff {
        None
    } else {
        Some(value as i32)
    }
}

/// Splitting `s` at each `separator`: the pieces completed so far, and the piece
/// under way after the last separator.
pub open spec fn split_scan(s: Seq<char>, separator: char) -> (Seq<Seq<char>>, Seq<char>)
    decreases s.len(),
{
    if s.len() == 0 {
        (Seq::empty(), Seq::empty())
    } else {
        let (done, current) = split_scan(s.drop_last(), separator);
        if s.last() == separator {
            (done.push(current), Seq::empty())
        } else {
            (done, current.push(s.last()))
        }
    }
}

/// The pieces of `s` between the occurrences of `separator`, as `str::split`
/// gives them: empty pieces included, and always at least one piece.
pub open spec fn split_at_char(s: Seq<char>, separator: char) -> Seq<Seq<char>> {
    split_scan(s, separator).0.push(split_scan(s, separator).1)
}

/// The digit characters are decimal digits, each of its own value.
proof fn lemma_digit_char(d: int)
    requires
        0 <= d < 10,
    ensures
        is_digit(digit_char(d)),
        digit_value(digit_char(d)) == d,
{
}

/// The decimal digits of `n` are a run of digits whose value is `n`.
proof fn lemma_nat_digits_value(n: nat)
    ensures
        all_digits(nat_digits(n)),
        digits_value(nat_digits(n)) == n,
    decreases n,
{
    if n < 10 {
        lemma_digit_char(n as int);
        let s = nat_digits(n);
        assert(s.drop_last() =~= Seq::<char>::empty());
        assert(digits_value(s.drop_last()) == 0);
        assert(s.last() == digit_char(n as int));
        assert(digits_value(s) == digits_value(s.drop_last()) * 10 + digit_value(s.last()));
    } else {
        lemma_nat_digits_value(n / 10);
        lemma_digit_char((n % 10) as int);
        let s = nat_digits(n);
        assert(s.drop_last() =~= nat_digits(n / 10));
        assert(s.last() == digit_char((n % 10) as int));
        assert(digits_value(s) == digits_value(nat_digits(n / 10)) * 10 + digit_value(s.last()));
        assert((n / 10) * 10 + n % 10 == n) by (nonlinear_arith);
        assert forall|i: int| 0 <= i < s.len() implies is_digit(#[trigger] s[i]) by {
            if i < s.len() - 1 {
                assert(s[i] == nat_digits(n / 10)[i]);
            }
        }
    }
}

/// Reading back the decimal representation of an `i32` gives the same number:
/// `str::parse::<i32>` undoes `format!("{}", i)`.
pub proof fn lemma_parse_decimal(i: i32)
    ensures
        parsed_i32(decimal(i as int)) == Some(i),
{
    if i < 0 {
        let m = (-i) as nat;
        lemma_nat_digits_value(m);
        let s = decimal(i as int);
        assert(s.drop_first() =~= nat_digits(m));
        assert(s[0] == '-');
    } else {
        lemma_nat_digits_value(i as nat);
        let s = decimal(i as int);
        assert(is_digit(s[0]));
    }
}

/// The decimal representation of a number holds no character but digits and
/// a leading `-`.
pub proof fn lemma_decimal_characters(i: int, c: char)
    requires
        decimal(i).contains(c),
    ensures
        is_digit(c) || c == '-',
{
    let s = decimal(i);
    let k = choose|k: int| 0 <= k < s.len() && s[k] == c;
    if i < 0 {
        lemma_nat_digits_value((-i) as nat);
        if k > 0 {
            assert(s[k] == nat_digits((-i) as nat)[k - 1]);
        }
    } else {
        lemma_nat_digits_value(i as nat);
    }
}

/// Splitting runs on through text free of the separator: the pieces completed
/// stay, and the text joins the piece under way.
pub proof fn lemma_split_scan_plain(p: Seq<char>, q: Seq<char>, separator: char)
    requires
        !q.contains(separator),
    ensures
        split_scan(p + q, separator) == (split_scan(p, separator).0, split_scan(p, separator).1 + q),
    decreases q.len(),
{
    if q.len() == 0 {
        assert(p + q =~= p);
        assert(split_scan(p, separator).1 + q =~= split_scan(p, separator).1);
    } else {
        let q0 = q.drop_last();
        assert(!q0.contains(separator)) by {
            if q0.contains(separator) {
                let k = choose|k: int| 0 <= k < q0.len() && q0[k] == separator;
                assert(q[k] == separator);
            }
        }
        lemma_split_scan_plain(p, q0, separator);
        assert((p + q).drop_last() =~= p + q0);
        assert((p + q).last() == q.last());
        assert(q.last() != separator) by {
            assert(q[q.len() - 1] == q.last());
        }
        assert((split_scan(p, separator).1 + q0).push(q.last()) =~= split_scan(p, separator).1 + q);
    }
}

/// A separator completes the piece under way and starts an empty one.
pub proof fn lemma_split_scan_separator(p: Seq<char>, separator: char)
    ensures
        split_scan(p.push(separator), separator)
            == (split_scan(p, separator).0.push(split_scan(p, separator).1), Seq::<char>::empty()),
{
    assert(p.push(separator).drop_last() =~= p);
}

/// `line` without one trailing carriage return.
pub open spec fn strip_carriage_return(line: Seq<char>) -> Seq<char> {
    if line.len() > 0 && line.last() == '\r' {
        line.drop_last()
    } else {
        line
    }
}

/// The lines of `s`, as `str::lines` gives them: split at each line feed, a
/// carriage return before the line feed dropped, and no final empty line after
/// a last line feed.
pub open spec fn lines_of(s: Seq<char>) -> Seq<Seq<char>> {
    let (done, current) = split_scan(s, '\n');
    let done = Seq::new(done.len(), |i: int| strip_carriage_return(done[i]));
    if current.len() == 0 {
        done
    } else {
        done.push(current)
    }
}

/// The views of a vector of strings.
pub open spec fn string_views(strings: Seq<String>) -> Seq<Seq<char>> {
    Seq::new(strings.len(), |i: int| strings[i]@)
}

/// Splits `s` at each `separator`, as `str::split` does.
pub fn split_string(s: &str, separator: char) -> (pieces: Vec<String>)
    ensures
        string_views(pieces@) == split_at_char(s@, separator),
{
    let n = s.unicode_len();
    let mut pieces: Vec<String> = Vec::new();
    let mut start: usize = 0;
    let mut i: usize = 0;
    while i < n
        invariant
            n == s@.len(),
            start <= i <= n,
            string_views(pieces@) == split_scan(s@.take(i as int), separator).0,
            s@.subrange(start as int, i as int) == split_scan(s@.take(i as int), separator).1,
        decreases n - i,
    {
        let c = s.get_char(i);
        proof {
            assert(s@.take(i + 1).drop_last() =~= s@.take(i as int));
            assert(s@.take(i + 1).last() == c);
        }
        if c == separator {
            let piece = String::from_str(s.substring_char(start, i));
            pieces.push(piece);
            start = i + 1;
            assert(string_views(pieces@) =~= split_scan(s@.take(i + 1), separator).0);
            assert(s@.subrange(start as int, i + 1) =~= Seq::<char>::empty());
        } else {
            assert(s@.subrange(start as int, i + 1) =~= s@.subrange(start as int, i as int).push(c));
        }
        i = i + 1;
    }
    assert(s@.take(n as int) =~= s@);
    let last = String::from_str(s.substring_char(start, n));
    pieces.push(last);
    assert(string_views(pieces@) =~= split_at_char(s@, separator));
    pieces
}

/// The lines of `s`, as `str::lines` gives them.
pub fn lines(s: &str) -> (lines: Vec<String>)
    ensures
        string_views(lines@) == lines_of(s@),
{
    let n = s.unicode_len();
    let mut lines: Vec<String> = Vec::new();
    let mut start: usize = 0;
    let mut i: usize = 0;
    while i < n
        invariant
            n == s@.len(),
            start <= i <= n,
            string_views(lines@) == Seq::new(
                split_scan(s@.take(i as int), '\n').0.len(),
                |j: int| strip_carriage_return(split_scan(s@.take(i as int), '\n').0[j]),
            ),
            s@.subrange(start as int, i as int) == split_scan(s@.take(i as int), '\n').1,
        decreases n - i,
    {
        let c = s.get_char(i);
        proof {
            assert(s@.take(i + 1).drop_last() =~= s@.take(i as int));
            assert(s@.take(i + 1).last() == c);
        }
        if c == '\n' {
            let end = if i > start && s.get_char(i - 1) == '\r' { i - 1 } else { i };
            let line = String::from_str(s.substring_char(start, end));
            proof {
                let current = s@.subrange(start as int, i as int);
                assert(i > start ==> current.last() == s@[i - 1]);
                assert(line@ =~= strip_carriage_return(current));
            }
            let ghost before = split_scan(s@.take(i as int), '\n');
            let ghost old_lines = lines@;
            assert(string_views(old_lines).len() == old_lines.len());
            assert(old_lines.len() == before.0.len());
            assert(line@ == strip_carriage_return(before.1));
            assert(split_scan(s@.take(i + 1), '\n').0 == before.0.push(before.1));
            lines.push(line);
            proof {
                let done = split_scan(s@.take(i + 1), '\n').0;
                assert forall|j: int| 0 <= j < lines@.len() implies #[trigger] string_views(lines@)[j] == strip_carriage_return(done[j]) by {
                    if j < old_lines.len() {
                        assert(lines@[j] == old_lines[j]);
                        assert(string_views(old_lines)[j] == old_lines[j]@);
                    } else {
                        assert(lines@[j] == line);
                    }
                }
            }
            start = i + 1;
            assert(string_views(lines@) =~= Seq::new(
                split_scan(s@.take(i + 1), '\n').0.len(),
                |j: int| strip_carriage_return(split_scan(s@.take(i + 1), '\n').0[j]),
            ));
            assert(s@.subrange(start as int, i + 1) =~= Seq::<char>::empty());
        } else {
            assert(s@.subrange(start as int, i + 1) =~= s@.subrange(start as int, i as int).push(c));
        }
        i = i + 1;
    }
    assert(s@.take(n as int) =~= s@);
    if start < n {
        let last = String::from_str(s.substring_char(start, n));
        lines.push(last);
    }
    assert(string_views(lines@) =~= lines_of(s@));
    lines
}

} // verus!
