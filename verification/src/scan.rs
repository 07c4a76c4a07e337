//! Scanning text: finding a pattern, the end of a run of digits, and the
//! number that digits write.

use vstd::prelude::*;
use vstd::string::*;
use crate::text::{char_is_whitespace, is_space, matches_at, to_chars};

verus! {

/// Whether `pat` stands in `s` at character position `i`.
pub open spec fn matches_from(s: Seq<char>, pat: Seq<char>, i: int) -> bool {
    0 <= i <= s.len() && pat.is_prefix_of(s.skip(i))
}

/// The first position from `from` on at which `pat` stands in `s`.
pub open spec fn position_of(s: Seq<char>, pat: Seq<char>, from: int) -> Option<int>
    decreases s.len() - from,
{
    if from < 0 || from > s.len() {
        None
    } else if matches_from(s, pat, from) {
        Some(from)
    } else if from == s.len() {
        None
    } else {
        position_of(s, pat, from + 1)
    }
}

/// What the first position is: the pattern stands there and nowhere
/// between `from` and it; where there is none the pattern stands nowhere
/// from `from` on.
pub proof fn lemma_position_of(s: Seq<char>, pat: Seq<char>, from: int)
    requires
        0 <= from <= s.len(),
    ensures
        position_of(s, pat, from) matches Some(i) ==> from <= i <= s.len() && matches_from(
            s,
            pat,
            i,
        ) && i + pat.len() <= s.len() && forall|j: int| from <= j < i ==> !matches_from(s, pat, j),
        position_of(s, pat, from) is None ==> forall|j: int|
            from <= j <= s.len() ==> !matches_from(s, pat, j),
    decreases s.len() - from,
{
    if !matches_from(s, pat, from) && from < s.len() {
        lemma_position_of(s, pat, from + 1);
    }
}

/// An index as a mathematical value.
pub open spec fn index_view(r: Option<usize>) -> Option<int> {
    match r {
        Some(i) => Some(i as int),
        None => None,
    }
}

/// The first position from `from` on at which `pat` stands in `s`.
pub fn find(s: &str, pat: &str, from: usize) -> (r: Option<usize>)
    ensures
        index_view(r) == position_of(s@, pat@, from as int),
        r matches Some(i) ==> from <= i && i + pat@.len() <= s@.len(),
{
    let n = s.unicode_len();
    if from > n {
        return None;
    }
    let mut i: usize = from;
    while i < n
        invariant
            from <= i <= n,
            n == s@.len(),
            position_of(s@, pat@, i as int) == position_of(s@, pat@, from as int),
        decreases n - i,
    {
        if matches_at(s, i, pat) {
            proof {
                lemma_position_of(s@, pat@, i as int);
            }
            return Some(i);
        }
        i += 1;
    }
    if matches_at(s, n, pat) {
        proof {
            lemma_position_of(s@, pat@, n as int);
        }
        Some(n)
    } else {
        None
    }
}

/// Whether a character is an ASCII digit.
pub open spec fn is_digit(c: char) -> bool {
    '0' <= c && c <= '9'
}

/// The value of an ASCII digit.
pub open spec fn digit_value(c: char) -> int {
    c as u32 - '0' as u32
}

/// The first position from `from` on at which `s` holds something else
/// than a digit.
pub open spec fn non_digit_position(s: Seq<char>, from: int) -> Option<int>
    decreases s.len() - from,
{
    if from < 0 || from >= s.len() {
        None
    } else if !is_digit(s[from]) {
        Some(from)
    } else {
        non_digit_position(s, from + 1)
    }
}

/// What that position is: digits stand between `from` and it; where there
/// is none, digits stand from `from` to the end.
pub proof fn lemma_non_digit_position(s: Seq<char>, from: int)
    requires
        0 <= from <= s.len(),
    ensures
        non_digit_position(s, from) matches Some(i) ==> from <= i < s.len() && !is_digit(s[i])
            && all_digits(s.subrange(from, i)),
        non_digit_position(s, from) is None ==> all_digits(s.subrange(from, s.len() as int)),
    decreases s.len() - from,
{
    if from < s.len() && is_digit(s[from]) {
        lemma_non_digit_position(s, from + 1);
        match non_digit_position(s, from) {
            Some(i) => {
                let run = s.subrange(from, i);
                assert forall|j: int| 0 <= j < run.len() implies is_digit(#[trigger] run[j]) by {
                    if j > 0 {
                        assert(run[j] == s.subrange(from + 1, i)[j - 1]);
                    }
                }
            },
            None => {
                let run = s.subrange(from, s.len() as int);
                assert forall|j: int| 0 <= j < run.len() implies is_digit(#[trigger] run[j]) by {
                    if j > 0 {
                        assert(run[j] == s.subrange(from + 1, s.len() as int)[j - 1]);
                    }
                }
            },
        }
    }
}

/// The first position from `from` on at which `s` holds something else than
/// a digit.
pub fn find_non_digit(s: &str, from: usize) -> (r: Option<usize>)
    ensures
        index_view(r) == non_digit_position(s@, from as int),
        r matches Some(i) ==> from <= i < s@.len(),
{
    let n = s.unicode_len();
    let mut i: usize = from;
    while i < n
        invariant
            from <= i,
            n == s@.len(),
            non_digit_position(s@, i as int) == non_digit_position(s@, from as int),
        decreases n - i,
    {
        let c = s.get_char(i);
        if !('0' <= c && c <= '9') {
            return Some(i);
        }
        i += 1;
    }
    None
}

/// The number that a run of digits writes in base ten; zero for no digits.
pub open spec fn digits_value(s: Seq<char>) -> nat
    decreases s.len(),
{
    if s.len() == 0 {
        0
    } else {
        (digits_value(s.drop_last()) * 10 + digit_value(s.last())) as nat
    }
}

/// Whether `s` holds digits only.
pub open spec fn all_digits(s: Seq<char>) -> bool {
    forall|j: int| 0 <= j < s.len() ==> is_digit(#[trigger] s[j])
}

proof fn lemma_digits_value_grows(s: Seq<char>, k: int)
    requires
        all_digits(s),
        0 <= k <= s.len(),
    ensures
        digits_value(s.take(k)) <= digits_value(s),
    decreases s.len() - k,
{
    if k < s.len() {
        let next = s.take(k + 1);
        assert(next.drop_last() =~= s.take(k));
        assert(next.last() == s[k]);
        assert(is_digit(s[k]));
        lemma_digits_value_grows(s, k + 1);
    } else {
        assert(s.take(k) =~= s);
    }
}

/// The number that the characters of `s` from `from` to `to` write, where
/// they are digits, at least one, and the number fits.
pub open spec fn number_at(s: Seq<char>, from: int, to: int) -> Option<u64> {
    let run = s.subrange(from, to);
    if 0 <= from < to <= s.len() && all_digits(run) && digits_value(run) <= u64::MAX {
        Some(digits_value(run) as u64)
    } else {
        None
    }
}

/// Reads the number that the characters of `s` from `from` to `to` write.
pub fn parse_digits(s: &str, from: usize, to: usize) -> (r: Option<u64>)
    ensures
        r == number_at(s@, from as int, to as int),
{
    let n = s.unicode_len();
    if from >= to || to > n {
        return None;
    }
    let ghost run = s@.subrange(from as int, to as int);
    let mut acc: u64 = 0;
    let mut i: usize = from;
    proof {
        assert(run.take(0) =~= Seq::<char>::empty());
    }
    while i < to
        invariant
            from <= i <= to,
            to <= s@.len(),
            run == s@.subrange(from as int, to as int),
            all_digits(run.take(i - from)),
            acc == digits_value(run.take(i - from)),
        decreases to - i,
    {
        let c = s.get_char(i);
        proof {
            assert(run[i - from] == c);
        }
        if !('0' <= c && c <= '9') {
            proof {
                assert(!is_digit(run[i - from]));
            }
            return None;
        }
        let d: u64 = (c as u32 - '0' as u32) as u64;
        proof {
            let next = run.take(i - from + 1);
            assert(next.drop_last() =~= run.take(i - from));
            assert(next.last() == c);
            assert forall|j: int| 0 <= j < next.len() implies is_digit(#[trigger] next[j]) by {
                if j < i - from {
                    assert(next[j] == run.take(i - from)[j]);
                }
            }
            assert(digits_value(next) == acc * 10 + d);
        }
        if acc > (u64::MAX - d) / 10 {
            proof {
                let next = run.take(i - from + 1);
                assert(digits_value(next) > u64::MAX);
                if all_digits(run) {
                    lemma_digits_value_grows(run, i - from + 1);
                }
            }
            return None;
        }
        acc = acc * 10 + d;
        i += 1;
    }
    proof {
        assert(run.take(to - from) =~= run);
    }
    Some(acc)
}

/// The number that `s` writes: digits, at least one, behind at most one `+`,
/// and a number that fits.
pub open spec fn unsigned_of(s: Seq<char>) -> Option<u64> {
    if s.len() > 0 && s[0] == '+' {
        number_at(s, 1, s.len() as int)
    } else {
        number_at(s, 0, s.len() as int)
    }
}

/// Reads the number that `s` writes.
pub fn parse_u64(s: &str) -> (r: Option<u64>)
    ensures
        r == unsigned_of(s@),
{
    let n = s.unicode_len();
    if n > 0 && s.get_char(0) == '+' {
        parse_digits(s, 1, n)
    } else {
        parse_digits(s, 0, n)
    }
}

/// The number that `s` writes, where it fits 32 bits.
pub open spec fn unsigned32_of(s: Seq<char>) -> Option<u32> {
    match unsigned_of(s) {
        Some(v) => if v <= u32::MAX {
            Some(v as u32)
        } else {
            None
        },
        None => None,
    }
}

/// Reads the number that `s` writes, where it fits 32 bits.
pub fn parse_u32(s: &str) -> (r: Option<u32>)
    ensures
        r == unsigned32_of(s@),
{
    match parse_u64(s) {
        Some(v) => {
            if v <= 0xFFFF_FFFF {
                Some(v as u32)
            } else {
                None
            }
        },
        None => None,
    }
}

/// The position of the first line feed from `from` on, or the length of `s`.
pub open spec fn line_end(s: Seq<char>, from: int) -> int
    decreases s.len() - from,
{
    if from < 0 || from >= s.len() {
        s.len() as int
    } else if s[from] == '\n' {
        from
    } else {
        line_end(s, from + 1)
    }
}

/// The line between `from` and `end`: a carriage return before a line feed
/// belongs to the line ending.
pub open spec fn line_between(s: Seq<char>, from: int, end: int) -> Seq<char> {
    if end < s.len() && from < end && s[end - 1] == '\r' {
        s.subrange(from, end - 1)
    } else {
        s.subrange(from, end)
    }
}

/// The lines of `s` from `from` on: a line ends at a line feed or at the end
/// of the text; nothing follows a line feed at the end.
pub open spec fn lines_from(s: Seq<char>, from: int) -> Seq<Seq<char>>
    decreases s.len() - from,
{
    if from < 0 || from >= s.len() {
        Seq::empty()
    } else {
        let end = line_end(s, from);
        if from <= end < s.len() {
            seq![line_between(s, from, end)] + lines_from(s, end + 1)
        } else {
            seq![line_between(s, from, s.len() as int)]
        }
    }
}

/// The lines of `s`.
pub open spec fn lines_of(s: Seq<char>) -> Seq<Seq<char>> {
    lines_from(s, 0)
}

pub proof fn lemma_line_end(s: Seq<char>, from: int)
    requires
        0 <= from <= s.len(),
    ensures
        from <= line_end(s, from) <= s.len(),
        line_end(s, from) < s.len() ==> s[line_end(s, from)] == '\n',
    decreases s.len() - from,
{
    if from < s.len() && s[from] != '\n' {
        lemma_line_end(s, from + 1);
    }
}

/// The views of texts.
pub open spec fn views(v: Seq<&str>) -> Seq<Seq<char>> {
    v.map_values(|t: &str| t@)
}

/// The lines of `s`.
pub fn split_lines<'a>(s: &'a str) -> (out: Vec<&'a str>)
    ensures
        views(out@) == lines_of(s@),
{
    let chars = to_chars(s);
    let n = chars.len();
    let mut out: Vec<&'a str> = Vec::new();
    let mut from: usize = 0;
    proof {
        assert(views(out@) + lines_from(s@, 0) =~= lines_of(s@));
    }
    while from < n
        invariant
            from <= n,
            n == s@.len(),
            chars@ == s@,
            views(out@) + lines_from(s@, from as int) == lines_of(s@),
        decreases n - from,
    {
        let mut end: usize = from;
        while end < n && chars[end] != '\n'
            invariant
                from <= end <= n,
                n == s@.len(),
                chars@ == s@,
                line_end(s@, end as int) == line_end(s@, from as int),
            decreases n - end,
        {
            end += 1;
        }
        proof {
            lemma_line_end(s@, from as int);
            assert(line_end(s@, from as int) == end);
        }
        let line = if end < n && from < end && chars[end - 1] == '\r' {
            s.substring_char(from, end - 1)
        } else {
            s.substring_char(from, end)
        };
        let ghost before = views(out@);
        out.push(line);
        proof {
            assert(views(out@) =~= before.push(line@));
            assert(line@ == line_between(s@, from as int, end as int));
            if end < n {
                assert(before.push(line@) + lines_from(s@, end + 1) =~= before + (seq![line@]
                    + lines_from(s@, end + 1)));
            } else {
                assert(lines_from(s@, n as int) =~= Seq::<Seq<char>>::empty());
                assert(before.push(line@) + Seq::<Seq<char>>::empty() =~= before + seq![line@]);
            }
        }
        from = if end < n {
            end + 1
        } else {
            n
        };
    }
    proof {
        assert(views(out@) + Seq::<Seq<char>>::empty() =~= views(out@));
    }
    out
}

/// The position of the first character from `from` on that is no white
/// space, or the length of `s`.
pub open spec fn token_start(s: Seq<char>, from: int) -> int
    decreases s.len() - from,
{
    if from < 0 || from >= s.len() {
        s.len() as int
    } else if !is_space(s[from]) {
        from
    } else {
        token_start(s, from + 1)
    }
}

/// The position of the first white space from `from` on, or the length of `s`.
pub open spec fn token_end(s: Seq<char>, from: int) -> int
    decreases s.len() - from,
{
    if from < 0 || from >= s.len() {
        s.len() as int
    } else if is_space(s[from]) {
        from
    } else {
        token_end(s, from + 1)
    }
}

pub proof fn lemma_token_bounds(s: Seq<char>, from: int)
    requires
        0 <= from <= s.len(),
    ensures
        from <= token_start(s, from) <= s.len(),
        from <= token_end(s, from) <= s.len(),
        from < s.len() && !is_space(s[from]) ==> from < token_end(s, from),
    decreases s.len() - from,
{
    if from < s.len() {
        lemma_token_bounds(s, from + 1);
    }
}

/// The words of `s` from `from` on: the runs of characters that are no
/// white space.
pub open spec fn tokens_from(s: Seq<char>, from: int) -> Seq<Seq<char>>
    decreases s.len() - from,
{
    if from < 0 || from >= s.len() {
        Seq::empty()
    } else {
        let a = token_start(s, from);
        let b = token_end(s, a);
        if from <= a < b <= s.len() {
            seq![s.subrange(a, b)] + tokens_from(s, b)
        } else {
            Seq::empty()
        }
    }
}

/// The words of `s`.
pub open spec fn tokens_of(s: Seq<char>) -> Seq<Seq<char>> {
    tokens_from(s, 0)
}

/// The words of `s`: the runs of characters that are no white space.
pub fn split_tokens<'a>(s: &'a str) -> (out: Vec<&'a str>)
    ensures
        views(out@) == tokens_of(s@),
{
    let n = s.unicode_len();
    let mut out: Vec<&'a str> = Vec::new();
    let mut from: usize = 0;
    proof {
        assert(views(out@) + tokens_from(s@, 0) =~= tokens_of(s@));
    }
    while from < n
        invariant
            from <= n,
            n == s@.len(),
            views(out@) + tokens_from(s@, from as int) == tokens_of(s@),
        decreases n - from,
    {
        let mut a: usize = from;
        while a < n && char_is_whitespace(s.get_char(a))
            invariant
                from <= a <= n,
                n == s@.len(),
                token_start(s@, a as int) == token_start(s@, from as int),
            decreases n - a,
        {
            a += 1;
        }
        proof {
            lemma_token_bounds(s@, from as int);
            assert(token_start(s@, from as int) == a);
        }
        if a >= n {
            proof {
                assert(tokens_from(s@, from as int) =~= Seq::<Seq<char>>::empty());
                assert(tokens_from(s@, n as int) =~= Seq::<Seq<char>>::empty());
            }
            from = n;
        } else {
            let mut b: usize = a;
            while b < n && !char_is_whitespace(s.get_char(b))
                invariant
                    a <= b <= n,
                    n == s@.len(),
                    token_end(s@, b as int) == token_end(s@, a as int),
                decreases n - b,
            {
                b += 1;
            }
            proof {
                lemma_token_bounds(s@, a as int);
                assert(token_end(s@, a as int) == b);
            }
            let word = s.substring_char(a, b);
            let ghost before = views(out@);
            out.push(word);
            proof {
                assert(views(out@) =~= before.push(word@));
                assert(before.push(word@) + tokens_from(s@, b as int) =~= before + (seq![word@]
                    + tokens_from(s@, b as int)));
            }
            from = b;
        }
    }
    proof {
        assert(views(out@) + Seq::<Seq<char>>::empty() =~= views(out@));
    }
    out
}

} // verus!
