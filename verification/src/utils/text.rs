//! Scanning and rendering of the small ASCII texts that kernel files hold.
//!
//! Everything here works on bytes. Whitespace is the space and the control
//! bytes from tab to carriage return; an integer is an optional sign followed
//! by decimal digits.

use vstd::prelude::*;

verus! {

/// Space, tab, line feed, vertical tab, form feed or carriage return.
pub open spec fn is_space(b: u8) -> bool {
    b == 0x20 || (0x09 <= b && b <= 0x0d)
}

/// An ASCII decimal digit.
pub open spec fn is_digit(b: u8) -> bool {
    0x30 <= b && b <= 0x39
}

/// `s` without its leading whitespace.
pub open spec fn trim_start(s: Seq<u8>) -> Seq<u8>
    decreases s.len(),
{
    if s.len() > 0 && is_space(s.first()) {
        trim_start(s.drop_first())
    } else {
        s
    }
}

/// `s` without its trailing whitespace.
pub open spec fn trim_end(s: Seq<u8>) -> Seq<u8>
    decreases s.len(),
{
    if s.len() > 0 && is_space(s.last()) {
        trim_end(s.drop_last())
    } else {
        s
    }
}

/// `s` without leading and trailing whitespace.
pub open spec fn trimmed(s: Seq<u8>) -> Seq<u8> {
    trim_end(trim_start(s))
}

/// Every byte of `s` is a decimal digit.
pub open spec fn all_digits(s: Seq<u8>) -> bool {
    forall|i: int| 0 <= i < s.len() ==> is_digit(#[trigger] s[i])
}

/// The number that a run of decimal digits denotes.
pub open spec fn digits_value(s: Seq<u8>) -> nat
    decreases s.len(),
{
    if s.len() == 0 {
        0
    } else {
        digits_value(s.drop_last()) * 10 + (s.last() - 0x30) as nat
    }
}

/// The integer that `s` denotes: an optional `+` or `-`, then one or more
/// decimal digits and nothing else. `None` for any other text.
pub open spec fn integer_of(s: Seq<u8>) -> Option<int> {
    if s.len() == 0 {
        None
    } else if s[0] == 0x2d {
        if s.len() > 1 && all_digits(s.skip(1)) {
            Some(-(digits_value(s.skip(1)) as int))
        } else {
            None
        }
    } else if s[0] == 0x2b {
        if s.len() > 1 && all_digits(s.skip(1)) {
            Some(digits_value(s.skip(1)) as int)
        } else {
            None
        }
    } else if all_digits(s) {
        Some(digits_value(s) as int)
    } else {
        None
    }
}

/// The integer that `s` denotes, if it is one that an `i64` can hold.
pub open spec fn i64_of(s: Seq<u8>) -> Option<i64> {
    match integer_of(s) {
        Some(v) => if i64::MIN <= v <= i64::MAX {
            Some(v as i64)
        } else {
            None
        },
        None => None,
    }
}

/// The integer that `s` denotes, if it is one that an `i32` can hold.
pub open spec fn i32_of(s: Seq<u8>) -> Option<i32> {
    match integer_of(s) {
        Some(v) => if i32::MIN <= v <= i32::MAX {
            Some(v as i32)
        } else {
            None
        },
        None => None,
    }
}

/// Tells whether `b` is whitespace.
pub fn is_space_byte(b: u8) -> (r: bool)
    ensures
        r == is_space(b),
{
    b == 0x20 || (0x09 <= b && b <= 0x0d)
}

/// Trimming from the left commutes with stepping over one whitespace byte.
proof fn lemma_trim_start_step(s: Seq<u8>, i: int)
    requires
        0 <= i < s.len(),
        is_space(s[i]),
    ensures
        trim_start(s.subrange(i, s.len() as int)) == trim_start(s.subrange(i + 1, s.len() as int)),
{
    let t = s.subrange(i, s.len() as int);
    assert(t.first() == s[i]);
    assert(t.drop_first() =~= s.subrange(i + 1, s.len() as int));
}

/// Trimming from the right commutes with dropping one trailing whitespace byte.
proof fn lemma_trim_end_step(s: Seq<u8>, j: int)
    requires
        0 < j <= s.len(),
        is_space(s[j - 1]),
    ensures
        trim_end(s.subrange(0, j)) == trim_end(s.subrange(0, j - 1)),
{
    let t = s.subrange(0, j);
    assert(t.last() == s[j - 1]);
    assert(t.drop_last() =~= s.subrange(0, j - 1));
}

/// The position of the first byte at or after `from` that is not whitespace,
/// or the length of `content` when only whitespace follows.
pub fn skip_spaces(content: &[u8], from: usize) -> (r: usize)
    requires
        from <= content@.len(),
    ensures
        from <= r <= content@.len(),
        content@.subrange(r as int, content@.len() as int) == trim_start(
            content@.subrange(from as int, content@.len() as int),
        ),
        forall|k: int| from <= k < r ==> is_space(content@[k]),
        r < content@.len() ==> !is_space(content@[r as int]),
{
    let n = content.len();
    let mut i = from;
    while i < n && is_space_byte(content[i])
        invariant
            n == content@.len(),
            from <= i <= n,
            trim_start(content@.subrange(i as int, n as int)) == trim_start(
                content@.subrange(from as int, n as int),
            ),
            forall|k: int| from <= k < i ==> is_space(content@[k]),
        decreases n - i,
    {
        proof {
            lemma_trim_start_step(content@, i as int);
        }
        i += 1;
    }
    proof {
        let t = content@.subrange(i as int, n as int);
        if i < n {
            assert(t.first() == content@[i as int]);
        }
    }
    i
}

/// `content` without leading and trailing whitespace.
pub fn trim(content: &[u8]) -> (r: &[u8])
    ensures
        r@ == trimmed(content@),
{
    let start = skip_spaces(content, 0);
    let end = content.len();
    proof {
        assert(content@.subrange(0, content@.len() as int) =~= content@);
    }
    let rest = &content[start..end];
    let ghost t = rest@;
    assert(t == trim_start(content@));
    let mut j = rest.len();
    proof {
        assert(t.subrange(0, t.len() as int) =~= t);
    }
    while j > 0 && is_space_byte(rest[j - 1])
        invariant
            j <= rest@.len(),
            t == rest@,
            trim_end(t.subrange(0, j as int)) == trim_end(t),
        decreases j,
    {
        proof {
            lemma_trim_end_step(t, j as int);
        }
        j -= 1;
    }
    proof {
        let u = t.subrange(0, j as int);
        if j > 0 {
            assert(u.last() == t[j - 1]);
        }
    }
    &rest[0..j]
}

/// A run of digits denotes at least as much as any of its prefixes.
proof fn lemma_digits_value_prefix(s: Seq<u8>, k: int)
    requires
        0 <= k <= s.len(),
    ensures
        digits_value(s.take(k)) <= digits_value(s),
    decreases s.len() - k,
{
    if k == s.len() {
        assert(s.take(k) =~= s);
    } else {
        lemma_digits_value_prefix(s.drop_last(), k);
        assert(s.drop_last().take(k) =~= s.take(k));
    }
}

/// The number that the digits of `text` denote, provided that `text` is a
/// non-empty run of digits and the number is at most `limit`.
fn parse_magnitude(text: &[u8], limit: u64) -> (r: Option<u64>)
    ensures
        r == (if text@.len() > 0 && all_digits(text@) && digits_value(text@) <= limit {
            Some(digits_value(text@) as u64)
        } else {
            None
        }),
{
    let n = text.len();
    if n == 0 {
        return None;
    }
    let mut acc: u128 = 0;
    let mut i: usize = 0;
    while i < n
        invariant
            n == text@.len(),
            i <= n,
            all_digits(text@.take(i as int)),
            acc == digits_value(text@.take(i as int)),
            acc <= limit,
        decreases n - i,
    {
        let b = text[i];
        if b < 0x30 || b > 0x39 {
            proof {
                assert(!is_digit(text@[i as int]));
            }
            return None;
        }
        proof {
            let next = text@.take(i + 1);
            assert(next.drop_last() =~= text@.take(i as int));
            assert(next.last() == b);
            assert forall|k: int| 0 <= k < next.len() implies is_digit(#[trigger] next[k]) by {
                if k < i {
                    assert(next[k] == text@.take(i as int)[k]);
                }
            }
        }
        acc = acc * 10 + (b - 0x30) as u128;
        if acc > limit as u128 {
            proof {
                if all_digits(text@) {
                    lemma_digits_value_prefix(text@, i + 1);
                }
            }
            return None;
        }
        i += 1;
    }
    proof {
        assert(text@.take(n as int) =~= text@);
    }
    Some(acc as u64)
}

/// The integer that `text` denotes if it lies between `-below` and `above`.
fn parse_within(text: &[u8], below: u64, above: u64) -> (r: Option<i128>)
    ensures
        r == (match integer_of(text@) {
            Some(v) => if -below <= v <= above {
                Some(v as i128)
            } else {
                None
            },
            None => None,
        }),
{
    let n = text.len();
    if n == 0 {
        return None;
    }
    let first = text[0];
    if first == 0x2d {
        let body = &text[1..n];
        proof {
            assert(body@ =~= text@.skip(1));
        }
        match parse_magnitude(body, below) {
            Some(m) => Some(-(m as i128)),
            None => None,
        }
    } else if first == 0x2b {
        let body = &text[1..n];
        proof {
            assert(body@ =~= text@.skip(1));
        }
        match parse_magnitude(body, above) {
            Some(m) => Some(m as i128),
            None => None,
        }
    } else {
        match parse_magnitude(text, above) {
            Some(m) => Some(m as i128),
            None => None,
        }
    }
}

/// Reads `text` as a decimal integer: an optional sign, then digits only.
/// `None` when the text has another form or the number does not fit.
pub fn parse_i64(text: &[u8]) -> (r: Option<i64>)
    ensures
        r == i64_of(text@),
{
    match parse_within(text, 0x8000_0000_0000_0000, 0x7fff_ffff_ffff_ffff) {
        Some(v) => Some(v as i64),
        None => None,
    }
}

/// Reads `text` as a decimal integer: an optional sign, then digits only.
/// `None` when the text has another form or the number does not fit.
pub fn parse_i32(text: &[u8]) -> (r: Option<i32>)
    ensures
        r == i32_of(text@),
{
    match parse_within(text, 0x8000_0000, 0x7fff_ffff) {
        Some(v) => Some(v as i32),
        None => None,
    }
}

/// Length of the run of bytes at the start of `s` that are not whitespace.
pub open spec fn word_len(s: Seq<u8>) -> nat
    decreases s.len(),
{
    if s.len() > 0 && !is_space(s.first()) {
        1 + word_len(s.drop_first())
    } else {
        0
    }
}

/// The token of `s` with number `n`, counting from zero. Tokens are the
/// maximal runs of bytes that are not whitespace.
pub open spec fn nth_token(s: Seq<u8>, n: nat) -> Option<Seq<u8>>
    decreases n,
{
    let t = trim_start(s);
    if t.len() == 0 {
        None
    } else if n == 0 {
        Some(t.take(word_len(t) as int))
    } else {
        nth_token(t.skip(word_len(t) as int), (n - 1) as nat)
    }
}

/// The end of the token that starts at `from`.
fn word_end(content: &[u8], from: usize) -> (r: usize)
    requires
        from <= content@.len(),
    ensures
        from <= r <= content@.len(),
        r - from == word_len(content@.subrange(from as int, content@.len() as int)),
{
    let n = content.len();
    let mut i = from;
    while i < n && !is_space_byte(content[i])
        invariant
            n == content@.len(),
            from <= i <= n,
            word_len(content@.subrange(from as int, n as int)) == (i - from) + word_len(
                content@.subrange(i as int, n as int),
            ),
        decreases n - i,
    {
        proof {
            let t = content@.subrange(i as int, n as int);
            assert(t.first() == content@[i as int]);
            assert(t.drop_first() =~= content@.subrange(i + 1, n as int));
        }
        i += 1;
    }
    proof {
        let t = content@.subrange(i as int, n as int);
        if i < n {
            assert(t.first() == content@[i as int]);
        }
    }
    i
}

/// The token of `content` with number `n`, counting from zero, or `None`
/// when `content` has no more than `n` tokens.
pub fn token(content: &[u8], n: usize) -> (r: Option<&[u8]>)
    ensures
        r.is_some() == nth_token(content@, n as nat).is_some(),
        r matches Some(t) ==> nth_token(content@, n as nat) == Some(t@),
{
    let len = content.len();
    let mut pos: usize = 0;
    let mut k: usize = 0;
    proof {
        assert(content@.subrange(0, len as int) =~= content@);
    }
    loop
        invariant
            len == content@.len(),
            pos <= len,
            k <= n,
            nth_token(content@, n as nat) == nth_token(
                content@.subrange(pos as int, len as int),
                (n - k) as nat,
            ),
        decreases n - k,
    {
        let start = skip_spaces(content, pos);
        if start == len {
            return None;
        }
        let end = word_end(content, start);
        proof {
            let t = content@.subrange(start as int, len as int);
            assert(t.take(end - start) =~= content@.subrange(start as int, end as int));
            assert(t.skip(end - start) =~= content@.subrange(end as int, len as int));
        }
        if k == n {
            return Some(&content[start..end]);
        }
        pos = end;
        k += 1;
    }
}

/// `pat` stands in `s` at position `i`.
pub open spec fn occurs_at(s: Seq<u8>, pat: Seq<u8>, i: int) -> bool {
    &&& 0 <= i
    &&& i + pat.len() <= s.len()
    &&& s.subrange(i, i + pat.len()) == pat
}

/// `i` is the first position at which `pat` stands in `s`.
pub open spec fn is_first_occurrence(s: Seq<u8>, pat: Seq<u8>, i: int) -> bool {
    &&& occurs_at(s, pat, i)
    &&& forall|j: int| 0 <= j < i ==> !occurs_at(s, pat, j)
}

/// The first position at which `pat` stands in `s`, if there is one.
pub open spec fn first_occurrence(s: Seq<u8>, pat: Seq<u8>) -> Option<int> {
    if exists|i: int| is_first_occurrence(s, pat, i) {
        Some(choose|i: int| is_first_occurrence(s, pat, i))
    } else {
        None
    }
}

/// Only one position can be the first occurrence.
pub proof fn lemma_first_occurrence_unique(s: Seq<u8>, pat: Seq<u8>, i: int)
    requires
        is_first_occurrence(s, pat, i),
    ensures
        first_occurrence(s, pat) == Some(i),
{
    let c = choose|c: int| is_first_occurrence(s, pat, c);
    assert(is_first_occurrence(s, pat, c));
    if c < i {
        assert(!occurs_at(s, pat, c));
    } else if i < c {
        assert(!occurs_at(s, pat, i));
    }
}

/// Tells whether `pat` stands in `content` at position `i`.
pub fn matches_at(content: &[u8], pat: &[u8], i: usize) -> (r: bool)
    ensures
        r == occurs_at(content@, pat@, i as int),
{
    let n = content.len();
    let m = pat.len();
    if i > n || m > n - i {
        return false;
    }
    let mut k: usize = 0;
    while k < m
        invariant
            n == content@.len(),
            m == pat@.len(),
            i + m <= n,
            k <= m,
            forall|j: int| 0 <= j < k ==> content@[i + j] == pat@[j],
        decreases m - k,
    {
        if content[i + k] != pat[k] {
            proof {
                assert(content@.subrange(i as int, i + m)[k as int] != pat@[k as int]);
            }
            return false;
        }
        k += 1;
    }
    proof {
        assert(content@.subrange(i as int, i + m) =~= pat@);
    }
    true
}

/// The first position at which `pat` stands in `content`, if there is one.
pub fn find(content: &[u8], pat: &[u8]) -> (r: Option<usize>)
    ensures
        r.is_some() == first_occurrence(content@, pat@).is_some(),
        r matches Some(i) ==> first_occurrence(content@, pat@) == Some(i as int),
        r matches Some(i) ==> is_first_occurrence(content@, pat@, i as int),
{
    let n = content.len();
    let m = pat.len();
    if m > n {
        proof {
            assert forall|i: int| !is_first_occurrence(content@, pat@, i) by {}
        }
        return None;
    }
    let last = n - m;
    let mut i: usize = 0;
    loop
        invariant
            n == content@.len(),
            m == pat@.len(),
            last == n - m,
            i <= last,
            forall|j: int| 0 <= j < i ==> !occurs_at(content@, pat@, j),
        ensures
            forall|j: int| 0 <= j <= last ==> !occurs_at(content@, pat@, j),
        decreases last - i,
    {
        if matches_at(content, pat, i) {
            proof {
                lemma_first_occurrence_unique(content@, pat@, i as int);
            }
            return Some(i);
        }
        if i == last {
            break ;
        }
        i += 1;
    }
    proof {
        assert forall|i: int| !is_first_occurrence(content@, pat@, i) by {
            if is_first_occurrence(content@, pat@, i) {
                assert(occurs_at(content@, pat@, i));
            }
        }
    }
    None
}

/// What follows the first occurrence of `pat` in `s`, if `pat` occurs.
pub open spec fn after_first(s: Seq<u8>, pat: Seq<u8>) -> Option<Seq<u8>> {
    match first_occurrence(s, pat) {
        Some(i) => Some(s.skip(i + pat.len())),
        None => None,
    }
}

/// What precedes the first occurrence of `pat` in `s`, if `pat` occurs.
pub open spec fn before_first(s: Seq<u8>, pat: Seq<u8>) -> Option<Seq<u8>> {
    match first_occurrence(s, pat) {
        Some(i) => Some(s.take(i)),
        None => None,
    }
}

/// What follows the first occurrence of `pat` in `content`, if `pat` occurs.
pub fn rest_after<'a>(content: &'a [u8], pat: &[u8]) -> (r: Option<&'a [u8]>)
    ensures
        r.is_some() == after_first(content@, pat@).is_some(),
        r matches Some(t) ==> after_first(content@, pat@) == Some(t@),
{
    match find(content, pat) {
        Some(i) => {
            assert(occurs_at(content@, pat@, i as int));
            let n = content.len();
            let rest = &content[i + pat.len()..n];
            proof {
                assert(rest@ =~= content@.skip(i + pat@.len()));
            }
            Some(rest)
        },
        None => None,
    }
}

/// What precedes the first occurrence of `pat` in `content`, if `pat` occurs.
pub fn part_before<'a>(content: &'a [u8], pat: &[u8]) -> (r: Option<&'a [u8]>)
    ensures
        r.is_some() == before_first(content@, pat@).is_some(),
        r matches Some(t) ==> before_first(content@, pat@) == Some(t@),
{
    match find(content, pat) {
        Some(i) => {
            assert(occurs_at(content@, pat@, i as int));
            let part = &content[0..i];
            proof {
                assert(part@ =~= content@.take(i as int));
            }
            Some(part)
        },
        None => None,
    }
}

/// Number of bytes before the first line feed of `s`, or the length of `s`
/// when it has none.
pub open spec fn line_len(s: Seq<u8>) -> nat
    decreases s.len(),
{
    if s.len() > 0 && s.first() != 0x0a {
        1 + line_len(s.drop_first())
    } else {
        0
    }
}

/// The first line of `s` without its terminator: a line feed, together with
/// a carriage return directly before it.
pub open spec fn first_line(s: Seq<u8>) -> Seq<u8> {
    let n = line_len(s) as int;
    if n < s.len() && n > 0 && s[n - 1] == 0x0d {
        s.take(n - 1)
    } else {
        s.take(n)
    }
}

/// What follows the first line of `s` and its line feed.
pub open spec fn after_first_line(s: Seq<u8>) -> Seq<u8> {
    let n = line_len(s) as int;
    if n < s.len() {
        s.skip(n + 1)
    } else {
        Seq::empty()
    }
}

/// The line of `s` with number `n`, counting from zero. A text that ends in
/// a line feed has no further, empty line after it.
pub open spec fn nth_line(s: Seq<u8>, n: nat) -> Option<Seq<u8>>
    decreases n,
{
    if s.len() == 0 {
        None
    } else if n == 0 {
        Some(first_line(s))
    } else {
        nth_line(after_first_line(s), (n - 1) as nat)
    }
}

/// Splits `content` into its first line, without the terminator, and what
/// follows that line.
pub fn split_line(content: &[u8]) -> (r: (&[u8], &[u8]))
    ensures
        r.0@ == first_line(content@),
        r.1@ == after_first_line(content@),
        content@.len() > 0 ==> r.1@.len() < content@.len(),
{
    let n = content.len();
    let mut i: usize = 0;
    proof {
        assert(content@.subrange(0, n as int) =~= content@);
    }
    while i < n && content[i] != 0x0a
        invariant
            n == content@.len(),
            i <= n,
            line_len(content@) == i + line_len(content@.subrange(i as int, n as int)),
        decreases n - i,
    {
        proof {
            let t = content@.subrange(i as int, n as int);
            assert(t.first() == content@[i as int]);
            assert(t.drop_first() =~= content@.subrange(i + 1, n as int));
        }
        i += 1;
    }
    proof {
        let t = content@.subrange(i as int, n as int);
        if i < n {
            assert(t.first() == content@[i as int]);
        }
        assert(line_len(content@) == i);
    }
    let rest = if i < n {
        &content[i + 1..n]
    } else {
        &content[n..n]
    };
    let line = if i < n && i > 0 && content[i - 1] == 0x0d {
        &content[0..i - 1]
    } else {
        &content[0..i]
    };
    proof {
        assert(rest@ =~= after_first_line(content@));
        assert(line@ =~= first_line(content@));
    }
    (line, rest)
}

/// The line of `content` with number `n`, counting from zero, or `None`
/// when `content` has no more than `n` lines.
pub fn line_at(content: &[u8], n: usize) -> (r: Option<&[u8]>)
    ensures
        r.is_some() == nth_line(content@, n as nat).is_some(),
        r matches Some(t) ==> nth_line(content@, n as nat) == Some(t@),
{
    let mut rest = content;
    let mut k: usize = 0;
    loop
        invariant
            k <= n,
            nth_line(content@, n as nat) == nth_line(rest@, (n - k) as nat),
        decreases n - k,
    {
        if rest.len() == 0 {
            return None;
        }
        let (first, next) = split_line(rest);
        if k == n {
            return Some(first);
        }
        rest = next;
        k += 1;
    }
}

/// The decimal digits of `n`, most significant first, without leading zeros.
pub open spec fn digits_of(n: nat) -> Seq<u8>
    decreases n,
{
    if n < 10 {
        seq![(0x30 + n) as u8]
    } else {
        digits_of(n / 10).push((0x30 + n % 10) as u8)
    }
}

/// The decimal text of `n`: a minus sign for a negative number, then its digits.
pub open spec fn decimal(n: int) -> Seq<u8> {
    if n < 0 {
        seq![0x2du8] + digits_of((-n) as nat)
    } else {
        digits_of(n as nat)
    }
}

/// Appends the decimal digits of `n` to `out`.
fn push_digits(out: &mut Vec<u8>, n: u64)
    ensures
        final(out)@ == old(out)@ + digits_of(n as nat),
    decreases n,
{
    if n >= 10 {
        push_digits(out, n / 10);
    }
    out.push(0x30 + (n % 10) as u8);
    proof {
        assert(out@ =~= old(out)@ + digits_of(n as nat));
    }
}

/// Appends the decimal text of `n` to `out`.
pub fn push_decimal(out: &mut Vec<u8>, n: i64)
    ensures
        final(out)@ == old(out)@ + decimal(n as int),
{
    if n < 0 {
        out.push(0x2d);
        let magnitude = (-(n as i128)) as u64;
        push_digits(out, magnitude);
        proof {
            assert(out@ =~= old(out)@ + decimal(n as int));
        }
    } else {
        push_digits(out, n as u64);
    }
}

/// The digits of a number are digits, and they denote that number.
pub proof fn lemma_digits_of_value(n: nat)
    ensures
        digits_of(n).len() > 0,
        all_digits(digits_of(n)),
        digits_value(digits_of(n)) == n,
    decreases n,
{
    if n < 10 {
        let d = digits_of(n);
        assert(d.drop_last() =~= Seq::<u8>::empty());
        assert(digits_value(d.drop_last()) == 0);
    } else {
        lemma_digits_of_value(n / 10);
        let d = digits_of(n);
        assert(d.drop_last() =~= digits_of(n / 10));
        assert forall|i: int| 0 <= i < d.len() implies is_digit(#[trigger] d[i]) by {
            if i < d.len() - 1 {
                assert(d[i] == digits_of(n / 10)[i]);
            }
        }
    }
}

/// Reading the decimal text of a number gives that number back.
pub proof fn lemma_decimal_round_trip(n: int)
    ensures
        integer_of(decimal(n)) == Some(n),
{
    if n < 0 {
        let m = (-n) as nat;
        lemma_digits_of_value(m);
        assert(decimal(n).skip(1) =~= digits_of(m));
        assert(decimal(n)[0] == 0x2d);
    } else {
        lemma_digits_of_value(n as nat);
        let d = decimal(n);
        assert(is_digit(d[0]));
    }
}

} // verus!
