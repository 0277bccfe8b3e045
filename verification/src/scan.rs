//! Splitting text into words and lines, and reading unsigned decimal numbers,
//! specified over `Seq<char>`.
use vstd::prelude::*;
use crate::text::{is_white, is_white_exec};

verus! {

/// Length of the run of non-whitespace characters at the start of `s`.
pub open spec fn word_len(s: Seq<char>) -> nat
    decreases s.len(),
{
    if s.len() == 0 || is_white(s[0]) {
        0
    } else {
        1 + word_len(s.drop_first())
    }
}

pub proof fn lemma_word_len_bound(s: Seq<char>)
    ensures
        word_len(s) <= s.len(),
    decreases s.len(),
{
    if s.len() > 0 && !is_white(s[0]) {
        lemma_word_len_bound(s.drop_first());
    }
}

/// `str::split_whitespace`: the maximal runs of non-whitespace characters, in order.
pub open spec fn words(s: Seq<char>) -> Seq<Seq<char>>
    decreases s.len(),
{
    if s.len() == 0 {
        seq![]
    } else if is_white(s[0]) {
        words(s.drop_first())
    } else {
        proof {
            lemma_word_len_bound(s);
        }
        let k = word_len(s);
        seq![s.take(k as int)] + words(s.skip(k as int))
    }
}

/// Splits `s` at whitespace, as `str::split_whitespace` does.
pub fn split_words(s: &[char]) -> (r: Vec<Vec<char>>)
    ensures
        r@.len() == words(s@).len(),
        forall|i: int| 0 <= i < r@.len() ==> #[trigger] r@[i]@ == words(s@)[i],
{
    let n = s.len();
    let mut out: Vec<Vec<char>> = Vec::new();
    let ghost mut acc: Seq<Seq<char>> = seq![];
    let mut pos: usize = 0;
    assert(s@.skip(0) =~= s@);
    assert(acc + words(s@) =~= words(s@));
    while pos < n
        invariant
            n == s@.len(),
            pos <= n,
            out@.len() == acc.len(),
            forall|i: int| 0 <= i < out@.len() ==> #[trigger] out@[i]@ == acc[i],
            acc + words(s@.skip(pos as int)) == words(s@),
        decreases n - pos,
    {
        let ghost rest = s@.skip(pos as int);
        if is_white_exec(s[pos]) {
            assert(rest.drop_first() =~= s@.skip(pos + 1));
            pos = pos + 1;
        } else {
            let mut j: usize = pos;
            let mut word: Vec<char> = Vec::new();
            while j < n && !is_white_exec(s[j])
                invariant
                    n == s@.len(),
                    pos <= j <= n,
                    rest == s@.skip(pos as int),
                    word@ == s@.subrange(pos as int, j as int),
                    word_len(rest) == (j - pos) + word_len(s@.skip(j as int)),
                decreases n - j,
            {
                assert(s@.skip(j as int).drop_first() =~= s@.skip(j + 1));
                word.push(s[j]);
                assert(word@ =~= s@.subrange(pos as int, j + 1));
                j = j + 1;
            }
            assert(word_len(s@.skip(j as int)) == 0);
            assert(rest.take(word_len(rest) as int) =~= word@);
            assert(rest.skip(word_len(rest) as int) =~= s@.skip(j as int));
            proof {
                assert(acc.push(word@) + words(s@.skip(j as int)) =~= acc + words(rest));
                acc = acc.push(word@);
            }
            out.push(word);
            pos = j;
        }
    }
    assert(s@.skip(n as int) =~= Seq::<char>::empty());
    assert(acc =~= words(s@));
    out
}

/// Position of the first line feed in `s` (or its length).
pub open spec fn newline_pos(s: Seq<char>) -> nat
    decreases s.len(),
{
    if s.len() == 0 || s[0] == '\n' {
        0
    } else {
        1 + newline_pos(s.drop_first())
    }
}

pub proof fn lemma_newline_pos_bound(s: Seq<char>)
    ensures
        newline_pos(s) <= s.len(),
        newline_pos(s) < s.len() ==> s[newline_pos(s) as int] == '\n',
    decreases s.len(),
{
    if s.len() > 0 && s[0] != '\n' {
        lemma_newline_pos_bound(s.drop_first());
    }
}

/// A line without the carriage return of a `\r\n` ending.
pub open spec fn strip_cr(l: Seq<char>) -> Seq<char> {
    if l.len() > 0 && l.last() == '\r' {
        l.drop_last()
    } else {
        l
    }
}

/// `str::lines`: the lines of `s`, split at `\n` or `\r\n`; a final line ending adds no
/// empty line.
pub open spec fn lines(s: Seq<char>) -> Seq<Seq<char>>
    decreases s.len(),
{
    if s.len() == 0 {
        seq![]
    } else {
        proof {
            lemma_newline_pos_bound(s);
        }
        let k = newline_pos(s);
        if k == s.len() {
            seq![s]
        } else {
            seq![strip_cr(s.take(k as int))] + lines(s.skip(k + 1 as int))
        }
    }
}

/// Splits `s` into lines, as `str::lines` does.
pub fn split_lines(s: &[char]) -> (r: Vec<Vec<char>>)
    ensures
        r@.len() == lines(s@).len(),
        forall|i: int| 0 <= i < r@.len() ==> #[trigger] r@[i]@ == lines(s@)[i],
{
    let n = s.len();
    let mut out: Vec<Vec<char>> = Vec::new();
    let ghost mut acc: Seq<Seq<char>> = seq![];
    let mut pos: usize = 0;
    assert(s@.skip(0) =~= s@);
    assert(acc + lines(s@) =~= lines(s@));
    while pos < n
        invariant
            n == s@.len(),
            pos <= n,
            out@.len() == acc.len(),
            forall|i: int| 0 <= i < out@.len() ==> #[trigger] out@[i]@ == acc[i],
            acc + lines(s@.skip(pos as int)) == lines(s@),
        decreases n - pos,
    {
        let ghost rest = s@.skip(pos as int);
        let mut j: usize = pos;
        let mut line: Vec<char> = Vec::new();
        while j < n && s[j] != '\n'
            invariant
                n == s@.len(),
                pos <= j <= n,
                rest == s@.skip(pos as int),
                line@ == s@.subrange(pos as int, j as int),
                newline_pos(rest) == (j - pos) + newline_pos(s@.skip(j as int)),
            decreases n - j,
        {
            assert(s@.skip(j as int).drop_first() =~= s@.skip(j + 1));
            line.push(s[j]);
            assert(line@ =~= s@.subrange(pos as int, j + 1));
            j = j + 1;
        }
        assert(newline_pos(s@.skip(j as int)) == 0);
        if j == n {
            assert(rest =~= line@);
            assert(lines(rest) == seq![line@]);
            proof {
                assert(acc.push(line@) + lines(s@.skip(n as int)) =~= acc + lines(rest)) by {
                    assert(s@.skip(n as int) =~= Seq::<char>::empty());
                }
                acc = acc.push(line@);
            }
            out.push(line);
            pos = j;
        } else {
            if line.len() > 0 && line[line.len() - 1] == '\r' {
                line.pop();
            }
            assert(rest.take(newline_pos(rest) as int) =~= s@.subrange(pos as int, j as int));
            assert(rest.skip(newline_pos(rest) + 1 as int) =~= s@.skip(j + 1));
            proof {
                assert(acc.push(line@) + lines(s@.skip(j + 1)) =~= acc + lines(rest));
                acc = acc.push(line@);
            }
            out.push(line);
            pos = j + 1;
        }
    }
    assert(s@.skip(n as int) =~= Seq::<char>::empty());
    assert(acc =~= lines(s@));
    out
}

/// An ASCII decimal digit.
pub open spec fn is_digit(c: char) -> bool {
    '0' <= c <= '9'
}

/// The value of a run of decimal digits (most significant first).
pub open spec fn digits_value(d: Seq<char>) -> nat
    decreases d.len(),
{
    if d.len() == 0 {
        0
    } else {
        digits_value(d.drop_last()) * 10 + ((d.last() as nat) - 48) as nat
    }
}

/// The digits of an unsigned number: without one leading `+`.
pub open spec fn unsigned_digits(s: Seq<char>) -> Seq<char> {
    if s.len() > 0 && s[0] == '+' {
        s.drop_first()
    } else {
        s
    }
}

/// What `s.parse::<u64>()` accepts: an optional `+`, then one or more ASCII digits whose
/// value fits in 64 bits.
pub open spec fn parse_u64_spec(s: Seq<char>) -> Option<u64> {
    let d = unsigned_digits(s);
    if d.len() > 0 && (forall|i: int| 0 <= i < d.len() ==> is_digit(#[trigger] d[i]))
        && digits_value(d) <= u64::MAX {
        Some(digits_value(d) as u64)
    } else {
        None
    }
}

/// What `s.parse::<u128>()` accepts: an optional `+`, then one or more ASCII digits whose
/// value fits in 128 bits.
pub open spec fn parse_u128_spec(s: Seq<char>) -> Option<u128> {
    let d = unsigned_digits(s);
    if d.len() > 0 && (forall|i: int| 0 <= i < d.len() ==> is_digit(#[trigger] d[i]))
        && digits_value(d) <= u128::MAX {
        Some(digits_value(d) as u128)
    } else {
        None
    }
}

proof fn lemma_digits_prefix_le(d: Seq<char>, k: int)
    requires
        0 <= k <= d.len(),
        forall|i: int| 0 <= i < d.len() ==> is_digit(#[trigger] d[i]),
    ensures
        digits_value(d.take(k)) <= digits_value(d),
    decreases d.len() - k,
{
    if k < d.len() {
        assert(d.drop_last().take(k) =~= d.take(k));
        assert forall|i: int| 0 <= i < d.drop_last().len() implies is_digit(
            #[trigger] d.drop_last()[i],
        ) by {
            assert(d.drop_last()[i] == d[i]);
        }
        lemma_digits_prefix_le(d.drop_last(), k);
    } else {
        assert(d.take(k) =~= d);
    }
}

/// Reads an unsigned decimal number, as `str::parse::<u64>` does.
pub fn parse_u64(s: &[char]) -> (r: Option<u64>)
    ensures
        r == parse_u64_spec(s@),
{
    let n = s.len();
    let start: usize = if n > 0 && s[0] == '+' {
        1
    } else {
        0
    };
    let ghost d = unsigned_digits(s@);
    assert(d =~= s@.skip(start as int));
    if start >= n {
        return None;
    }
    let mut value: u64 = 0;
    let mut i: usize = start;
    while i < n
        invariant
            start <= i <= n,
            n == s@.len(),
            d == s@.skip(start as int),
            d == unsigned_digits(s@),
            forall|k: int| 0 <= k < i - start ==> is_digit(#[trigger] d[k]),
            value == digits_value(d.take(i - start)),
        decreases n - i,
    {
        let c = s[i];
        if !('0' <= c && c <= '9') {
            assert(!is_digit(d[i - start]));
            return None;
        }
        assert(d.take(i - start + 1).drop_last() =~= d.take(i - start));
        let digit: u64 = (c as u32 - 48) as u64;
        match value.checked_mul(10) {
            Some(t) => match t.checked_add(digit) {
                Some(v) => {
                    value = v;
                },
                None => {
                    proof {
                        lemma_rest_digits_or_not(d, i - start + 1);
                    }
                    return None;
                },
            },
            None => {
                proof {
                    lemma_rest_digits_or_not(d, i - start + 1);
                }
                return None;
            },
        }
        i = i + 1;
    }
    assert(d.take(n - start) =~= d);
    Some(value)
}

/// Reads an unsigned decimal number, as `str::parse::<u128>` does.
pub fn parse_u128(s: &[char]) -> (r: Option<u128>)
    ensures
        r == parse_u128_spec(s@),
{
    let n = s.len();
    let start: usize = if n > 0 && s[0] == '+' {
        1
    } else {
        0
    };
    let ghost d = unsigned_digits(s@);
    assert(d =~= s@.skip(start as int));
    if start >= n {
        return None;
    }
    let mut value: u128 = 0;
    let mut i: usize = start;
    while i < n
        invariant
            start <= i <= n,
            n == s@.len(),
            d == s@.skip(start as int),
            d == unsigned_digits(s@),
            forall|k: int| 0 <= k < i - start ==> is_digit(#[trigger] d[k]),
            value == digits_value(d.take(i - start)),
        decreases n - i,
    {
        let c = s[i];
        if !('0' <= c && c <= '9') {
            assert(!is_digit(d[i - start]));
            return None;
        }
        assert(d.take(i - start + 1).drop_last() =~= d.take(i - start));
        let digit: u128 = (c as u32 - 48) as u128;
        match value.checked_mul(10) {
            Some(t) => match t.checked_add(digit) {
                Some(v) => {
                    value = v;
                },
                None => {
                    proof {
                        lemma_rest_digits_or_not(d, i - start + 1);
                    }
                    return None;
                },
            },
            None => {
                proof {
                    lemma_rest_digits_or_not(d, i - start + 1);
                }
                return None;
            },
        }
        i = i + 1;
    }
    assert(d.take(n - start) =~= d);
    Some(value)
}

/// Once a prefix of the digits is too large, the whole is too large or has a non-digit.
proof fn lemma_rest_digits_or_not(d: Seq<char>, k: int)
    requires
        0 <= k <= d.len(),
        forall|i: int| 0 <= i < k ==> is_digit(#[trigger] d[i]),
    ensures
        (forall|i: int| 0 <= i < d.len() ==> is_digit(#[trigger] d[i])) ==> digits_value(d.take(k))
            <= digits_value(d),
{
    if forall|i: int| 0 <= i < d.len() ==> is_digit(#[trigger] d[i]) {
        lemma_digits_prefix_le(d, k);
    }
}

/// The index of the last occurrence of `c` in `p`, or -1.
pub open spec fn last_index_of(p: Seq<char>, c: char) -> int
    decreases p.len(),
{
    if p.len() == 0 {
        -1
    } else if p.last() == c {
        p.len() - 1
    } else {
        last_index_of(p.drop_last(), c)
    }
}

pub proof fn lemma_last_index_bounds(p: Seq<char>, c: char)
    ensures
        -1 <= last_index_of(p, c) < p.len(),
        last_index_of(p, c) >= 0 ==> p[last_index_of(p, c)] == c,
        forall|j: int| last_index_of(p, c) < j < p.len() ==> p[j] != c,
    decreases p.len(),
{
    if p.len() > 0 && p.last() != c {
        lemma_last_index_bounds(p.drop_last(), c);
        assert forall|j: int| last_index_of(p, c) < j < p.len() implies p[j] != c by {
            if j < p.len() - 1 {
                assert(p.drop_last()[j] == p[j]);
            }
        }
    }
}

/// Position of the last `c` in `p[..hi]`.
pub fn last_index(p: &[char], hi: usize, c: char) -> (r: Option<usize>)
    requires
        hi <= p@.len(),
    ensures
        match r {
            Some(k) => k == last_index_of(p@.take(hi as int), c),
            None => last_index_of(p@.take(hi as int), c) == -1,
        },
{
    let mut j: usize = hi;
    while j > 0 && p[j - 1] != c
        invariant
            j <= hi,
            hi <= p@.len(),
            last_index_of(p@.take(hi as int), c) == last_index_of(p@.take(j as int), c),
        decreases j,
    {
        assert(p@.take(j as int).drop_last() =~= p@.take(j - 1));
        j = j - 1;
    }
    if j == 0 {
        None
    } else {
        Some(j - 1)
    }
}

} // verus!
