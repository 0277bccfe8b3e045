//! Character-level string helpers with exact specifications over `Seq<char>`.
use vstd::prelude::*;

verus! {

broadcast use vstd::string::group_string_axioms;

/// Copies the characters of a string into a vector.
pub fn chars_of(s: &str) -> (v: Vec<char>)
    ensures
        v@ == s@,
{
    let mut v: Vec<char> = Vec::new();
    for c in it: s.chars()
        invariant
            it.seq() == s@,
            v@ == it.seq().take(it.index() as int),
    {
        v.push(c);
        assert(it.seq().take(it.index() as int + 1) =~= it.seq().take(it.index() as int).push(c));
    }
    assert(v@ =~= s@);
    v
}

/// Appends one character to a string (std's `String::push`).
#[verifier::external_body]
pub fn push_char(s: &mut String, c: char)
    ensures
        final(s)@ == old(s)@.push(c),
{
    s.push(c);
}

/// Appends a sequence of characters to a string.
pub fn push_chars(s: &mut String, chars: &[char])
    ensures
        final(s)@ == old(s)@ + chars@,
{
    let n = chars.len();
    for i in 0..n
        invariant
            n == chars@.len(),
            s@ == old(s)@ + chars@.take(i as int),
    {
        push_char(s, chars[i]);
        assert(chars@.take(i + 1) =~= chars@.take(i as int).push(chars@[i as int]));
    }
    assert(chars@.take(n as int) =~= chars@);
}

/// Builds a string from characters.
pub fn string_from_chars(chars: &[char]) -> (s: String)
    ensures
        s@ == chars@,
{
    let mut s = String::new();
    push_chars(&mut s, chars);
    assert(s@ =~= chars@);
    s
}

/// Appends a string slice.
pub fn push_str(s: &mut String, t: &str)
    ensures
        final(s)@ == old(s)@ + t@,
{
    let chars = chars_of(t);
    push_chars(s, chars.as_slice());
}

/// The decimal digit character for `d < 10`.
pub open spec fn digit_char(d: nat) -> char {
    ((48 + d) as u32) as char
}

/// The decimal representation of a natural number, without sign or leading zeros.
pub open spec fn decimal(n: nat) -> Seq<char>
    decreases n,
{
    if n < 10 {
        seq![digit_char(n)]
    } else {
        decimal(n / 10).push(digit_char(n % 10))
    }
}

fn digit(d: u64) -> (c: char)
    requires
        d < 10,
    ensures
        c == digit_char(d as nat),
{
    let b: u8 = 48u8 + (d as u8);
    b as char
}

/// Appends the decimal representation of `n`.
pub fn push_decimal(s: &mut String, n: u64)
    ensures
        final(s)@ == old(s)@ + decimal(n as nat),
    decreases n,
{
    if n >= 10 {
        push_decimal(s, n / 10);
    }
    push_char(s, digit(n % 10));
    assert(s@ =~= old(s)@ + decimal(n as nat));
}

/// The decimal representation of `n` as a string.
pub fn decimal_string(n: u64) -> (s: String)
    ensures
        s@ == decimal(n as nat),
{
    let mut s = String::new();
    push_decimal(&mut s, n);
    assert(s@ =~= decimal(n as nat));
    s
}

/// The decimal representation of a signed integer, with a leading `-` when negative.
pub open spec fn signed_decimal(n: int) -> Seq<char> {
    if n < 0 {
        seq!['-'] + decimal((-n) as nat)
    } else {
        decimal(n as nat)
    }
}

/// Appends the decimal representation of a signed 64-bit integer.
pub fn push_signed_decimal(s: &mut String, n: i64)
    ensures
        final(s)@ == old(s)@ + signed_decimal(n as int),
{
    if n < 0 {
        push_char(s, '-');
        let magnitude: u64 = if n == i64::MIN {
            9223372036854775808u64
        } else {
            (-n) as u64
        };
        push_decimal(s, magnitude);
        assert(s@ =~= old(s)@ + signed_decimal(n as int));
    } else {
        push_decimal(s, n as u64);
    }
}

/// Unicode `White_Space`, as used by `char::is_whitespace` and `str::trim`.
pub open spec fn is_white(c: char) -> bool {
    let u = c as u32;
    ||| 9 <= u <= 13
    ||| u == 32
    ||| u == 0x85
    ||| u == 0xA0
    ||| u == 0x1680
    ||| 0x2000 <= u <= 0x200A
    ||| u == 0x2028
    ||| u == 0x2029
    ||| u == 0x202F
    ||| u == 0x205F
    ||| u == 0x3000
}

pub fn is_white_exec(c: char) -> (b: bool)
    ensures
        b == is_white(c),
{
    let u = c as u32;
    (9 <= u && u <= 13) || u == 32 || u == 0x85 || u == 0xA0 || u == 0x1680 || (0x2000 <= u && u
        <= 0x200A) || u == 0x2028 || u == 0x2029 || u == 0x202F || u == 0x205F || u == 0x3000
}

/// Index of the first non-whitespace character at or after `i` (or the length).
pub open spec fn first_content(s: Seq<char>, i: int) -> int
    decreases s.len() - i,
{
    if i >= s.len() || i < 0 {
        s.len() as int
    } else if is_white(s[i]) {
        first_content(s, i + 1)
    } else {
        i
    }
}

/// End of content: the position after the last non-whitespace character in `s[lo..j]` (or `lo`).
pub open spec fn content_end(s: Seq<char>, lo: int, j: int) -> int
    decreases j - lo,
{
    if j <= lo {
        lo
    } else if is_white(s[j - 1]) {
        content_end(s, lo, j - 1)
    } else {
        j
    }
}

/// The start position of `trim`.
pub open spec fn trim_start(s: Seq<char>) -> int {
    first_content(s, 0)
}

/// The end position of `trim`.
pub open spec fn trim_end(s: Seq<char>) -> int {
    content_end(s, trim_start(s), s.len() as int)
}

/// `str::trim`: the sequence without leading and trailing whitespace.
pub open spec fn trim(s: Seq<char>) -> Seq<char> {
    s.subrange(trim_start(s), trim_end(s))
}

proof fn lemma_first_content_bounds(s: Seq<char>, i: int)
    requires
        0 <= i <= s.len(),
    ensures
        i <= first_content(s, i) <= s.len(),
    decreases s.len() - i,
{
    if i < s.len() && is_white(s[i]) {
        lemma_first_content_bounds(s, i + 1);
    }
}

proof fn lemma_content_end_bounds(s: Seq<char>, lo: int, j: int)
    requires
        lo <= j,
    ensures
        lo <= content_end(s, lo, j) <= j,
    decreases j - lo,
{
    if j > lo && is_white(s[j - 1]) {
        lemma_content_end_bounds(s, lo, j - 1);
    }
}

/// The bounds of the trimmed part of `s`.
pub fn trim_bounds(s: &[char]) -> (r: (usize, usize))
    ensures
        r.0 == trim_start(s@),
        r.1 == trim_end(s@),
        r.0 <= r.1 <= s@.len(),
{
    let n = s.len();
    let mut i: usize = 0;
    while i < n && is_white_exec(s[i])
        invariant
            i <= n,
            n == s@.len(),
            first_content(s@, 0) == first_content(s@, i as int),
        decreases n - i,
    {
        i = i + 1;
    }
    let mut j: usize = n;
    while j > i && is_white_exec(s[j - 1])
        invariant
            i <= j <= n,
            n == s@.len(),
            i == trim_start(s@),
            content_end(s@, i as int, n as int) == content_end(s@, i as int, j as int),
        decreases j,
    {
        j = j - 1;
    }
    proof {
        lemma_content_end_bounds(s@, i as int, j as int);
    }
    (i, j)
}

/// The trimmed characters of `s`.
pub fn trim_chars(s: &[char]) -> (t: Vec<char>)
    ensures
        t@ == trim(s@),
{
    let (a, b) = trim_bounds(s);
    let mut t: Vec<char> = Vec::new();
    for k in a..b
        invariant
            a <= b <= s@.len(),
            a == trim_start(s@),
            b == trim_end(s@),
            t@ == s@.subrange(a as int, k as int),
    {
        t.push(s[k]);
        assert(s@.subrange(a as int, k + 1) =~= s@.subrange(a as int, k as int).push(s@[k as int]));
    }
    t
}

/// Number of bytes in the UTF-8 encoding of a character.
pub open spec fn utf8_width(c: char) -> nat {
    let u = c as u32;
    if u < 0x80 {
        1
    } else if u < 0x800 {
        2
    } else if u < 0x10000 {
        3
    } else {
        4
    }
}

/// Number of bytes in the UTF-8 encoding of a character sequence (`str::len`).
pub open spec fn utf8_len(s: Seq<char>) -> nat
    decreases s.len(),
{
    if s.len() == 0 {
        0
    } else {
        utf8_len(s.drop_last()) + utf8_width(s.last())
    }
}

proof fn lemma_utf8_len_bound(s: Seq<char>)
    ensures
        utf8_len(s) <= 4 * s.len(),
    decreases s.len(),
{
    if s.len() > 0 {
        lemma_utf8_len_bound(s.drop_last());
    }
}

/// The UTF-8 byte length of a character sequence.
pub fn utf8_length(s: &[char]) -> (n: usize)
    requires
        4 * s@.len() <= usize::MAX,
    ensures
        n == utf8_len(s@),
{
    let len = s.len();
    let mut total: usize = 0;
    for i in 0..len
        invariant
            len == s@.len(),
            4 * len <= usize::MAX,
            total == utf8_len(s@.take(i as int)),
            total <= 4 * i,
    {
        let u = s[i] as u32;
        let w: usize = if u < 0x80 {
            1
        } else if u < 0x800 {
            2
        } else if u < 0x10000 {
            3
        } else {
            4
        };
        assert(s@.take(i + 1).drop_last() =~= s@.take(i as int));
        total = total + w;
    }
    assert(s@.take(len as int) =~= s@);
    total
}

proof fn lemma_utf8_len_prefix(s: Seq<char>, k: int)
    requires
        0 <= k <= s.len(),
    ensures
        utf8_len(s.take(k)) <= utf8_len(s),
    decreases s.len(),
{
    if k < s.len() {
        lemma_utf8_len_prefix(s.drop_last(), k);
        assert(s.drop_last().take(k) =~= s.take(k));
    } else {
        assert(s.take(k) =~= s);
    }
}

/// Whether the UTF-8 encoding of `s` has at least `n` bytes, looking no further than needed.
pub fn utf8_len_at_least(s: &[char], n: usize) -> (r: bool)
    requires
        n <= 4,
    ensures
        r == (utf8_len(s@) >= n),
{
    let len = s.len();
    let mut total: usize = 0;
    let mut i: usize = 0;
    assert(s@.take(0) =~= Seq::<char>::empty());
    while i < len && total < n
        invariant
            i <= len,
            len == s@.len(),
            n <= 4,
            total == utf8_len(s@.take(i as int)),
            total < n + 4,
        decreases len - i,
    {
        let u = s[i] as u32;
        let w: usize = if u < 0x80 {
            1
        } else if u < 0x800 {
            2
        } else if u < 0x10000 {
            3
        } else {
            4
        };
        assert(s@.take(i + 1).drop_last() =~= s@.take(i as int));
        total = total + w;
        i = i + 1;
    }
    proof {
        lemma_utf8_len_prefix(s@, i as int);
        if i == len {
            assert(s@.take(len as int) =~= s@);
        }
    }
    total >= n
}

/// ASCII lower-case mapping of one character (`char::to_ascii_lowercase`).
pub open spec fn ascii_lower(c: char) -> char {
    if 'A' <= c && c <= 'Z' {
        ((c as u32) + 32) as char
    } else {
        c
    }
}

/// ASCII lower-case mapping of a sequence (`str::to_ascii_lowercase`).
pub open spec fn ascii_lower_seq(s: Seq<char>) -> Seq<char> {
    s.map_values(|c: char| ascii_lower(c))
}

pub fn ascii_lower_exec(c: char) -> (r: char)
    ensures
        r == ascii_lower(c),
{
    if 'A' <= c && c <= 'Z' {
        let u = (c as u32) + 32;
        let b = u as u8;
        b as char
    } else {
        c
    }
}

/// The ASCII lower-case form of the characters.
pub fn ascii_lower_chars(s: &[char]) -> (t: Vec<char>)
    ensures
        t@ == ascii_lower_seq(s@),
{
    let mut t: Vec<char> = Vec::new();
    for i in 0..s.len()
        invariant
            t@ == ascii_lower_seq(s@.take(i as int)),
    {
        t.push(ascii_lower_exec(s[i]));
        assert(ascii_lower_seq(s@.take(i + 1)) =~= ascii_lower_seq(s@.take(i as int)).push(
            ascii_lower(s@[i as int]),
        ));
    }
    assert(s@.take(s@.len() as int) =~= s@);
    t
}

/// Whether two character slices are equal.
pub fn chars_equal(a: &[char], b: &[char]) -> (r: bool)
    ensures
        r == (a@ == b@),
{
    if a.len() != b.len() {
        return false;
    }
    let n = a.len();
    for i in 0..n
        invariant
            n == a@.len(),
            n == b@.len(),
            forall|k: int| 0 <= k < i ==> a@[k] == b@[k],
    {
        if a[i] != b[i] {
            return false;
        }
    }
    assert(a@ =~= b@);
    true
}

/// Whether a string equals a string slice.
pub fn str_equal(a: &str, b: &str) -> (r: bool)
    ensures
        r == (a@ == b@),
{
    let x = chars_of(a);
    let y = chars_of(b);
    chars_equal(x.as_slice(), y.as_slice())
}

/// Whether `p` is a prefix of `s`.
pub open spec fn has_prefix(s: Seq<char>, p: Seq<char>) -> bool {
    p.len() <= s.len() && s.take(p.len() as int) == p
}

/// Whether `p` is a prefix of `s`.
pub fn starts_with(s: &str, p: &str) -> (r: bool)
    ensures
        r == has_prefix(s@, p@),
{
    let x = chars_of(s);
    let y = chars_of(p);
    if y.len() > x.len() {
        return false;
    }
    let n = y.len();
    for i in 0..n
        invariant
            x@ == s@,
            y@ == p@,
            n == y@.len(),
            n <= x@.len(),
            forall|k: int| 0 <= k < i ==> x@[k] == y@[k],
    {
        if x[i] != y[i] {
            assert(x@.take(n as int)[i as int] != y@[i as int]);
            assert(!(x@.take(n as int) =~= y@));
            return false;
        }
    }
    assert(x@.take(n as int) =~= y@);
    true
}

/// Whether `p` occurs in `s` at position `i`.
pub open spec fn occurs_at(s: Seq<char>, p: Seq<char>, i: int) -> bool {
    0 <= i && i + p.len() <= s.len() && s.subrange(i, i + p.len()) == p
}

/// Whether `p` occurs anywhere in `s` (`str::contains`).
pub open spec fn contains_seq(s: Seq<char>, p: Seq<char>) -> bool {
    exists|i: int| occurs_at(s, p, i)
}

fn occurs_at_exec(s: &[char], p: &[char], i: usize) -> (r: bool)
    requires
        i + p@.len() <= s@.len(),
    ensures
        r == occurs_at(s@, p@, i as int),
{
    let n = p.len();
    let m = s.len();
    for k in 0..n
        invariant
            n == p@.len(),
            m == s@.len(),
            i + n <= m,
            forall|m: int| 0 <= m < k ==> s@[i + m] == p@[m],
    {
        if s[i + k] != p[k] {
            assert(s@.subrange(i as int, i + n)[k as int] != p@[k as int]);
            return false;
        }
    }
    assert(s@.subrange(i as int, i + n) =~= p@);
    true
}

/// Whether `p` occurs in `s`.
pub fn contains_chars(s: &[char], p: &[char]) -> (r: bool)
    ensures
        r == contains_seq(s@, p@),
{
    if p.len() > s.len() {
        return false;
    }
    if p.len() == 0 {
        assert(s@.subrange(0, 0) =~= p@);
        assert(occurs_at(s@, p@, 0));
        return true;
    }
    let last = s.len() - p.len();
    for i in 0..last + 1
        invariant
            last + p@.len() == s@.len(),
            forall|k: int| 0 <= k < i ==> !occurs_at(s@, p@, k),
    {
        if occurs_at_exec(s, p, i) {
            return true;
        }
    }
    assert forall|k: int| !occurs_at(s@, p@, k) by {
        if 0 <= k && k + p@.len() <= s@.len() {
            assert(k <= last);
        }
    }
    false
}

/// Whether `p` occurs in `s`.
pub fn contains_str(s: &str, p: &str) -> (r: bool)
    ensures
        r == contains_seq(s@, p@),
{
    let x = chars_of(s);
    let y = chars_of(p);
    contains_chars(x.as_slice(), y.as_slice())
}

/// Joins character sequences with a separator between neighbours.
pub open spec fn join(parts: Seq<Seq<char>>, sep: Seq<char>) -> Seq<char>
    decreases parts.len(),
{
    if parts.len() == 0 {
        Seq::empty()
    } else if parts.len() == 1 {
        parts[0]
    } else {
        join(parts.drop_last(), sep) + sep + parts.last()
    }
}

/// The views of a vector of strings.
pub open spec fn views(v: Seq<String>) -> Seq<Seq<char>> {
    v.map_values(|s: String| s@)
}

/// `[String]::join`.
pub fn join_strings(parts: &[String], sep: &str) -> (r: String)
    ensures
        r@ == join(views(parts@), sep@),
{
    let mut r = String::new();
    let n = parts.len();
    for i in 0..n
        invariant
            n == parts@.len(),
            r@ == join(views(parts@.take(i as int)), sep@),
    {
        let ghost before = r@;
        if i > 0 {
            push_str(&mut r, sep);
        }
        push_str(&mut r, parts[i].as_str());
        proof {
            let p = views(parts@.take(i + 1));
            assert(p.drop_last() =~= views(parts@.take(i as int)));
            assert(p.last() == parts@[i as int]@);
            if i == 0 {
                assert(p =~= seq![parts@[0]@]);
            }
            assert(r@ =~= join(p, sep@));
        }
    }
    assert(parts@.take(n as int) =~= parts@);
    r
}

/// `digits` lower-case hexadecimal digits of `n`, most significant first (`{:0N x}`).
pub open spec fn hex_fixed(n: nat, digits: nat) -> Seq<char>
    decreases digits,
{
    if digits == 0 {
        Seq::empty()
    } else {
        hex_fixed(n / 16, (digits - 1) as nat).push(crate::digest::hex_digit(n % 16))
    }
}

fn hex_digit_char(v: u64) -> (c: char)
    requires
        v < 16,
    ensures
        c == crate::digest::hex_digit(v as nat),
{
    if v < 10 {
        (48u8 + v as u8) as char
    } else {
        (87u8 + v as u8) as char
    }
}

/// Appends `digits` lower-case hexadecimal digits of `n`.
pub fn push_hex_fixed(s: &mut String, n: u64, digits: u64)
    ensures
        final(s)@ == old(s)@ + hex_fixed(n as nat, digits as nat),
    decreases digits,
{
    if digits > 0 {
        push_hex_fixed(s, n / 16, digits - 1);
        push_char(s, hex_digit_char(n % 16));
        assert(s@ =~= old(s)@ + hex_fixed(n as nat, digits as nat));
    } else {
        assert(s@ =~= old(s)@ + hex_fixed(n as nat, digits as nat));
    }
}

/// The characters inside single quotes that reproduce `s` in a POSIX shell:
/// every `'` becomes `'\''`.
pub open spec fn shell_escape(s: Seq<char>) -> Seq<char>
    decreases s.len(),
{
    if s.len() == 0 {
        Seq::empty()
    } else if s.last() == '\'' {
        shell_escape(s.drop_last()) + seq!['\'', '\\', '\'', '\'']
    } else {
        shell_escape(s.drop_last()).push(s.last())
    }
}

/// `s` in single quotes, safe for a POSIX shell.
pub open spec fn single_quoted(s: Seq<char>) -> Seq<char> {
    seq!['\''] + shell_escape(s) + seq!['\'']
}

/// Appends `s` in single quotes, safe for a POSIX shell.
pub fn push_single_quoted(out: &mut String, s: &str)
    ensures
        final(out)@ == old(out)@ + single_quoted(s@),
{
    let c = chars_of(s);
    push_char(out, '\'');
    let ghost start = out@;
    let n = c.len();
    for i in 0..n
        invariant
            n == c@.len(),
            c@ == s@,
            out@ == start + shell_escape(c@.take(i as int)),
    {
        assert(c@.take(i + 1).drop_last() =~= c@.take(i as int));
        if c[i] == '\'' {
            push_char(out, '\'');
            push_char(out, '\\');
            push_char(out, '\'');
            push_char(out, '\'');
        } else {
            push_char(out, c[i]);
        }
        assert(out@ =~= start + shell_escape(c@.take(i + 1)));
    }
    assert(c@.take(n as int) =~= c@);
    push_char(out, '\'');
    assert(out@ =~= old(out)@ + single_quoted(s@));
}

} // verus!
