//! Character-level text helpers: the Unicode whitespace set that `str::trim`
//! removes, line splitting, UTF-8 widths, and decimal rendering of numbers.

use vstd::prelude::*;

verus! {

/// The characters of `s`, in order.
pub fn chars_of(s: &str) -> (v: Vec<char>)
    ensures
        v@ == s@,
{
    let mut v: Vec<char> = Vec::new();
    for c in it: s.chars()
        invariant
            v@ == it.seq().take(it.index() as int),
    {
        v.push(c);
    }
    v
}


/// The Unicode `White_Space` characters, the set that `char::is_whitespace`
/// accepts and `str::trim` removes.
pub open spec fn is_white_space(c: char) -> bool {
    ||| ('\u{9}' <= c && c <= '\u{d}')
    ||| c == ' '
    ||| c == '\u{85}'
    ||| c == '\u{a0}'
    ||| c == '\u{1680}'
    ||| ('\u{2000}' <= c && c <= '\u{200a}')
    ||| c == '\u{2028}'
    ||| c == '\u{2029}'
    ||| c == '\u{202f}'
    ||| c == '\u{205f}'
    ||| c == '\u{3000}'
}

/// Among ASCII characters, the white space is the space, tab, line feed,
/// vertical tab, form feed and carriage return; the base-16 digits, `#` and
/// `/` are never white space.
pub proof fn law_ascii_white_space(c: char)
    ensures
        (c as u32) < 0x80 ==> (is_white_space(c) <==> (c == ' ' || c == '\t' || c == '\n' || c
            == '\u{b}' || c == '\u{c}' || c == '\r')),
        ('0' <= c <= '9' || 'a' <= c <= 'z' || 'A' <= c <= 'Z' || c == '#' || c == '/')
            ==> !is_white_space(c),
{
}

/// Whether `c` is white space (see [`is_white_space`]).
pub fn white_space(c: char) -> (b: bool)
    ensures
        b == is_white_space(c),
{
    ('\u{9}' <= c && c <= '\u{d}') || c == ' ' || c == '\u{85}' || c == '\u{a0}' || c
        == '\u{1680}' || ('\u{2000}' <= c && c <= '\u{200a}') || c == '\u{2028}' || c
        == '\u{2029}' || c == '\u{202f}' || c == '\u{205f}' || c == '\u{3000}'
}

/// The index of the first character at or after `i` that is not white space
/// (`s.len()` when there is none).
pub open spec fn skip_white(s: Seq<char>, i: int) -> int
    decreases s.len() - i,
{
    if i < 0 || i >= s.len() || !is_white_space(s[i]) {
        i
    } else {
        skip_white(s, i + 1)
    }
}

/// The end of `s` once trailing white space before `j` is dropped: the least
/// `e <= j` such that `s[e..j]` is all white space.
pub open spec fn trim_white_end(s: Seq<char>, j: int) -> int
    decreases j,
{
    if j <= 0 || j > s.len() || !is_white_space(s[j - 1]) {
        j
    } else {
        trim_white_end(s, j - 1)
    }
}

/// Skipping leading white space never goes backwards, nor past the end.
pub proof fn lemma_skip_white_bound(s: Seq<char>, i: int)
    requires
        0 <= i <= s.len(),
    ensures
        i <= skip_white(s, i) <= s.len(),
    decreases s.len() - i,
{
    if i < s.len() && is_white_space(s[i]) {
        lemma_skip_white_bound(s, i + 1);
    }
}

/// Dropping trailing white space never goes past the starting point.
pub proof fn lemma_trim_white_end_bound(s: Seq<char>, j: int)
    ensures
        trim_white_end(s, j) <= j,
        j >= 0 ==> trim_white_end(s, j) >= 0,
    decreases j,
{
    if j > 0 && j <= s.len() && is_white_space(s[j - 1]) {
        lemma_trim_white_end_bound(s, j - 1);
    }
}

/// `s` without leading and trailing white space, as `str::trim` gives it.
pub open spec fn trim(s: Seq<char>) -> Seq<char> {
    let a = skip_white(s, 0);
    let e = trim_white_end(s, s.len() as int);
    if a < e {
        s.subrange(a, e)
    } else {
        Seq::empty()
    }
}

/// Skipping leading white space stops at a character that is not white space.
proof fn lemma_skip_white_stops(s: Seq<char>, i: int)
    requires
        0 <= i,
        skip_white(s, i) < s.len(),
    ensures
        !is_white_space(s[skip_white(s, i)]),
    decreases s.len() - i,
{
    if i < s.len() && is_white_space(s[i]) {
        lemma_skip_white_stops(s, i + 1);
    }
}

/// Dropping trailing white space stops after a character that is not white space.
proof fn lemma_trim_white_end_stops(s: Seq<char>, j: int)
    requires
        j <= s.len(),
        trim_white_end(s, j) > 0,
    ensures
        !is_white_space(s[trim_white_end(s, j) - 1]),
    decreases j,
{
    if j > 0 && is_white_space(s[j - 1]) {
        lemma_trim_white_end_stops(s, j - 1);
    }
}

/// Trimming a trimmed text changes nothing.
pub proof fn law_trim_idempotent(s: Seq<char>)
    ensures
        trim(trim(s)) == trim(s),
{
    let t = trim(s);
    let a = skip_white(s, 0);
    let e = trim_white_end(s, s.len() as int);
    lemma_skip_white_bound(s, 0);
    lemma_trim_white_end_bound(s, s.len() as int);
    if a < e {
        lemma_skip_white_stops(s, 0);
        lemma_trim_white_end_stops(s, s.len() as int);
        assert(t[0] == s[a]);
        assert(t[t.len() - 1] == s[e - 1]);
        assert(skip_white(t, 0) == 0);
        assert(trim_white_end(t, t.len() as int) == t.len());
        assert(t.subrange(0, t.len() as int) =~= t);
    } else {
        assert(trim(t) =~= t);
    }
}

/// The index of the first `'\n'` at or after `i` (`s.len()` when there is none):
/// where the line that starts at `i` ends.
pub open spec fn line_end(s: Seq<char>, i: int) -> int
    decreases s.len() - i,
{
    if i < 0 || i >= s.len() || s[i] == '\n' {
        i
    } else {
        line_end(s, i + 1)
    }
}

/// The number of bytes the UTF-8 encoding of `c` takes.
pub open spec fn utf8_width(c: char) -> nat {
    if (c as u32) < 0x80 {
        1
    } else if (c as u32) < 0x800 {
        2
    } else if (c as u32) < 0x10000 {
        3
    } else {
        4
    }
}

/// The number of bytes the UTF-8 encoding of `s` takes, which `str::len` returns.
pub open spec fn utf8_len(s: Seq<char>) -> nat
    decreases s.len(),
{
    if s.len() == 0 {
        0
    } else {
        utf8_len(s.drop_last()) + utf8_width(s.last())
    }
}

/// Byte lengths only grow as characters are added.
pub proof fn lemma_utf8_len_prefix(s: Seq<char>, k: int)
    requires
        0 <= k <= s.len(),
    ensures
        utf8_len(s.take(k)) <= utf8_len(s),
    decreases s.len() - k,
{
    if k < s.len() {
        lemma_utf8_len_prefix(s, k + 1);
        assert(s.take(k + 1).drop_last() =~= s.take(k));
    } else {
        assert(s.take(k) =~= s);
    }
}

/// How many characters from index `from` on make up exactly `n` bytes of UTF-8;
/// `None` when byte `n` after `from` falls inside a character or past the end.
pub open spec fn chars_spanning(s: Seq<char>, from: int, n: int) -> Option<int>
    decreases n,
{
    if n <= 0 {
        if n == 0 {
            Some(0int)
        } else {
            None
        }
    } else if from < 0 || from >= s.len() || utf8_width(s[from]) > n {
        None
    } else {
        match chars_spanning(s, from + 1, n - utf8_width(s[from])) {
            Some(k) => Some(k + 1),
            None => None,
        }
    }
}

/// The characters counted by [`chars_spanning`] lie inside `s`.
pub proof fn lemma_chars_spanning_bound(s: Seq<char>, from: int, n: int)
    requires
        0 <= from <= s.len(),
        chars_spanning(s, from, n) is Some,
    ensures
        0 <= chars_spanning(s, from, n)->Some_0,
        from + chars_spanning(s, from, n)->Some_0 <= s.len(),
    decreases n,
{
    if n > 0 {
        lemma_chars_spanning_bound(s, from + 1, n - utf8_width(s[from]));
    }
}

/// A text is at least as many bytes long as it has characters.
pub proof fn lemma_utf8_len_at_least_len(s: Seq<char>)
    ensures
        utf8_len(s) >= s.len(),
    decreases s.len(),
{
    if s.len() > 0 {
        lemma_utf8_len_at_least_len(s.drop_last());
    }
}

/// The number of characters from `from` on that make up `n` bytes of
/// `chars[a..e]` (see [`chars_spanning`]).
pub fn span_chars(chars: &Vec<char>, a: usize, e: usize, from: usize, n: usize) -> (r: Option<usize>)
    requires
        a <= from <= e <= chars.len(),
    ensures
        r matches Some(k) ==> chars_spanning(chars@.subrange(a as int, e as int), from - a, n as int)
            == Some(k as int),
        r is None ==> chars_spanning(chars@.subrange(a as int, e as int), from - a, n as int) is None,
    decreases n,
{
    let ghost t = chars@.subrange(a as int, e as int);
    if n == 0 {
        Some(0)
    } else if from >= e {
        None
    } else {
        let w = char_utf8_width(chars[from]);
        assert(t[from - a] == chars@[from as int]);
        if w > n {
            None
        } else {
            match span_chars(chars, a, e, from + 1, n - w) {
                Some(k) => {
                    proof {
                        lemma_chars_spanning_bound(t, from + 1 - a, n - w);
                    }
                    Some(k + 1)
                },
                None => None,
            }
        }
    }
}

/// The UTF-8 width of `c` (see [`utf8_width`]).
pub fn char_utf8_width(c: char) -> (w: usize)
    ensures
        w == utf8_width(c),
        1 <= w <= 4,
{
    let v = c as u32;
    if v < 0x80 {
        1
    } else if v < 0x800 {
        2
    } else if v < 0x10000 {
        3
    } else {
        4
    }
}

/// The decimal digit `d` (for `d < 10`).
pub open spec fn digit_char(d: nat) -> char {
    if d == 0 {
        '0'
    } else if d == 1 {
        '1'
    } else if d == 2 {
        '2'
    } else if d == 3 {
        '3'
    } else if d == 4 {
        '4'
    } else if d == 5 {
        '5'
    } else if d == 6 {
        '6'
    } else if d == 7 {
        '7'
    } else if d == 8 {
        '8'
    } else {
        '9'
    }
}

/// The decimal rendering of `n`, without leading zeros, as `format!("{}", n)` gives it.
pub open spec fn decimal(n: nat) -> Seq<char>
    decreases n,
{
    if n < 10 {
        seq![digit_char(n)]
    } else {
        decimal(n / 10).push(digit_char(n % 10))
    }
}

/// The number that the decimal digits `s` spell, read from the left.
pub open spec fn decimal_value(s: Seq<char>) -> int
    decreases s.len(),
{
    if s.len() == 0 {
        0
    } else {
        10 * decimal_value(s.drop_last()) + (s.last() as u32 - '0' as u32)
    }
}

/// The digit character for `d` is the character `d` places after `'0'`.
proof fn lemma_digit_char(d: nat)
    requires
        d < 10,
    ensures
        '0' <= digit_char(d) <= '9',
        digit_char(d) as u32 - '0' as u32 == d,
{
}

/// The decimal rendering of `n` is made of the digits `0` to `9`, starts with
/// `0` only when it is the single digit of zero, and spells `n` back.
pub proof fn law_decimal_reads_back(n: nat)
    ensures
        decimal(n).len() >= 1,
        forall|i: int| 0 <= i < decimal(n).len() ==> '0' <= #[trigger] decimal(n)[i] <= '9',
        decimal(n)[0] == '0' ==> n == 0,
        decimal_value(decimal(n)) == n,
    decreases n,
{
    if n < 10 {
        lemma_digit_char(n);
        let s = decimal(n);
        assert(s.drop_last() =~= Seq::<char>::empty());
        assert(s.last() == digit_char(n));
        assert(decimal_value(s) == 10 * decimal_value(s.drop_last()) + (s.last() as u32 - '0' as u32));
    } else {
        law_decimal_reads_back(n / 10);
        lemma_digit_char(n % 10);
        let s = decimal(n);
        assert(s.drop_last() =~= decimal(n / 10));
        assert(s[0] == decimal(n / 10)[0]);
        assert(s.last() == digit_char(n % 10));
        assert(decimal_value(s) == 10 * (n / 10) + n % 10);
    }
}

fn digit_str(d: usize) -> (s: &'static str)
    requires
        d < 10,
    ensures
        s@ == seq![digit_char(d as nat)],
{
    proof {
        reveal_strlit("0");
        reveal_strlit("1");
        reveal_strlit("2");
        reveal_strlit("3");
        reveal_strlit("4");
        reveal_strlit("5");
        reveal_strlit("6");
        reveal_strlit("7");
        reveal_strlit("8");
        reveal_strlit("9");
    }
    if d == 0 {
        "0"
    } else if d == 1 {
        "1"
    } else if d == 2 {
        "2"
    } else if d == 3 {
        "3"
    } else if d == 4 {
        "4"
    } else if d == 5 {
        "5"
    } else if d == 6 {
        "6"
    } else if d == 7 {
        "7"
    } else if d == 8 {
        "8"
    } else {
        "9"
    }
}

/// Appends the decimal rendering of `n` to `out`.
pub fn push_decimal(out: &mut String, n: usize)
    ensures
        final(out)@ == old(out)@ + decimal(n as nat),
    decreases n,
{
    if n >= 10 {
        push_decimal(out, n / 10);
    }
    out.append(digit_str(n % 10));
    proof {
        if n >= 10 {
            assert(final(out)@ =~= old(out)@ + decimal(n as nat));
        } else {
            assert(final(out)@ =~= old(out)@ + decimal(n as nat));
        }
    }
}

} // verus!
