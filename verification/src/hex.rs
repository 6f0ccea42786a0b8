//! Hex color notation: `RRGGBB` and the short form `RGB`.
//!
//! The notation is read the way the palette files were always read: the text
//! is trimmed, its UTF-8 byte length picks the form (3 bytes: short form, each
//! digit doubled; 6 bytes: long form; anything else: an error), and the three
//! two-byte components are read as base-16 numbers the way `u8::from_str_radix`
//! reads them, an optional `+` sign included. Splitting the long form at byte
//! offsets 2 and 4 fails when one of those offsets falls inside a multi-byte
//! character; such text is outside what these functions accept.

use vstd::prelude::*;
use crate::color::{Rgb, level_to_channel};
use crate::error::{PaletteError, PaletteErrorView};
use crate::text::{chars_spanning, utf8_len, utf8_width, trim, skip_white, trim_white_end,
    is_white_space, white_space, lemma_trim_white_end_bound, lemma_skip_white_bound, char_utf8_width, chars_of, lemma_utf8_len_prefix,
    lemma_chars_spanning_bound, lemma_utf8_len_at_least_len, span_chars};

verus! {

/// A base-16 digit.
pub open spec fn is_hex_digit(c: char) -> bool {
    ('0' <= c && c <= '9') || ('a' <= c && c <= 'f') || ('A' <= c && c <= 'F')
}

/// The value of a base-16 digit.
pub open spec fn hex_digit_value(c: char) -> nat {
    if '0' <= c && c <= '9' {
        (c as u32 - '0' as u32) as nat
    } else if 'a' <= c && c <= 'f' {
        (c as u32 - 'a' as u32 + 10) as nat
    } else {
        (c as u32 - 'A' as u32 + 10) as nat
    }
}

/// What `u8::from_str_radix(segment, 16)` gives for a segment of two UTF-8
/// bytes: two digits, or a `+` sign and one digit; `None` for anything else.
pub open spec fn hex_pair(seg: Seq<char>) -> Option<u8> {
    if seg.len() == 2 && is_hex_digit(seg[1]) {
        if is_hex_digit(seg[0]) {
            Some((16 * hex_digit_value(seg[0]) + hex_digit_value(seg[1])) as u8)
        } else if seg[0] == '+' {
            Some(hex_digit_value(seg[1]) as u8)
        } else {
            None
        }
    } else {
        None
    }
}

/// The outcome of reading a hex color.
pub enum HexColorParse {
    Parsed(Rgb),
    Failed(PaletteErrorView),
    /// The text splits inside a multi-byte character; no result exists.
    Panics,
}

/// The error for a component that is not a base-16 number.
pub open spec fn component_error(label: Seq<char>, seg: Seq<char>) -> PaletteErrorView {
    PaletteErrorView::InvalidHexColor("Invalid "@ + label + " component: "@ + seg)
}

/// The color of a long-form text `h` (six UTF-8 bytes), components read at
/// byte offsets 0, 2 and 4.
pub open spec fn six_digit_outcome(h: Seq<char>) -> HexColorParse {
    match chars_spanning(h, 0, 2) {
        None => HexColorParse::Panics,
        Some(k1) => {
            let red = h.take(k1);
            match hex_pair(red) {
                None => HexColorParse::Failed(component_error("red"@, red)),
                Some(r) => match chars_spanning(h, k1, 2) {
                    None => HexColorParse::Panics,
                    Some(k2) => {
                        let green = h.subrange(k1, k1 + k2);
                        match hex_pair(green) {
                            None => HexColorParse::Failed(component_error("green"@, green)),
                            Some(g) => match chars_spanning(h, k1 + k2, 2) {
                                None => HexColorParse::Panics,
                                Some(k3) => {
                                    let blue = h.subrange(k1 + k2, k1 + k2 + k3);
                                    match hex_pair(blue) {
                                        None => HexColorParse::Failed(
                                            component_error("blue"@, blue),
                                        ),
                                        Some(b) => HexColorParse::Parsed(
                                            Rgb {
                                                r: level_to_channel(r),
                                                g: level_to_channel(g),
                                                b: level_to_channel(b),
                                            },
                                        ),
                                    }
                                },
                            },
                        }
                    },
                },
            }
        },
    }
}

/// The long form of a three-digit short form: each digit doubled.
pub open spec fn expand_short(t: Seq<char>) -> Seq<char> {
    seq![t[0], t[0], t[1], t[1], t[2], t[2]]
}

/// The error for text that is neither 3 nor 6 bytes long.
pub open spec fn length_error(t: Seq<char>) -> PaletteErrorView {
    PaletteErrorView::InvalidHexColor(
        "Invalid hex color length: "@ + t + " (expected 3 or 6 characters)"@,
    )
}

/// The outcome of reading the hex color `s`.
pub open spec fn hex_color_outcome(s: Seq<char>) -> HexColorParse {
    let t = trim(s);
    if utf8_len(t) == 3 {
        if t.len() < 3 {
            HexColorParse::Panics
        } else {
            six_digit_outcome(expand_short(t))
        }
    } else if utf8_len(t) == 6 {
        six_digit_outcome(t)
    } else {
        HexColorParse::Failed(length_error(t))
    }
}

/// Whether reading the hex color `s` yields a result (a color or an error).
pub open spec fn hex_color_defined(s: Seq<char>) -> bool {
    !(hex_color_outcome(s) is Panics)
}

/// The short form `RGB` reads as the long form `RRGGBB`: the same color, or
/// the same error, for every three-character text without surrounding white space.
pub proof fn law_short_form_is_doubled(t: Seq<char>)
    requires
        t.len() == 3,
        utf8_len(t) == 3,
        trim(t) == t,
    ensures
        hex_color_outcome(t) == hex_color_outcome(expand_short(t)),
{
    let x = expand_short(t);
    lemma_expand_trimmed(t);
    lemma_short_form(t);
    reveal_with_fuel(utf8_len, 7);
    assert(x.drop_last().drop_last().drop_last().drop_last().drop_last().drop_last() =~= Seq::<
        char,
    >::empty());
    assert(utf8_len(x) == 6);
}

/// The doubled form of a three-character text without surrounding white
/// space has none either.
pub proof fn lemma_expand_trimmed(t: Seq<char>)
    requires
        t.len() == 3,
        trim(t) == t,
    ensures
        trim(expand_short(t)) == expand_short(t),
{
    let x = expand_short(t);
    lemma_trim_white_end_bound(t, 3);
    if is_white_space(t[0]) {
        lemma_skip_white_bound(t, 1);
        assert(skip_white(t, 0) == skip_white(t, 1));
        assert(trim(t).len() < 3);
    }
    if is_white_space(t[2]) {
        lemma_trim_white_end_bound(t, 2);
        assert(trim_white_end(t, 3) == trim_white_end(t, 2));
        assert(trim(t).len() < 3);
    }
    assert(skip_white(x, 0) == 0);
    assert(trim_white_end(x, 6) == 6);
    assert(trim(x) =~= x);
}

/// The base-16 digit for value `v` (below 16), in lower or upper case.
pub open spec fn digit_for(v: int, upper: bool) -> char {
    if upper {
        "0123456789ABCDEF"@[v]
    } else {
        "0123456789abcdef"@[v]
    }
}

/// The digit for `v` is a one-byte, non-space base-16 digit of value `v`.
proof fn lemma_digit_for(v: int, upper: bool)
    requires
        0 <= v < 16,
    ensures
        is_hex_digit(digit_for(v, upper)),
        hex_digit_value(digit_for(v, upper)) == v,
        !is_white_space(digit_for(v, upper)),
        utf8_width(digit_for(v, upper)) == 1,
        digit_for(v, upper) != '#',
        digit_for(v, upper) != '/',
{
    reveal_strlit("0123456789ABCDEF");
    reveal_strlit("0123456789abcdef");
    if v == 0 {
    } else if v == 1 {
    } else if v == 2 {
    } else if v == 3 {
    } else if v == 4 {
    } else if v == 5 {
    } else if v == 6 {
    } else if v == 7 {
    } else if v == 8 {
    } else if v == 9 {
    } else if v == 10 {
    } else if v == 11 {
    } else if v == 12 {
    } else if v == 13 {
    } else if v == 14 {
    } else {
        assert(v == 15);
    }
}

/// A two-digit component reads as its base-16 value.
proof fn lemma_pair_of_digits(v0: int, u0: bool, v1: int, u1: bool)
    requires
        0 <= v0 < 16,
        0 <= v1 < 16,
    ensures
        hex_pair(seq![digit_for(v0, u0), digit_for(v1, u1)]) == Some((16 * v0 + v1) as u8),
{
    lemma_digit_for(v0, u0);
    lemma_digit_for(v1, u1);
    let seg = seq![digit_for(v0, u0), digit_for(v1, u1)];
    assert(seg[0] == digit_for(v0, u0) && seg[1] == digit_for(v1, u1));
}

/// The text whose characters are the digits for `vs`, in the cases `us`.
pub open spec fn digits_text(vs: Seq<int>, us: Seq<bool>) -> Seq<char> {
    Seq::new(vs.len(), |i: int| digit_for(vs[i], us[i]))
}

/// A text of one-byte characters that are not white space is its own trimmed
/// form, and its byte length is its length.
proof fn lemma_plain_text(t: Seq<char>)
    requires
        t.len() == 3 || t.len() == 6,
        forall|i: int| 0 <= i < t.len() ==> !is_white_space(#[trigger] t[i]) && utf8_width(t[i])
            == 1,
    ensures
        trim(t) == t,
        utf8_len(t) == t.len(),
{
    assert(t[0] == t[0]);
    assert(skip_white(t, 0) == 0);
    assert(t[t.len() - 1] == t[t.len() - 1]);
    assert(trim_white_end(t, t.len() as int) == t.len());
    assert(trim(t) =~= t);
    let t1 = t.drop_last();
    let t2 = t1.drop_last();
    let t3 = t2.drop_last();
    assert(t.last() == t[t.len() - 1]);
    assert(t1.last() == t[t.len() - 2]);
    assert(t2.last() == t[t.len() - 3]);
    assert(utf8_len(t) == utf8_len(t1) + 1);
    assert(utf8_len(t1) == utf8_len(t2) + 1);
    assert(utf8_len(t2) == utf8_len(t3) + 1);
    if t.len() == 3 {
        assert(t3 =~= Seq::<char>::empty());
    } else {
        let t4 = t3.drop_last();
        let t5 = t4.drop_last();
        let t6 = t5.drop_last();
        assert(t3.last() == t[2]);
        assert(t4.last() == t[1]);
        assert(t5.last() == t[0]);
        assert(t6 =~= Seq::<char>::empty());
        assert(utf8_len(t5) == utf8_len(t6) + 1);
        assert(utf8_len(t4) == utf8_len(t5) + 1);
        assert(utf8_len(t3) == utf8_len(t4) + 1);
    }
}

/// In a text of six one-byte characters the components span two characters each.
proof fn lemma_spans(t: Seq<char>)
    requires
        t.len() == 6,
        forall|i: int| 0 <= i < 6 ==> utf8_width(#[trigger] t[i]) == 1,
    ensures
        chars_spanning(t, 0, 2) == Some(2int),
        chars_spanning(t, 2, 2) == Some(2int),
        chars_spanning(t, 4, 2) == Some(2int),
{
    reveal_with_fuel(chars_spanning, 3);
    assert(utf8_width(t[0]) == 1 && utf8_width(t[1]) == 1 && utf8_width(t[2]) == 1);
    assert(utf8_width(t[3]) == 1 && utf8_width(t[4]) == 1 && utf8_width(t[5]) == 1);
}

/// The long form of six base-16 digits reads as the three two-digit values.
#[verifier::rlimit(40)]
proof fn lemma_six_digit_outcome(vs: Seq<int>, us: Seq<bool>)
    requires
        vs.len() == 6,
        us.len() == 6,
        forall|i: int| 0 <= i < 6 ==> 0 <= #[trigger] vs[i] < 16,
    ensures
        six_digit_outcome(digits_text(vs, us)) == HexColorParse::Parsed(
            Rgb {
                r: (4 * (16 * vs[0] + vs[1])) as u16,
                g: (4 * (16 * vs[2] + vs[3])) as u16,
                b: (4 * (16 * vs[4] + vs[5])) as u16,
            },
        ),
{
    let t = digits_text(vs, us);
    assert forall|i: int| 0 <= i < 6 implies utf8_width(#[trigger] t[i]) == 1 by {
        lemma_digit_for(vs[i], us[i]);
    }
    lemma_spans(t);
    lemma_pair_of_digits(vs[0], us[0], vs[1], us[1]);
    lemma_pair_of_digits(vs[2], us[2], vs[3], us[3]);
    lemma_pair_of_digits(vs[4], us[4], vs[5], us[5]);
    assert(t.take(2) =~= seq![digit_for(vs[0], us[0]), digit_for(vs[1], us[1])]);
    assert(t.subrange(2, 4) =~= seq![digit_for(vs[2], us[2]), digit_for(vs[3], us[3])]);
    assert(t.subrange(4, 6) =~= seq![digit_for(vs[4], us[4]), digit_for(vs[5], us[5])]);
}

/// Every text of six base-16 digits, in any mix of cases, reads as the color
/// whose channels are the three two-digit base-16 numbers over 255 (in
/// channel steps: four times the number).
pub proof fn law_six_digits(vs: Seq<int>, us: Seq<bool>)
    requires
        vs.len() == 6,
        us.len() == 6,
        forall|i: int| 0 <= i < 6 ==> 0 <= #[trigger] vs[i] < 16,
    ensures
        hex_color_outcome(digits_text(vs, us)) == HexColorParse::Parsed(
            Rgb {
                r: (4 * (16 * vs[0] + vs[1])) as u16,
                g: (4 * (16 * vs[2] + vs[3])) as u16,
                b: (4 * (16 * vs[4] + vs[5])) as u16,
            },
        ),
{
    let t = digits_text(vs, us);
    assert forall|i: int| 0 <= i < 6 implies !is_white_space(#[trigger] t[i]) && utf8_width(t[i])
        == 1 by {
        lemma_digit_for(vs[i], us[i]);
    }
    lemma_plain_text(t);
    lemma_six_digit_outcome(vs, us);
}

/// Every text of three base-16 digits, in any mix of cases, reads as the color
/// whose channels are the digits doubled (`d` is `dd`, that is `17 * d`) over 255.
pub proof fn law_three_digits(vs: Seq<int>, us: Seq<bool>)
    requires
        vs.len() == 3,
        us.len() == 3,
        forall|i: int| 0 <= i < 3 ==> 0 <= #[trigger] vs[i] < 16,
    ensures
        hex_color_outcome(digits_text(vs, us)) == HexColorParse::Parsed(
            Rgb {
                r: (4 * 17 * vs[0]) as u16,
                g: (4 * 17 * vs[1]) as u16,
                b: (4 * 17 * vs[2]) as u16,
            },
        ),
{
    let t = digits_text(vs, us);
    assert forall|i: int| 0 <= i < 3 implies !is_white_space(#[trigger] t[i]) && utf8_width(t[i])
        == 1 by {
        lemma_digit_for(vs[i], us[i]);
    }
    lemma_plain_text(t);
    let ws = seq![vs[0], vs[0], vs[1], vs[1], vs[2], vs[2]];
    let xs = seq![us[0], us[0], us[1], us[1], us[2], us[2]];
    assert(expand_short(t) =~= digits_text(ws, xs));
    assert forall|i: int| 0 <= i < 6 implies 0 <= #[trigger] ws[i] < 16 by {}
    lemma_six_digit_outcome(ws, xs);
    assert(t.len() == 3);
    assert(hex_color_outcome(t) == six_digit_outcome(expand_short(t)));
    assert(ws[0] == vs[0] && ws[1] == vs[0] && ws[2] == vs[1] && ws[3] == vs[1] && ws[4] == vs[2]
        && ws[5] == vs[2]);
    let (a, b, c) = (vs[0], vs[1], vs[2]);
    assert(4 * (16 * a + a) == 4 * 17 * a) by (nonlinear_arith);
    assert(4 * (16 * b + b) == 4 * 17 * b) by (nonlinear_arith);
    assert(4 * (16 * c + c) == 4 * 17 * c) by (nonlinear_arith);
    assert(six_digit_outcome(expand_short(t)) == six_digit_outcome(digits_text(ws, xs)));
}

fn hex_digit(c: char) -> (v: Option<u8>)
    ensures
        is_hex_digit(c) <==> v is Some,
        v matches Some(d) ==> d == hex_digit_value(c) && d < 16,
{
    if '0' <= c && c <= '9' {
        Some(((c as u32) - ('0' as u32)) as u8)
    } else if 'a' <= c && c <= 'f' {
        Some(((c as u32) - ('a' as u32) + 10) as u8)
    } else if 'A' <= c && c <= 'F' {
        Some(((c as u32) - ('A' as u32) + 10) as u8)
    } else {
        None
    }
}

/// The value of the two-character segment `c0 c1` (see [`hex_pair`]).
fn pair_value(c0: char, c1: char) -> (v: Option<u8>)
    ensures
        v == hex_pair(seq![c0, c1]),
{
    let ghost seg = seq![c0, c1];
    assert(seg[0] == c0 && seg[1] == c1);
    match hex_digit(c1) {
        None => None,
        Some(low) => match hex_digit(c0) {
            Some(high) => Some(16 * high + low),
            None => if c0 == '+' {
                Some(low)
            } else {
                None
            },
        },
    }
}

/// Trims the character range `chars[start..end]`: returns `(a, e)` with
/// `chars[a..e]` the range without its leading and trailing white space.
pub fn trim_range(chars: &Vec<char>, start: usize, end: usize) -> (r: (usize, usize))
    requires
        start <= end <= chars.len(),
    ensures
        start <= r.0 <= r.1 <= end,
        chars@.subrange(r.0 as int, r.1 as int) =~= trim(chars@.subrange(start as int, end as int)),
{
    let ghost h = chars@.subrange(start as int, end as int);
    let mut a = start;
    while a < end && white_space(chars[a])
        invariant
            start <= a <= end <= chars.len(),
            h == chars@.subrange(start as int, end as int),
            skip_white(h, (a - start) as int) == skip_white(h, 0),
        decreases end - a,
    {
        a = a + 1;
    }
    assert(skip_white(h, 0) == a - start);
    let mut e = end;
    while e > a && white_space(chars[e - 1])
        invariant
            start <= a <= e <= end <= chars.len(),
            h == chars@.subrange(start as int, end as int),
            trim_white_end(h, (e - start) as int) == trim_white_end(h, h.len() as int),
            a < end ==> !is_white_space(chars@[a as int]),
            a < end ==> a < e,
        decreases e,
    {
        e = e - 1;
    }
    proof {
        lemma_trim_white_end_bound(h, h.len() as int);
        if a < end {
            assert(trim_white_end(h, (e - start) as int) == e - start);
            assert(chars@.subrange(a as int, e as int) =~= h.subrange(a - start, e - start));
        } else {
            assert(skip_white(h, 0) == h.len());
        }
    }
    (a, e)
}

/// The UTF-8 byte length of `chars[a..e]` when it is at most 6; some larger
/// number otherwise.
fn short_utf8_len(chars: &Vec<char>, a: usize, e: usize) -> (n: usize)
    requires
        a <= e <= chars.len(),
    ensures
        utf8_len(chars@.subrange(a as int, e as int)) <= 6 ==> n == utf8_len(
            chars@.subrange(a as int, e as int),
        ),
        utf8_len(chars@.subrange(a as int, e as int)) > 6 ==> n > 6,
{
    let ghost t = chars@.subrange(a as int, e as int);
    let mut total: usize = 0;
    let mut i = a;
    while i < e && total <= 6
        invariant
            a <= i <= e <= chars.len(),
            t == chars@.subrange(a as int, e as int),
            total == utf8_len(t.take(i - a)),
            total <= 10,
        decreases e - i,
    {
        let w = char_utf8_width(chars[i]);
        proof {
            assert(t.take(i - a + 1).drop_last() =~= t.take(i - a));
            assert(t.take(i - a + 1).last() == chars@[i as int]);
        }
        total = total + w;
        i = i + 1;
    }
    proof {
        lemma_utf8_len_prefix(t, i - a);
        if i == e {
            assert(t.take(i - a) =~= t);
        }
    }
    total
}


fn invalid_component(label: &str, seg: &str) -> (e: PaletteError)
    ensures
        e@ == component_error(label@, seg@),
{
    let mut m = String::from_str("Invalid ");
    m.append(label);
    m.append(" component: ");
    m.append(seg);
    PaletteError::InvalidHexColor(m)
}

/// Reads the component that starts at character `from` of the long form
/// `text[a..e]` and spans two bytes; returns its value and its character count.
fn read_component(text: &str, chars: &Vec<char>, a: usize, e: usize, from: usize, label: &str) -> (r:
    Result<(u8, usize), PaletteError>)
    requires
        chars@ == text@,
        a <= from <= e <= chars.len(),
        chars_spanning(chars@.subrange(a as int, e as int), from - a, 2) is Some,
    ensures
        ({
            let t = chars@.subrange(a as int, e as int);
            let k = chars_spanning(t, from - a, 2)->Some_0;
            let seg = t.subrange(from - a, from - a + k);
            &&& 0 <= k
            &&& from - a + k <= t.len()
            &&& match hex_pair(seg) {
                Some(v) => r == Ok::<(u8, usize), PaletteError>((v, k as usize)),
                None => r is Err && r->Err_0@ == component_error(label@, seg),
            }
        }),
{
    let ghost t = chars@.subrange(a as int, e as int);
    proof {
        lemma_chars_spanning_bound(t, from - a, 2);
    }
    let k = span_chars(chars, a, e, from, 2).unwrap();
    let ghost seg = t.subrange(from - a, from - a + k);
    assert(seg =~= chars@.subrange(from as int, (from + k) as int));
    let v = if k == 2 {
        assert(seg =~= seq![chars@[from as int], chars@[from + 1]]);
        pair_value(chars[from], chars[from + 1])
    } else {
        None
    };
    match v {
        Some(v) => Ok((v, k)),
        None => Err(invalid_component(label, text.substring_char(from, from + k))),
    }
}

/// Reads the long form `text[a..e]` (six UTF-8 bytes).
fn read_long_form(text: &str, chars: &Vec<char>, a: usize, e: usize) -> (r: Result<Rgb, PaletteError>)
    requires
        chars@ == text@,
        a <= e <= chars.len(),
        !(six_digit_outcome(chars@.subrange(a as int, e as int)) is Panics),
    ensures
        match six_digit_outcome(chars@.subrange(a as int, e as int)) {
            HexColorParse::Parsed(c) => r == Ok::<Rgb, PaletteError>(c),
            HexColorParse::Failed(err) => r is Err && r->Err_0@ == err,
            HexColorParse::Panics => false,
        },
{
    let (r, k1) = match read_component(text, chars, a, e, a, "red") {
        Ok(p) => p,
        Err(err) => return Err(err),
    };
    let (g, k2) = match read_component(text, chars, a, e, a + k1, "green") {
        Ok(p) => p,
        Err(err) => return Err(err),
    };
    let (b, k3) = match read_component(text, chars, a, e, a + k1 + k2, "blue") {
        Ok(p) => p,
        Err(err) => return Err(err),
    };
    Ok(Rgb::from_levels(r, g, b))
}

/// A short form is three one-byte characters.
proof fn lemma_short_form(t: Seq<char>)
    requires
        utf8_len(t) == 3,
        t.len() >= 3,
    ensures
        t.len() == 3,
        utf8_width(t[0]) == 1,
        utf8_width(t[1]) == 1,
        utf8_width(t[2]) == 1,
{
    lemma_utf8_len_at_least_len(t);
    let t1 = t.drop_last();
    let t2 = t1.drop_last();
    let t3 = t2.drop_last();
    assert(t3 =~= Seq::<char>::empty());
    assert(utf8_len(t3) == 0);
    assert(t2.last() == t[0]);
    assert(t1.last() == t[1]);
    assert(t.last() == t[2]);
    assert(utf8_len(t) == utf8_len(t1) + utf8_width(t[2]));
    assert(utf8_len(t1) == utf8_len(t2) + utf8_width(t[1]));
    assert(utf8_len(t2) == utf8_len(t3) + utf8_width(t[0]));
}

/// Reads the short form whose three characters start at `a`.
fn read_short_form(text: &str, chars: &Vec<char>, a: usize) -> (r: Result<Rgb, PaletteError>)
    requires
        chars@ == text@,
        a + 3 <= chars.len(),
        utf8_width(chars@[a as int]) == 1,
        utf8_width(chars@[a + 1]) == 1,
        utf8_width(chars@[a + 2]) == 1,
    ensures
        match six_digit_outcome(expand_short(chars@.subrange(a as int, a + 3))) {
            HexColorParse::Parsed(c) => r == Ok::<Rgb, PaletteError>(c),
            HexColorParse::Failed(err) => r is Err && r->Err_0@ == err,
            HexColorParse::Panics => false,
        },
{
    let ghost t = chars@.subrange(a as int, a + 3);
    let ghost x = expand_short(t);
    let c0 = chars[a];
    let c1 = chars[a + 1];
    let c2 = chars[a + 2];
    proof {
        reveal_with_fuel(chars_spanning, 3);
        assert(x[0] == c0 && x[1] == c0 && x[2] == c1 && x[3] == c1 && x[4] == c2 && x[5] == c2);
        assert(chars_spanning(x, 0, 2) == Some(2int));
        assert(chars_spanning(x, 2, 2) == Some(2int));
        assert(chars_spanning(x, 4, 2) == Some(2int));
        assert(x.take(2) =~= seq![c0, c0]);
        assert(x.subrange(2, 4) =~= seq![c1, c1]);
        assert(x.subrange(4, 6) =~= seq![c2, c2]);
    }
    let r = match pair_value(c0, c0) {
        Some(v) => v,
        None => {
            let mut seg = String::from_str(text.substring_char(a, a + 1));
            seg.append(text.substring_char(a, a + 1));
            assert(seg@ =~= seq![c0, c0]);
            return Err(invalid_component("red", seg.as_str()));
        },
    };
    let g = match pair_value(c1, c1) {
        Some(v) => v,
        None => {
            let mut seg = String::from_str(text.substring_char(a + 1, a + 2));
            seg.append(text.substring_char(a + 1, a + 2));
            assert(seg@ =~= seq![c1, c1]);
            return Err(invalid_component("green", seg.as_str()));
        },
    };
    let b = match pair_value(c2, c2) {
        Some(v) => v,
        None => {
            let mut seg = String::from_str(text.substring_char(a + 2, a + 3));
            seg.append(text.substring_char(a + 2, a + 3));
            assert(seg@ =~= seq![c2, c2]);
            return Err(invalid_component("blue", seg.as_str()));
        },
    };
    Ok(Rgb::from_levels(r, g, b))
}

/// Reads the hex color `text[start..end]` (character indices; `chars` holds
/// the characters of `text`).
pub fn parse_hex_color_range(text: &str, chars: &Vec<char>, start: usize, end: usize) -> (r: Result<
    Rgb,
    PaletteError,
>)
    requires
        chars@ == text@,
        start <= end <= chars.len(),
        hex_color_defined(chars@.subrange(start as int, end as int)),
    ensures
        match hex_color_outcome(chars@.subrange(start as int, end as int)) {
            HexColorParse::Parsed(c) => r == Ok::<Rgb, PaletteError>(c),
            HexColorParse::Failed(err) => r is Err && r->Err_0@ == err,
            HexColorParse::Panics => false,
        },
{
    let (a, e) = trim_range(chars, start, end);
    let ghost t = chars@.subrange(a as int, e as int);
    let n = short_utf8_len(chars, a, e);
    if n == 3 {
        proof {
            lemma_short_form(t);
            assert(t[0] == chars@[a as int] && t[1] == chars@[a + 1] && t[2] == chars@[a + 2]);
            assert(t =~= chars@.subrange(a as int, a + 3));
        }
        read_short_form(text, chars, a)
    } else if n == 6 {
        read_long_form(text, chars, a, e)
    } else {
        let mut m = String::from_str("Invalid hex color length: ");
        m.append(text.substring_char(a, e));
        m.append(" (expected 3 or 6 characters)");
        Err(PaletteError::InvalidHexColor(m))
    }
}

/// The value of the component of the long form `chars[a..e]` that starts at
/// character `from` and spans `k` characters (see [`hex_pair`]).
fn component_value(chars: &Vec<char>, a: usize, e: usize, from: usize, k: usize) -> (v: Option<u8>)
    requires
        a <= from,
        from + k <= e <= chars.len(),
    ensures
        v == hex_pair(chars@.subrange(a as int, e as int).subrange(from - a, from - a + k)),
{
    let ghost seg = chars@.subrange(a as int, e as int).subrange(from - a, from - a + k);
    if k == 2 {
        assert(seg =~= seq![chars@[from as int], chars@[from + 1]]);
        pair_value(chars[from], chars[from + 1])
    } else {
        None
    }
}

/// Whether reading the hex color `chars[start..end]` has no result
/// (see [`hex_color_defined`]).
pub fn hex_color_panics(chars: &Vec<char>, start: usize, end: usize) -> (b: bool)
    requires
        start <= end <= chars.len(),
    ensures
        b == (hex_color_outcome(chars@.subrange(start as int, end as int)) is Panics),
{
    let (a, e) = trim_range(chars, start, end);
    let ghost t = chars@.subrange(a as int, e as int);
    let n = short_utf8_len(chars, a, e);
    if n == 3 {
        proof {
            lemma_utf8_len_at_least_len(t);
            if t.len() >= 3 {
                lemma_short_form(t);
                let x = expand_short(t);
                reveal_with_fuel(chars_spanning, 3);
                assert(x[0] == t[0] && x[1] == t[0] && x[2] == t[1] && x[3] == t[1] && x[4] == t[2]
                    && x[5] == t[2]);
                assert(chars_spanning(x, 0, 2) == Some(2int));
                assert(chars_spanning(x, 2, 2) == Some(2int));
                assert(chars_spanning(x, 4, 2) == Some(2int));
            }
        }
        e - a < 3
    } else if n == 6 {
        let k1 = match span_chars(chars, a, e, a, 2) {
            Some(k) => k,
            None => return true,
        };
        proof {
            lemma_chars_spanning_bound(t, 0, 2);
        }
        if component_value(chars, a, e, a, k1).is_none() {
            return false;
        }
        let k2 = match span_chars(chars, a, e, a + k1, 2) {
            Some(k) => k,
            None => return true,
        };
        proof {
            lemma_chars_spanning_bound(t, k1 as int, 2);
        }
        if component_value(chars, a, e, a + k1, k2).is_none() {
            return false;
        }
        span_chars(chars, a, e, a + k1 + k2, 2).is_none()
    } else {
        false
    }
}

/// Parses a hex color (`RRGGBB` or `RGB`, surrounding white space allowed)
/// into the color whose channels are the component values over 255.
pub fn parse_hex_color(hex: &str) -> (r: Result<Rgb, PaletteError>)
    requires
        hex_color_defined(hex@),
    ensures
        match hex_color_outcome(hex@) {
            HexColorParse::Parsed(c) => r == Ok::<Rgb, PaletteError>(c),
            HexColorParse::Failed(err) => r is Err && r->Err_0@ == err,
            HexColorParse::Panics => false,
        },
{
    let chars = chars_of(hex);
    assert(chars@.subrange(0, chars@.len() as int) =~= hex@);
    parse_hex_color_range(hex, &chars, 0, chars.len())
}

} // verus!
