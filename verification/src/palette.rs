//! Palettes: lists of colors read from hex palette files, nearest-color
//! lookup, and the fixed-size color array the shader takes.

use vstd::prelude::*;
use crate::color::{Rgb, spec_distance_squared, distance_squared};
use crate::error::{PaletteError, PaletteErrorView, error_message};
use crate::hex::{HexColorParse, hex_color_outcome, parse_hex_color_range, expand_short,
    law_short_form_is_doubled, lemma_expand_trimmed};
use crate::text::{line_end, trim, decimal, chars_of, push_decimal, utf8_len};
use crate::hex::{trim_range, hex_color_panics};

verus! {

/// A color palette.
#[derive(Debug, Clone, PartialEq, Eq)]
pub struct Palette {
    /// The colors in the palette.
    pub colors: Vec<Rgb>,
    /// Optional name of the palette.
    pub name: Option<String>,
}

/// A [`Palette`] with its name as a character sequence.
pub struct PaletteView {
    pub colors: Seq<Rgb>,
    pub name: Option<Seq<char>>,
}

/// An optional string, as an optional character sequence.
pub open spec fn opt_str_view(s: Option<String>) -> Option<Seq<char>> {
    match s {
        Some(s) => Some(s@),
        None => None,
    }
}

impl View for Palette {
    type V = PaletteView;

    open spec fn view(&self) -> PaletteView {
        PaletteView { colors: self.colors@, name: opt_str_view(self.name) }
    }
}

/// The palette color closest to `target` when `i` is the first index of
/// least distance.
pub open spec fn is_closest_index(colors: Seq<Rgb>, target: Rgb, i: int) -> bool {
    &&& 0 <= i < colors.len()
    &&& forall|j: int|
        0 <= j < colors.len() ==> spec_distance_squared(target, colors[i]) <= spec_distance_squared(
            target,
            #[trigger] colors[j],
        )
    &&& forall|j: int|
        0 <= j < i ==> spec_distance_squared(target, #[trigger] colors[j]) > spec_distance_squared(
            target,
            colors[i],
        )
}

/// The color of `colors` closest to `target`, the earliest one among equally
/// close colors; black for an empty palette.
pub open spec fn closest_color(colors: Seq<Rgb>, target: Rgb) -> Rgb {
    if colors.len() == 0 {
        Rgb::spec_black()
    } else {
        colors[choose|i: int| is_closest_index(colors, target, i)]
    }
}

/// At most one index is the first index of least distance.
pub proof fn lemma_closest_index_unique(colors: Seq<Rgb>, target: Rgb, i: int, k: int)
    requires
        is_closest_index(colors, target, i),
        is_closest_index(colors, target, k),
    ensures
        i == k,
{
    if i < k {
        assert(spec_distance_squared(target, colors[i]) > spec_distance_squared(target, colors[k]));
    } else if k < i {
        assert(spec_distance_squared(target, colors[k]) > spec_distance_squared(target, colors[i]));
    }
}

/// The first `n` colors of a non-empty prefix have a first closest index.
proof fn lemma_closest_prefix_exists(colors: Seq<Rgb>, target: Rgb, n: int)
    requires
        0 < n <= colors.len(),
    ensures
        exists|i: int| is_closest_index(colors.take(n), target, i),
    decreases n,
{
    let p = colors.take(n);
    if n == 1 {
        assert(is_closest_index(p, target, 0));
    } else {
        lemma_closest_prefix_exists(colors, target, n - 1);
        let q = colors.take(n - 1);
        let i = choose|i: int| is_closest_index(q, target, i);
        assert forall|j: int| 0 <= j < n - 1 implies p[j] == #[trigger] q[j] by {}
        if spec_distance_squared(target, p[n - 1]) < spec_distance_squared(target, p[i]) {
            assert(is_closest_index(p, target, n - 1));
        } else {
            assert(is_closest_index(p, target, i));
        }
    }
}

/// Every non-empty palette has a first closest index for every target.
pub proof fn lemma_closest_exists(colors: Seq<Rgb>, target: Rgb)
    requires
        colors.len() > 0,
    ensures
        exists|i: int| is_closest_index(colors, target, i),
{
    lemma_closest_prefix_exists(colors, target, colors.len() as int);
    assert(colors.take(colors.len() as int) =~= colors);
}

/// Quantizing twice is quantizing once: the closest palette color to a
/// palette color is that color itself.
pub proof fn law_closest_color_idempotent(colors: Seq<Rgb>, target: Rgb)
    ensures
        closest_color(colors, closest_color(colors, target)) == closest_color(colors, target),
{
    if colors.len() > 0 {
        lemma_closest_exists(colors, target);
        let i = choose|i: int| is_closest_index(colors, target, i);
        law_palette_color_is_fixed(colors, i);
    }
}

/// A palette color is its own closest color.
pub proof fn law_palette_color_is_fixed(colors: Seq<Rgb>, i: int)
    requires
        0 <= i < colors.len(),
    ensures
        closest_color(colors, colors[i]) == colors[i],
{
    let c = colors[i];
    lemma_closest_exists(colors, c);
    let k = choose|k: int| is_closest_index(colors, c, k);
    assert(spec_distance_squared(c, colors[i]) == 0);
    let d = colors[k];
    assert((c.r - d.r) * (c.r - d.r) >= 0 && (c.g - d.g) * (c.g - d.g) >= 0 && (c.b - d.b) * (c.b
        - d.b) >= 0) by (nonlinear_arith);
    assert((c.r - d.r) * (c.r - d.r) == 0 ==> c.r == d.r) by (nonlinear_arith);
    assert((c.g - d.g) * (c.g - d.g) == 0 ==> c.g == d.g) by (nonlinear_arith);
    assert((c.b - d.b) * (c.b - d.b) == 0 ==> c.b == d.b) by (nonlinear_arith);
}

proof fn lemma_distance_formula(a: Rgb, b: Rgb)
    ensures
        spec_distance_squared(a, b) == (a.r - b.r) * (a.r - b.r) + (a.g - b.g) * (a.g - b.g) + (a.b
            - b.b) * (a.b - b.b),
{
    let dr = a.r - b.r;
    let dg = a.g - b.g;
    let db = a.b - b.b;
    assert(dr * dr + dg * dg + db * db >= 0) by (nonlinear_arith);
}

/// Nearest-color quantization is nearest in euclidean distance: the closest
/// color of a non-empty palette is one of its colors, no palette color is
/// nearer to the target in the sum of squared channel differences, and every
/// earlier palette color is strictly farther.
pub proof fn law_closest_is_euclidean_nearest(colors: Seq<Rgb>, target: Rgb)
    requires
        colors.len() > 0,
    ensures
        ({
            let c = closest_color(colors, target);
            &&& colors.contains(c)
            &&& forall|j: int|
                0 <= j < colors.len() ==> (target.r - c.r) * (target.r - c.r) + (target.g - c.g)
                    * (target.g - c.g) + (target.b - c.b) * (target.b - c.b) <= (target.r
                    - colors[j].r) * (target.r - colors[j].r) + (target.g - colors[j].g) * (
                target.g - colors[j].g) + (target.b - colors[j].b) * (target.b - colors[j].b)
            &&& exists|i: int|
                0 <= i < colors.len() && colors[i] == c && forall|j: int|
                    0 <= j < i ==> (target.r - colors[j].r) * (target.r - colors[j].r) + (
                    target.g - colors[j].g) * (target.g - colors[j].g) + (target.b
                        - colors[j].b) * (target.b - colors[j].b) > (target.r - c.r) * (
                    target.r - c.r) + (target.g - c.g) * (target.g - c.g) + (target.b - c.b) * (
                    target.b - c.b)
        }),
{
    lemma_closest_exists(colors, target);
    let i = choose|i: int| is_closest_index(colors, target, i);
    let c = colors[i];
    assert(colors.contains(c));
    assert forall|j: int| 0 <= j < colors.len() implies (target.r - c.r) * (target.r - c.r) + (
    target.g - c.g) * (target.g - c.g) + (target.b - c.b) * (target.b - c.b) <= (target.r
        - colors[j].r) * (target.r - colors[j].r) + (target.g - colors[j].g) * (target.g
        - colors[j].g) + (target.b - colors[j].b) * (target.b - colors[j].b) by {
        lemma_distance_formula(target, c);
        lemma_distance_formula(target, colors[j]);
        assert(spec_distance_squared(target, c) <= spec_distance_squared(target, colors[j]));
    }
    assert forall|j: int| 0 <= j < i implies (target.r - colors[j].r) * (target.r - colors[j].r)
        + (target.g - colors[j].g) * (target.g - colors[j].g) + (target.b - colors[j].b) * (
    target.b - colors[j].b) > (target.r - c.r) * (target.r - c.r) + (target.g - c.g) * (target.g
        - c.g) + (target.b - c.b) * (target.b - c.b) by {
        lemma_distance_formula(target, c);
        lemma_distance_formula(target, colors[j]);
        assert(spec_distance_squared(target, colors[j]) > spec_distance_squared(target, c));
    }
}

/// The array of `max_size` colors for the shader: the palette's colors
/// (as many as fit), then its last color repeated (black for an empty palette).
pub open spec fn shader_array(colors: Seq<Rgb>, max_size: nat) -> Seq<Rgb> {
    Seq::new(
        max_size,
        |i: int|
            if i < colors.len() {
                colors[i]
            } else if colors.len() > 0 {
                colors.last()
            } else {
                Rgb::spec_black()
            },
    )
}

/// The shader array has exactly `max_size` entries: the first `max_size`
/// palette colors when the palette has that many; otherwise the whole
/// palette, padded with its last color (with black when it is empty). Every
/// entry of a non-empty palette's array is one of its colors.
pub proof fn law_shader_array(colors: Seq<Rgb>, max_size: nat)
    ensures
        shader_array(colors, max_size).len() == max_size,
        max_size <= colors.len() ==> shader_array(colors, max_size) == colors.take(
            max_size as int,
        ),
        max_size > colors.len() ==> shader_array(colors, max_size).take(colors.len() as int)
            == colors,
        forall|i: int|
            colors.len() <= i < max_size && colors.len() > 0 ==> #[trigger] shader_array(
                colors,
                max_size,
            )[i] == colors[colors.len() - 1],
        forall|i: int|
            0 <= i < max_size && colors.len() == 0 ==> #[trigger] shader_array(colors, max_size)[i]
                == (Rgb { r: 0, g: 0, b: 0 }),
        colors.len() > 0 ==> forall|i: int|
            0 <= i < max_size ==> colors.contains(#[trigger] shader_array(colors, max_size)[i]),
{
    let a = shader_array(colors, max_size);
    if max_size <= colors.len() {
        assert(a =~= colors.take(max_size as int));
    } else {
        assert(a.take(colors.len() as int) =~= colors);
    }
    if colors.len() > 0 {
        assert forall|i: int| 0 <= i < max_size implies colors.contains(#[trigger] a[i]) by {
            if i < colors.len() {
                assert(colors[i] == a[i]);
            } else {
                assert(colors[colors.len() - 1] == a[i]);
            }
        }
    }
}

/// The outcome of reading the lines of a palette file.
pub enum ContentParse {
    Colors(Seq<Rgb>),
    Failed(PaletteErrorView),
    /// A line splits inside a multi-byte character; no result exists.
    Panics,
}

/// A trimmed line that holds no color: empty, or a comment (`#...` or `//...`).
/// A `#RRGGBB` line is therefore a comment too.
pub open spec fn is_skipped_line(line: Seq<char>) -> bool {
    line.len() == 0 || line[0] == '#' || (line.len() >= 2 && line[0] == '/' && line[1] == '/')
}

/// The error for line number `line_no` when its color fails with `err`.
pub open spec fn line_error(line_no: nat, err: PaletteErrorView) -> PaletteErrorView {
    PaletteErrorView::ParseError("Line "@ + decimal(line_no) + ": "@ + error_message(err))
}

/// `line_end` never moves backwards.
pub proof fn lemma_line_end_bounds(s: Seq<char>, i: int)
    requires
        0 <= i <= s.len(),
    ensures
        i <= line_end(s, i) <= s.len(),
        line_end(s, i) < s.len() ==> s[line_end(s, i)] == '\n',
    decreases s.len() - i,
{
    if i < s.len() && s[i] != '\n' {
        lemma_line_end_bounds(s, i + 1);
    }
}

/// The outcome of reading the lines of `s` from character index `start` on,
/// where that line has number `line_no`: lines are separated by `'\n'` and
/// trimmed; blank and comment lines are skipped; every other line must be a
/// hex color, and the first one that is not stops the reading with an error
/// that names its line number.
pub open spec fn lines_outcome(s: Seq<char>, start: int, line_no: nat) -> ContentParse
    decreases s.len() - start,
{
    if start < 0 || start >= s.len() {
        ContentParse::Colors(Seq::empty())
    } else {
        proof {
            lemma_line_end_bounds(s, start);
        }
        let e = line_end(s, start);
        let next = if e < s.len() {
            e + 1
        } else {
            s.len() as int
        };
        let line = trim(s.subrange(start, e));
        if is_skipped_line(line) {
            lines_outcome(s, next, line_no + 1)
        } else {
            match hex_color_outcome(line) {
                HexColorParse::Panics => ContentParse::Panics,
                HexColorParse::Failed(err) => ContentParse::Failed(line_error(line_no, err)),
                HexColorParse::Parsed(c) => match lines_outcome(s, next, line_no + 1) {
                    ContentParse::Colors(rest) => ContentParse::Colors(seq![c] + rest),
                    other => other,
                },
            }
        }
    }
}

/// The outcome of reading palette-file text `s`.
pub open spec fn content_outcome(s: Seq<char>) -> ContentParse {
    lines_outcome(s, 0, 1)
}

/// Whether reading palette-file text `s` yields a result (a palette or an error).
pub open spec fn content_defined(s: Seq<char>) -> bool {
    !(content_outcome(s) is Panics)
}

/// The outcome `o` of the remaining lines, after the colors `done` read before them.
pub open spec fn after_colors(done: Seq<Rgb>, o: ContentParse) -> ContentParse {
    match o {
        ContentParse::Colors(rest) => ContentParse::Colors(done + rest),
        other => other,
    }
}

/// What parsing palette-file text `s` with name `name` returns: the palette of
/// its colors, `EmptyPalette` when it has none, or the error of its first bad line.
pub open spec fn parse_result_matches(
    s: Seq<char>,
    name: Option<Seq<char>>,
    r: Result<Palette, PaletteError>,
) -> bool {
    match content_outcome(s) {
        ContentParse::Colors(cs) => if cs.len() == 0 {
            r is Err && r->Err_0@ == PaletteErrorView::EmptyPalette
        } else {
            r is Ok && r->Ok_0@ == PaletteView { colors: cs, name: name }
        },
        ContentParse::Failed(e) => r is Err && r->Err_0@ == e,
        ContentParse::Panics => false,
    }
}

/// The trimmed lines of `s`, from the line that starts at index `start` on,
/// that are read as colors (neither blank nor comments), in order.
pub open spec fn color_lines_from(s: Seq<char>, start: int) -> Seq<Seq<char>>
    decreases s.len() - start,
{
    if start < 0 || start >= s.len() {
        Seq::empty()
    } else {
        proof {
            lemma_line_end_bounds(s, start);
        }
        let e = line_end(s, start);
        let next = if e < s.len() {
            e + 1
        } else {
            s.len() as int
        };
        let line = trim(s.subrange(start, e));
        if is_skipped_line(line) {
            color_lines_from(s, next)
        } else {
            seq![line] + color_lines_from(s, next)
        }
    }
}

/// The trimmed lines of palette-file text `s` that are read as colors.
pub open spec fn color_lines(s: Seq<char>) -> Seq<Seq<char>> {
    color_lines_from(s, 0)
}

/// The outcome of reading color lines one after the other, stopping at the
/// first that is not a color (its error is the color's own, without a line number).
pub open spec fn read_color_lines(ls: Seq<Seq<char>>) -> ContentParse
    decreases ls.len(),
{
    if ls.len() == 0 {
        ContentParse::Colors(Seq::empty())
    } else {
        match hex_color_outcome(ls[0]) {
            HexColorParse::Panics => ContentParse::Panics,
            HexColorParse::Failed(err) => ContentParse::Failed(err),
            HexColorParse::Parsed(c) => match read_color_lines(ls.drop_first()) {
                ContentParse::Colors(rest) => ContentParse::Colors(seq![c] + rest),
                other => other,
            },
        }
    }
}

/// Two outcomes agree up to the text of an error: the same colors, or both
/// errors, or both without a result.
pub open spec fn same_shape(x: ContentParse, y: ContentParse) -> bool {
    match x {
        ContentParse::Colors(cs) => y == ContentParse::Colors(cs),
        ContentParse::Failed(_) => y is Failed,
        ContentParse::Panics => y is Panics,
    }
}

/// Reading the lines from `start` on agrees, up to line numbers in errors,
/// with reading the color lines from there.
proof fn lemma_outcome_is_reading_color_lines(s: Seq<char>, start: int, line_no: nat)
    requires
        0 <= start,
    ensures
        same_shape(lines_outcome(s, start, line_no), read_color_lines(color_lines_from(s, start))),
    decreases s.len() - start,
{
    if start < s.len() {
        lemma_line_end_bounds(s, start);
        let e = line_end(s, start);
        let next = if e < s.len() {
            e + 1
        } else {
            s.len() as int
        };
        let line = trim(s.subrange(start, e));
        lemma_outcome_is_reading_color_lines(s, next, line_no + 1);
        if !is_skipped_line(line) {
            let ls = color_lines_from(s, start);
            assert(ls[0] == line);
            assert(ls.drop_first() =~= color_lines_from(s, next));
        }
    }
}

/// Color lines that read alike give outcomes that are equal.
proof fn lemma_read_alike(la: Seq<Seq<char>>, lb: Seq<Seq<char>>)
    requires
        la.len() == lb.len(),
        forall|i: int| 0 <= i < la.len() ==> hex_color_outcome(#[trigger] la[i]) == hex_color_outcome(lb[i]),
    ensures
        read_color_lines(la) == read_color_lines(lb),
    decreases la.len(),
{
    if la.len() > 0 {
        assert(hex_color_outcome(la[0]) == hex_color_outcome(lb[0]));
        let ra = la.drop_first();
        let rb = lb.drop_first();
        assert forall|i: int| 0 <= i < ra.len() implies hex_color_outcome(#[trigger] ra[i])
            == hex_color_outcome(rb[i]) by {
            assert(ra[i] == la[i + 1] && rb[i] == lb[i + 1]);
        }
        lemma_read_alike(ra, rb);
    }
}

/// A palette text's colors, and whether it reads as a palette, depend only on
/// its color lines, each up to how it reads as a hex color: texts whose color
/// lines read alike one for one give the same colors, or both fail, or both
/// have no result. Blank lines, comment lines and white space around lines
/// are not part of the color lines (see [`law_color_lines_split`],
/// [`law_single_line`] and [`law_skipped_line_insertion`]), and a short form
/// reads as its doubled long form (see [`law_short_form_line`]).
pub proof fn law_colors_depend_only_on_color_lines(a: Seq<char>, b: Seq<char>)
    requires
        color_lines(a).len() == color_lines(b).len(),
        forall|i: int|
            0 <= i < color_lines(a).len() ==> hex_color_outcome(#[trigger] color_lines(a)[i])
                == hex_color_outcome(color_lines(b)[i]),
    ensures
        same_shape(content_outcome(a), content_outcome(b)),
        content_outcome(a) is Colors <==> content_outcome(b) is Colors,
{
    lemma_outcome_is_reading_color_lines(a, 0, 1);
    lemma_outcome_is_reading_color_lines(b, 0, 1);
    lemma_read_alike(color_lines(a), color_lines(b));
}

/// Line ends in `q` are line ends in `p + q`, moved by `p.len()`.
proof fn lemma_line_end_shift(p: Seq<char>, q: Seq<char>, j: int)
    requires
        0 <= j <= q.len(),
    ensures
        line_end(p + q, p.len() + j) == p.len() + line_end(q, j),
    decreases q.len() - j,
{
    if j < q.len() && q[j] != '\n' {
        assert((p + q)[p.len() + j] == q[j]);
        lemma_line_end_shift(p, q, j + 1);
    }
}

/// The color lines of `p + q` from inside `q` are those of `q`.
proof fn lemma_color_lines_shift(p: Seq<char>, q: Seq<char>, j: int)
    requires
        0 <= j <= q.len(),
    ensures
        color_lines_from(p + q, p.len() + j) == color_lines_from(q, j),
    decreases q.len() - j,
{
    if j < q.len() {
        let t = p + q;
        lemma_line_end_shift(p, q, j);
        lemma_line_end_bounds(q, j);
        let e = line_end(q, j);
        let next = if e < q.len() {
            e + 1
        } else {
            q.len() as int
        };
        assert(t.subrange(p.len() + j, p.len() + e) =~= q.subrange(j, e));
        lemma_color_lines_shift(p, q, next);
    }
}

/// A line end inside `p`, before a `'\n'` of `p`, is the same in `p + q`.
proof fn lemma_line_end_prefix(p: Seq<char>, q: Seq<char>, i: int)
    requires
        0 <= i < p.len(),
        p[p.len() - 1] == '\n',
    ensures
        line_end(p + q, i) == line_end(p, i),
        line_end(p, i) < p.len(),
    decreases p.len() - i,
{
    assert((p + q)[i] == p[i]);
    if p[i] != '\n' {
        lemma_line_end_prefix(p, q, i + 1);
    }
}

/// The color lines of `p + q` from index `start` of `p`, when `p` ends with a
/// line break, are those of `p` from `start` followed by those of `q`.
proof fn lemma_color_lines_prefix(p: Seq<char>, q: Seq<char>, start: int)
    requires
        0 <= start <= p.len(),
        p.len() > 0 ==> p[p.len() - 1] == '\n',
    ensures
        color_lines_from(p + q, start) == color_lines_from(p, start) + color_lines(q),
    decreases p.len() - start,
{
    let t = p + q;
    if start == p.len() {
        lemma_color_lines_shift(p, q, 0);
        assert(color_lines_from(p, start) + color_lines(q) =~= color_lines(q));
    } else {
        lemma_line_end_prefix(p, q, start);
        lemma_line_end_bounds(p, start);
        let e = line_end(p, start);
        assert(t.subrange(start, e) =~= p.subrange(start, e));
        lemma_color_lines_prefix(p, q, e + 1);
        let line = trim(p.subrange(start, e));
        if !is_skipped_line(line) {
            assert(seq![line] + color_lines_from(p, e + 1) + color_lines(q) =~= seq![line] + (
            color_lines_from(p, e + 1) + color_lines(q)));
        }
    }
}

/// Splitting a palette text after a line break splits its color lines: the
/// color lines of `p + q` are those of `p` followed by those of `q`.
pub proof fn law_color_lines_split(p: Seq<char>, q: Seq<char>)
    requires
        p.len() > 0 ==> p[p.len() - 1] == '\n',
    ensures
        color_lines(p + q) == color_lines(p) + color_lines(q),
{
    lemma_color_lines_prefix(p, q, 0);
}

/// A single line `l` (with its line break) has no color line when its trimmed
/// form is blank or a comment, and its trimmed form otherwise: white space
/// around a line never matters.
pub proof fn law_single_line(l: Seq<char>)
    requires
        forall|i: int| 0 <= i < l.len() ==> l[i] != '\n',
    ensures
        color_lines(l.push('\n')) == if is_skipped_line(trim(l)) {
            Seq::<Seq<char>>::empty()
        } else {
            seq![trim(l)]
        },
{
    let x = l.push('\n');
    assert forall|i: int| 0 <= i < l.len() implies x[i] != '\n' by {
        assert(x[i] == l[i]);
    }
    lemma_line_end_no_break(x, 0, l.len() as int);
    assert(x.subrange(0, l.len() as int) =~= l);
    assert(color_lines_from(x, l.len() + 1int) == Seq::<Seq<char>>::empty());
    if !is_skipped_line(trim(l)) {
        assert(seq![trim(l)] + Seq::<Seq<char>>::empty() =~= seq![trim(l)]);
    }
}

/// A line that runs up to a `'\n'` at index `k` ends there.
proof fn lemma_line_end_no_break(s: Seq<char>, i: int, k: int)
    requires
        0 <= i <= k < s.len(),
        s[k] == '\n',
        forall|j: int| i <= j < k ==> s[j] != '\n',
    ensures
        line_end(s, i) == k,
    decreases k - i,
{
    if i < k {
        lemma_line_end_no_break(s, i + 1, k);
    }
}

/// Inserting a blank or comment line after any line break (or at the start)
/// leaves the color lines, and so the palette, unchanged.
pub proof fn law_skipped_line_insertion(p: Seq<char>, l: Seq<char>, q: Seq<char>)
    requires
        p.len() > 0 ==> p[p.len() - 1] == '\n',
        forall|i: int| 0 <= i < l.len() ==> l[i] != '\n',
        is_skipped_line(trim(l)),
    ensures
        color_lines(p + (l.push('\n') + q)) == color_lines(p + q),
{
    let x = l.push('\n');
    law_color_lines_split(p, x + q);
    law_color_lines_split(x, q);
    law_single_line(l);
    law_color_lines_split(p, q);
    assert(color_lines(x) + color_lines(q) =~= color_lines(q));
}

/// Writing a color line `xyz` as `xxyyzz` changes neither the colors of a
/// palette text nor whether it reads as a palette, as long as the doubled
/// line is not a comment (a line `/yz` doubles to the comment `//yyzz`).
pub proof fn law_short_form_line(p: Seq<char>, t: Seq<char>, q: Seq<char>)
    requires
        p.len() > 0 ==> p[p.len() - 1] == '\n',
        t.len() == 3,
        utf8_len(t) == 3,
        trim(t) == t,
        forall|i: int| 0 <= i < 3 ==> t[i] != '\n',
        !is_skipped_line(t),
        !is_skipped_line(expand_short(t)),
    ensures
        same_shape(
            content_outcome(p + (t.push('\n') + q)),
            content_outcome(p + (expand_short(t).push('\n') + q)),
        ),
{
    let x = expand_short(t);
    let a = p + (t.push('\n') + q);
    let b = p + (x.push('\n') + q);
    lemma_expand_trimmed(t);
    law_short_form_is_doubled(t);
    assert forall|i: int| 0 <= i < x.len() implies x[i] != '\n' by {
        assert(x[i] == t[0] || x[i] == t[1] || x[i] == t[2]);
    }
    law_color_lines_split(p, t.push('\n') + q);
    law_color_lines_split(t.push('\n'), q);
    law_single_line(t);
    law_color_lines_split(p, x.push('\n') + q);
    law_color_lines_split(x.push('\n'), q);
    law_single_line(x);
    let n = color_lines(p).len() as int;
    let la = color_lines(a);
    let lb = color_lines(b);
    assert(la =~= color_lines(p) + (seq![t] + color_lines(q)));
    assert(lb =~= color_lines(p) + (seq![x] + color_lines(q)));
    assert forall|i: int| 0 <= i < la.len() implies hex_color_outcome(#[trigger] la[i])
        == hex_color_outcome(lb[i]) by {
        if i != n {
            assert(la[i] == lb[i]);
        }
    }
    law_colors_depend_only_on_color_lines(a, b);
}

fn find_line_end(chars: &Vec<char>, start: usize) -> (e: usize)
    requires
        start <= chars.len(),
    ensures
        e == line_end(chars@, start as int),
{
    let mut e = start;
    while e < chars.len() && chars[e] != '\n'
        invariant
            start <= e <= chars.len(),
            line_end(chars@, e as int) == line_end(chars@, start as int),
        decreases chars.len() - e,
    {
        e = e + 1;
    }
    e
}

impl Palette {
    /// Parse palette-file text: one hex color (`RRGGBB` or `RGB`) per line,
    /// blank lines and comment lines (`#...`, `//...`) skipped.
    pub fn parse_hex_content(content: &str, name: Option<String>) -> (r: Result<Palette, PaletteError>)
        requires
            content_defined(content@),
        ensures
            parse_result_matches(content@, opt_str_view(name), r),
    {
        let chars = chars_of(content);
        let ghost s = chars@;
        let mut colors: Vec<Rgb> = Vec::new();
        let mut start: usize = 0;
        let mut line_index: usize = 0;
        while start < chars.len()
            invariant
                chars@ == content@,
                s == chars@,
                start <= chars.len(),
                line_index <= start,
                after_colors(colors@, lines_outcome(s, start as int, (line_index + 1) as nat))
                    == content_outcome(s),
                content_defined(s),
            decreases chars.len() - start,
        {
            let e = find_line_end(&chars, start);
            proof {
                lemma_line_end_bounds(s, start as int);
            }
            let (a, b) = trim_range(&chars, start, e);
            let ghost line = trim(s.subrange(start as int, e as int));
            let skipped = a == b || chars[a] == '#' || (b - a >= 2 && chars[a] == '/' && chars[a
                + 1] == '/');
            assert(skipped == is_skipped_line(line));
            if !skipped {
                assert(line =~= s.subrange(a as int, b as int));
                assert(!(hex_color_outcome(line) is Panics));
                match parse_hex_color_range(content, &chars, a, b) {
                    Ok(c) => {
                        let ghost before = colors@;
                        colors.push(c);
                        proof {
                            let next: int = if e < chars.len() {
                                e + 1
                            } else {
                                chars.len() as int
                            };
                            match lines_outcome(s, next, (line_index + 2) as nat) {
                                ContentParse::Colors(rest) => {
                                    assert(colors@ + rest =~= before + (seq![c] + rest));
                                },
                                _ => {},
                            }
                        }
                    },
                    Err(err) => {
                        let mut m = String::from_str("Line ");
                        push_decimal(&mut m, line_index + 1);
                        m.append(": ");
                        let msg = err.message();
                        m.append(msg.as_str());
                        return Err(PaletteError::ParseError(m));
                    },
                }
            }
            start = if e < chars.len() {
                e + 1
            } else {
                chars.len()
            };
            line_index = line_index + 1;
        }
        if colors.len() == 0 {
            Err(PaletteError::EmptyPalette)
        } else {
            Ok(Palette { colors, name })
        }
    }

    /// Whether parsing `content` yields a result (see [`content_defined`]):
    /// false when the first line that is not a color splits inside a
    /// multi-byte character.
    pub fn hex_content_defined(content: &str) -> (b: bool)
        ensures
            b == content_defined(content@),
    {
        let chars = chars_of(content);
        let ghost s = chars@;
        let mut start: usize = 0;
        let mut line_index: usize = 0;
        while start < chars.len()
            invariant
                chars@ == content@,
                s == chars@,
                start <= chars.len(),
                line_index <= start,
                (content_outcome(s) is Panics) == (lines_outcome(s, start as int, (line_index
                    + 1) as nat) is Panics),
            decreases chars.len() - start,
        {
            let e = find_line_end(&chars, start);
            proof {
                lemma_line_end_bounds(s, start as int);
            }
            let (a, b) = trim_range(&chars, start, e);
            let ghost line = trim(s.subrange(start as int, e as int));
            let skipped = a == b || chars[a] == '#' || (b - a >= 2 && chars[a] == '/' && chars[a
                + 1] == '/');
            assert(skipped == is_skipped_line(line));
            if !skipped {
                assert(line =~= s.subrange(a as int, b as int));
                if hex_color_panics(&chars, a, b) {
                    return false;
                }
                if parse_hex_color_range(content, &chars, a, b).is_err() {
                    return true;
                }
            }
            start = if e < chars.len() {
                e + 1
            } else {
                chars.len()
            };
            line_index = line_index + 1;
        }
        true
    }

    /// Create a new empty palette.
    pub fn new() -> (p: Palette)
        ensures
            p@.colors == Seq::<Rgb>::empty(),
            p@.name is None,
    {
        Palette { colors: Vec::new(), name: None }
    }

    /// Create an empty palette with a name.
    pub fn with_name(name: String) -> (p: Palette)
        ensures
            p@.colors == Seq::<Rgb>::empty(),
            p@.name == Some(name@),
    {
        Palette { colors: Vec::new(), name: Some(name) }
    }

    /// Add a color to the palette.
    pub fn add_color(&mut self, color: Rgb)
        ensures
            final(self)@.colors == old(self)@.colors.push(color),
            final(self)@.name == old(self)@.name,
    {
        self.colors.push(color);
    }

    /// The number of colors in the palette.
    pub fn len(&self) -> (n: usize)
        ensures
            n == self@.colors.len(),
    {
        self.colors.len()
    }

    /// Whether the palette has no color.
    pub fn is_empty(&self) -> (b: bool)
        ensures
            b == (self@.colors.len() == 0),
    {
        self.colors.len() == 0
    }

    /// The palette color closest to `target` (the earliest of equally close
    /// colors); black when the palette is empty.
    pub fn find_closest_color(&self, target: Rgb) -> (c: Rgb)
        ensures
            c == closest_color(self@.colors, target),
            self@.colors.len() > 0 ==> exists|i: int|
                is_closest_index(self@.colors, target, i) && c == self@.colors[i],
    {
        if self.colors.len() == 0 {
            return Rgb::black();
        }
        let mut best: usize = 0;
        let mut best_dist = distance_squared(target, self.colors[0]);
        let mut i: usize = 1;
        while i < self.colors.len()
            invariant
                1 <= i <= self.colors.len(),
                best < i,
                best_dist == spec_distance_squared(target, self.colors@[best as int]),
                forall|j: int|
                    0 <= j < i ==> spec_distance_squared(target, self.colors@[best as int])
                        <= spec_distance_squared(target, #[trigger] self.colors@[j]),
                forall|j: int|
                    0 <= j < best ==> spec_distance_squared(target, #[trigger] self.colors@[j])
                        > spec_distance_squared(target, self.colors@[best as int]),
            decreases self.colors.len() - i,
        {
            let d = distance_squared(target, self.colors[i]);
            if d < best_dist {
                best = i;
                best_dist = d;
            }
            i = i + 1;
        }
        proof {
            let colors = self.colors@;
            assert(is_closest_index(colors, target, best as int));
            let k = choose|k: int| is_closest_index(colors, target, k);
            lemma_closest_index_unique(colors, target, best as int, k);
        }
        self.colors[best]
    }

    /// The palette as an array of exactly `max_size` colors for the shader
    /// (see [`shader_array`]).
    pub fn to_shader_array(&self, max_size: usize) -> (v: Vec<Rgb>)
        ensures
            v@ == shader_array(self@.colors, max_size as nat),
    {
        let mut result: Vec<Rgb> = Vec::with_capacity(max_size);
        let n = self.colors.len();
        let mut i: usize = 0;
        while i < n && i < max_size
            invariant
                i <= n == self.colors.len(),
                i <= max_size,
                result@ == shader_array(self@.colors, max_size as nat).take(i as int),
            decreases n - i,
        {
            result.push(self.colors[i]);
            assert(result@ =~= shader_array(self@.colors, max_size as nat).take(i + 1));
            i = i + 1;
        }
        let fill = if n > 0 {
            self.colors[n - 1]
        } else {
            Rgb::black()
        };
        while i < max_size
            invariant
                i <= max_size,
                n == self.colors.len(),
                i >= n || i >= max_size,
                fill == (if n > 0 {
                    self@.colors.last()
                } else {
                    Rgb::spec_black()
                }),
                result@ == shader_array(self@.colors, max_size as nat).take(i as int),
            decreases max_size - i,
        {
            result.push(fill);
            assert(result@ =~= shader_array(self@.colors, max_size as nat).take(i + 1));
            i = i + 1;
        }
        assert(result@ =~= shader_array(self@.colors, max_size as nat));
        result
    }
}

impl Default for Palette {
    fn default() -> (p: Palette)
        ensures
            p@.colors == Seq::<Rgb>::empty(),
            p@.name is None,
    {
        Palette::new()
    }
}

} // verus!
