//! File-name rules for palette files: the stem names a palette, and only
//! files with the `hex` extension are palette files.
//!
//! The rules are those of `Path::file_stem` and `Path::extension` for a file
//! name: the extension is what follows the last `.`, unless there is no `.`
//! or the only `.` starts the name.

use vstd::prelude::*;

verus! {

/// The index of the last `'.'` in `s` before index `j`, if any.
pub open spec fn last_dot_before(s: Seq<char>, j: int) -> Option<int>
    decreases j,
{
    if j <= 0 || j > s.len() {
        None
    } else if s[j - 1] == '.' {
        Some(j - 1)
    } else {
        last_dot_before(s, j - 1)
    }
}

/// Where the extension of file name `s` starts: after its last `'.'`, when
/// that dot is not the first character.
pub open spec fn extension_dot(s: Seq<char>) -> Option<int> {
    match last_dot_before(s, s.len() as int) {
        Some(p) => if p > 0 {
            Some(p)
        } else {
            None
        },
        None => None,
    }
}

/// The stem of file name `s`: the name without its extension and the dot.
pub open spec fn spec_file_stem(s: Seq<char>) -> Seq<char> {
    match extension_dot(s) {
        Some(p) => s.take(p),
        None => s,
    }
}

/// The extension of file name `s`, if it has one.
pub open spec fn spec_extension(s: Seq<char>) -> Option<Seq<char>> {
    match extension_dot(s) {
        Some(p) => Some(s.skip(p + 1)),
        None => None,
    }
}

proof fn lemma_last_dot_bound(s: Seq<char>, j: int)
    ensures
        last_dot_before(s, j) matches Some(p) ==> 0 <= p < j && p < s.len() && s[p] == '.',
    decreases j,
{
    if j > 0 && j <= s.len() && s[j - 1] != '.' {
        lemma_last_dot_bound(s, j - 1);
    }
}

/// `last_dot_before` finds nothing in a stretch without dots, and finds a dot
/// that ends the stretch it looks at.
proof fn lemma_no_dot_after(s: Seq<char>, p: int, j: int)
    requires
        0 <= p < j <= s.len(),
        s[p] == '.',
        forall|i: int| p < i < j ==> s[i] != '.',
    ensures
        last_dot_before(s, j) == Some(p),
    decreases j,
{
    if j - 1 > p {
        lemma_no_dot_after(s, p, j - 1);
    }
}

proof fn lemma_no_dot(s: Seq<char>, j: int)
    requires
        0 <= j <= s.len(),
        forall|i: int| 0 <= i < j ==> s[i] != '.',
    ensures
        last_dot_before(s, j) is None,
    decreases j,
{
    if j > 0 {
        lemma_no_dot(s, j - 1);
    }
}

/// A name `stem.ext`, with a non-empty stem and an extension without dots,
/// splits into that stem and that extension.
pub proof fn law_stem_and_extension(stem: Seq<char>, ext: Seq<char>)
    requires
        stem.len() > 0,
        forall|i: int| 0 <= i < ext.len() ==> ext[i] != '.',
    ensures
        spec_file_stem(stem + seq!['.'] + ext) == stem,
        spec_extension(stem + seq!['.'] + ext) == Some(ext),
{
    let s = stem + seq!['.'] + ext;
    let p = stem.len() as int;
    assert(s[p] == '.');
    assert forall|i: int| p < i < s.len() implies s[i] != '.' by {
        assert(s[i] == ext[i - p - 1]);
    }
    lemma_no_dot_after(s, p, s.len() as int);
    assert(s.take(p) =~= stem);
    assert(s.skip(p + 1) =~= ext);
}

/// A name without a dot, or whose only dot starts it, has no extension and
/// is its own stem.
pub proof fn law_no_extension(s: Seq<char>)
    requires
        forall|i: int| 0 < i < s.len() ==> s[i] != '.',
    ensures
        spec_file_stem(s) == s,
        spec_extension(s) is None,
{
    if s.len() > 0 && s[0] == '.' {
        lemma_no_dot_after(s, 0, s.len() as int);
    } else {
        lemma_no_dot(s, s.len() as int);
    }
}

fn find_extension_dot(chars: &Vec<char>) -> (r: Option<usize>)
    ensures
        r matches Some(p) ==> extension_dot(chars@) == Some(p as int),
        r is None ==> extension_dot(chars@) is None,
{
    let mut j = chars.len();
    while j > 0 && chars[j - 1] != '.'
        invariant
            j <= chars.len(),
            last_dot_before(chars@, j as int) == last_dot_before(chars@, chars@.len() as int),
        decreases j,
    {
        j = j - 1;
    }
    if j > 1 {
        Some(j - 1)
    } else {
        None
    }
}

/// The stem of a file name (see [`spec_file_stem`]).
pub fn file_stem(file_name: &str) -> (stem: String)
    ensures
        stem@ == spec_file_stem(file_name@),
{
    let chars = crate::text::chars_of(file_name);
    match find_extension_dot(&chars) {
        Some(p) => {
            proof {
                lemma_last_dot_bound(chars@, chars@.len() as int);
            }
            String::from_str(file_name.substring_char(0, p))
        },
        None => String::from_str(file_name),
    }
}

/// Whether a file name has the extension `hex`.
pub fn is_hex_file(file_name: &str) -> (b: bool)
    ensures
        b == (spec_extension(file_name@) == Some(seq!['h', 'e', 'x'])),
{
    let chars = crate::text::chars_of(file_name);
    match find_extension_dot(&chars) {
        Some(p) => {
            proof {
                lemma_last_dot_bound(chars@, chars@.len() as int);
            }
            let n = chars.len();
            let b = n - p == 4 && chars[p + 1] == 'h' && chars[p + 2] == 'e' && chars[p + 3] == 'x';
            proof {
                let ext = chars@.skip(p + 1);
                if b {
                    assert(ext =~= seq!['h', 'e', 'x']);
                } else if ext.len() == 3 {
                    assert(ext[0] == chars@[p + 1] && ext[1] == chars@[p + 2] && ext[2] == chars@[p + 3]);
                }
            }
            b
        },
        None => false,
    }
}

} // verus!
