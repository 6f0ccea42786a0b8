//! Loading the configured palettes at startup.
//!
//! Each configured source names a group id, a display name and the text of its
//! palette file. Sources that share an id are combined into one palette, and
//! the groups are added in ascending id order.

use vstd::prelude::*;
use crate::color::Rgb;
use crate::palette::{Palette, PaletteView, ContentParse, content_outcome, content_defined};
use crate::manager::PaletteManager;
use crate::text::{decimal, push_decimal};

verus! {

/// One configured palette: its group id, its display name, and the text of
/// its palette file (`None` when the file is not known).
#[derive(Debug, Clone, PartialEq, Eq)]
pub struct PaletteSource {
    pub id: u32,
    pub name: String,
    pub data: Option<String>,
}

/// The sources of group `id`, in configuration order.
pub open spec fn group_members(sources: Seq<PaletteSource>, id: u32) -> Seq<PaletteSource>
    decreases sources.len(),
{
    if sources.len() == 0 {
        Seq::empty()
    } else {
        let rest = group_members(sources.drop_last(), id);
        if sources.last().id == id {
            rest.push(sources.last())
        } else {
            rest
        }
    }
}

/// Whether the file of source `s`, when known, reads to a result.
pub open spec fn source_defined(s: PaletteSource) -> bool {
    match s.data {
        Some(d) => content_defined(d@),
        None => true,
    }
}

/// Whether every known file of `sources` reads to a result.
pub open spec fn sources_defined(sources: Seq<PaletteSource>) -> bool {
    forall|i: int| 0 <= i < sources.len() ==> source_defined(#[trigger] sources[i])
}

/// The colors a source contributes: those of its file, when the file is
/// known and reads as a palette.
pub open spec fn source_colors(s: PaletteSource) -> Option<Seq<Rgb>> {
    match s.data {
        Some(d) => match content_outcome(d@) {
            ContentParse::Colors(cs) => if cs.len() > 0 {
                Some(cs)
            } else {
                None
            },
            _ => None,
        },
        None => None,
    }
}

/// The colors and the joined name of a group's members: the colors of every
/// member that loads, in order; the names of those members joined with
/// `" + "`, where the joining starts only from the group's first member (a
/// later member that loads after a first one that failed still gets the
/// separator in front of its name).
pub open spec fn combine_members(ms: Seq<PaletteSource>) -> (Seq<Rgb>, Seq<char>)
    decreases ms.len(),
{
    if ms.len() == 0 {
        (Seq::empty(), Seq::empty())
    } else {
        let (cs, name) = combine_members(ms.drop_last());
        let m = ms.last();
        match source_colors(m) {
            Some(more) => (cs + more, if ms.len() == 1 {
                m.name@
            } else {
                name + " + "@ + m.name@
            }),
            None => (cs, name),
        }
    }
}

/// The palette of group `id`, when any of its members loads: its colors, and
/// the name `ID<id>: <joined names>`, with ` (Combined)` after it when the
/// group has more than one member.
pub open spec fn group_palette(sources: Seq<PaletteSource>, id: u32) -> Option<PaletteView> {
    let ms = group_members(sources, id);
    let (cs, name) = combine_members(ms);
    if cs.len() == 0 {
        None
    } else {
        Some(
            PaletteView {
                colors: cs,
                name: Some(
                    "ID"@ + decimal(id as nat) + ": "@ + name + if ms.len() > 1 {
                        " (Combined)"@
                    } else {
                        Seq::<char>::empty()
                    },
                ),
            },
        )
    }
}

/// `m` is the least group id that is at least `lo`.
pub open spec fn is_min_id_from(sources: Seq<PaletteSource>, lo: int, m: u32) -> bool {
    &&& m >= lo
    &&& exists|i: int| 0 <= i < sources.len() && #[trigger] sources[i].id == m
    &&& forall|j: int| 0 <= j < sources.len() && sources[j].id >= lo ==> m <= #[trigger] sources[j].id
}

/// The palettes of the groups whose ids are at least `lo`, in ascending id order.
pub open spec fn groups_from(sources: Seq<PaletteSource>, lo: int) -> Seq<PaletteView>
    decreases 0x1_0000_0000 - lo,
{
    if lo < 0 || lo > u32::MAX {
        Seq::empty()
    } else if exists|m: u32| is_min_id_from(sources, lo, m) {
        let m = choose|m: u32| is_min_id_from(sources, lo, m);
        let rest = groups_from(sources, m + 1);
        match group_palette(sources, m) {
            Some(p) => seq![p] + rest,
            None => rest,
        }
    } else {
        Seq::empty()
    }
}

/// The palettes of all groups, in ascending id order.
pub open spec fn all_groups(sources: Seq<PaletteSource>) -> Seq<PaletteView> {
    groups_from(sources, 0)
}

/// The least group id at least `lo`, if any.
fn min_id_from(sources: &Vec<PaletteSource>, lo: u64) -> (r: Option<u32>)
    ensures
        r matches Some(m) ==> is_min_id_from(sources@, lo as int, m),
        r is None ==> !exists|m: u32| is_min_id_from(sources@, lo as int, m),
{
    let mut best: Option<u32> = None;
    let mut best_at: usize = 0;
    let mut j: usize = 0;
    while j < sources.len()
        invariant
            j <= sources.len(),
            best matches Some(b) ==> {
                &&& b >= lo
                &&& best_at < j
                &&& sources@[best_at as int].id == b
                &&& forall|k: int| 0 <= k < j && sources@[k].id >= lo ==> b <= #[trigger] sources@[k].id
            },
            best is None ==> forall|k: int| 0 <= k < j ==> #[trigger] sources@[k].id < lo,
        decreases sources.len() - j,
    {
        let id = sources[j].id;
        if (id as u64) >= lo {
            match best {
                Some(b) => if id < b {
                    best = Some(id);
                    best_at = j;
                },
                None => {
                    best = Some(id);
                    best_at = j;
                },
            }
        }
        j = j + 1;
    }
    proof {
        if let Some(b) = best {
            assert(sources@[best_at as int].id == b);
        } else {
            assert forall|m: u32| !is_min_id_from(sources@, lo as int, m) by {
                if is_min_id_from(sources@, lo as int, m) {
                    let i = choose|i: int| 0 <= i < sources@.len() && #[trigger] sources@[i].id == m;
                    assert(sources@[i].id < lo);
                }
            }
        }
    }
    best
}

/// Two least ids are the same id.
proof fn lemma_min_id_unique(sources: Seq<PaletteSource>, lo: int, m: u32, k: u32)
    requires
        is_min_id_from(sources, lo, m),
        is_min_id_from(sources, lo, k),
    ensures
        m == k,
{
    let i = choose|i: int| 0 <= i < sources.len() && #[trigger] sources[i].id == m;
    let j = choose|j: int| 0 <= j < sources.len() && #[trigger] sources[j].id == k;
    assert(k <= sources[i].id);
    assert(m <= sources[j].id);
}

/// Builds the palette of group `id` (see [`group_palette`]); `None` when no
/// member loads.
fn build_group(sources: &Vec<PaletteSource>, id: u32) -> (r: Option<Palette>)
    requires
        sources_defined(sources@),
    ensures
        match group_palette(sources@, id) {
            Some(p) => r is Some && r->Some_0@ == p,
            None => r is None,
        },
{
    let mut colors: Vec<Rgb> = Vec::new();
    let mut name = String::new();
    let mut count: usize = 0;
    let mut j: usize = 0;
    while j < sources.len()
        invariant
            j <= sources.len(),
            count <= j,
            sources_defined(sources@),
            count == group_members(sources@.take(j as int), id).len(),
            (colors@, name@) == combine_members(group_members(sources@.take(j as int), id)),
        decreases sources.len() - j,
    {
        let ghost before = sources@.take(j as int);
        assert(sources@.take(j + 1).drop_last() =~= before);
        assert(sources@.take(j + 1).last() == sources@[j as int]);
        let src = &sources[j];
        if src.id == id {
            let ghost ms = group_members(sources@.take(j + 1), id);
            assert(ms.drop_last() =~= group_members(before, id));
            match &src.data {
                Some(d) => {
                    match Palette::parse_hex_content(d.as_str(), Some(src.name.clone())) {
                        Ok(p) => {
                            let mut more = p.colors;
                            colors.append(&mut more);
                            if count == 0 {
                                name = src.name.clone();
                            } else {
                                name.append(" + ");
                                name.append(src.name.as_str());
                            }
                        },
                        Err(_) => {},
                    }
                },
                None => {},
            }
            count = count + 1;
        }
        j = j + 1;
    }
    assert(sources@.take(sources@.len() as int) =~= sources@);
    if colors.len() == 0 {
        None
    } else {
        let mut full = String::from_str("ID");
        push_decimal(&mut full, id as usize);
        full.append(": ");
        full.append(name.as_str());
        if count > 1 {
            full.append(" (Combined)");
        }
        proof {
            if count <= 1 {
                assert(full@ =~= "ID"@ + decimal(id as nat) + ": "@ + name@ + Seq::<char>::empty());
            }
        }
        Some(Palette { colors, name: Some(full) })
    }
}

/// Load the configured palettes into an empty manager: one palette per group
/// id, in ascending id order (see [`all_groups`]), the first one active.
/// A manager that already holds palettes is left as it is. Returns the number
/// of palettes added.
pub fn auto_load_palettes(manager: &mut PaletteManager, sources: &Vec<PaletteSource>) -> (loaded:
    usize)
    requires
        old(manager)@.palettes.len() == 0 ==> sources_defined(sources@),
    ensures
        final(manager).wf(),
        old(manager)@.palettes.len() > 0 ==> final(manager)@ == old(manager)@ && loaded == 0,
        old(manager)@.palettes.len() == 0 ==> {
            &&& loaded == all_groups(sources@).len()
            &&& final(manager)@.palettes.len() == loaded
            &&& forall|i: int|
                0 <= i < loaded ==> (#[trigger] final(manager)@.palettes[i])@ == all_groups(
                    sources@,
                )[i]
            &&& final(manager)@.current == if loaded > 0 {
                Some(0usize)
            } else {
                None
            }
        },
{
    if manager.len() > 0 {
        return 0;
    }
    let mut loaded: usize = 0;
    let mut lo: u64 = 0;
    let ghost mut done: Seq<PaletteView> = Seq::empty();
    while lo <= 0xffff_ffff
        invariant
            manager.wf(),
            lo <= 0x1_0000_0000,
            sources_defined(sources@),
            manager@.palettes.len() == loaded,
            done.len() == loaded,
            done + groups_from(sources@, lo as int) == all_groups(sources@),
            forall|i: int| 0 <= i < loaded ==> (#[trigger] manager@.palettes[i])@ == done[i],
            manager@.current == if loaded > 0 {
                Some(0usize)
            } else {
                None
            },
        ensures
            done =~= all_groups(sources@),
        decreases 0x1_0000_0000 - lo,
    {
        let m = match min_id_from(sources, lo) {
            Some(m) => m,
            None => {
                assert(groups_from(sources@, lo as int) =~= Seq::<PaletteView>::empty());
                assert(done =~= all_groups(sources@));
                break;
            },
        };
        proof {
            let c = choose|c: u32| is_min_id_from(sources@, lo as int, c);
            lemma_min_id_unique(sources@, lo as int, m, c);
        }
        let ghost rest = groups_from(sources@, m + 1);
        match build_group(sources, m) {
            Some(p) => {
                let ghost pv = p@;
                assert(groups_from(sources@, lo as int) =~= seq![pv] + rest);
                let ghost old_palettes = manager@.palettes;
                manager.add_palette(p);
                proof {
                    assert(done.push(pv) + rest =~= done + (seq![pv] + rest));
                    done = done.push(pv);
                    assert forall|i: int| 0 <= i < loaded + 1 implies (
                    #[trigger] manager@.palettes[i])@ == done[i] by {
                        if i < loaded {
                            assert(manager@.palettes[i] == old_palettes[i]);
                        }
                    }
                }
                loaded = loaded + 1;
            },
            None => {
                assert(groups_from(sources@, lo as int) =~= rest);
            },
        }
        lo = (m as u64) + 1;
    }
    loaded
}

/// With no id at or above `lo`, no groups remain.
proof fn lemma_groups_done(sources: Seq<PaletteSource>, lo: int)
    requires
        forall|i: int| 0 <= i < sources.len() ==> (#[trigger] sources[i]).id < lo,
    ensures
        groups_from(sources, lo) == Seq::<PaletteView>::empty(),
{
    if 0 <= lo <= u32::MAX {
        assert forall|m: u32| !is_min_id_from(sources, lo, m) by {
            if is_min_id_from(sources, lo, m) {
                let i = choose|i: int| 0 <= i < sources.len() && #[trigger] sources[i].id == m;
                assert(sources[i].id < lo);
            }
        }
    }
}

/// The groups from `lo` start with the group of the least id `m` at or above it.
proof fn lemma_groups_step(sources: Seq<PaletteSource>, lo: int, m: u32)
    requires
        0 <= lo,
        is_min_id_from(sources, lo, m),
    ensures
        groups_from(sources, lo) == match group_palette(sources, m) {
            Some(p) => seq![p] + groups_from(sources, m + 1),
            None => groups_from(sources, m + 1),
        },
{
    let k = choose|k: u32| is_min_id_from(sources, lo, k);
    lemma_min_id_unique(sources, lo, m, k);
}

/// Of two sources, the members of each id, in order.
proof fn lemma_two_members(a: PaletteSource, b: PaletteSource, id: u32)
    ensures
        group_members(seq![a, b], id) == if a.id == id && b.id == id {
            seq![a, b]
        } else if a.id == id {
            seq![a]
        } else if b.id == id {
            seq![b]
        } else {
            Seq::<PaletteSource>::empty()
        },
{
    let s = seq![a, b];
    assert(s.drop_last() =~= seq![a]);
    assert(seq![a].drop_last() =~= Seq::<PaletteSource>::empty());
    assert(group_members(Seq::<PaletteSource>::empty(), id) == Seq::<PaletteSource>::empty());
    if a.id == id {
        assert(group_members(seq![a], id) =~= seq![a]);
    } else {
        assert(group_members(seq![a], id) =~= Seq::<PaletteSource>::empty());
    }
    if a.id == id && b.id == id {
        assert(seq![a].push(b) =~= seq![a, b]);
    } else if b.id == id {
        assert(Seq::<PaletteSource>::empty().push(b) =~= seq![b]);
    }
}

/// The colors and name of a single member that loads.
proof fn lemma_combine_one(s: PaletteSource)
    requires
        source_colors(s) is Some,
    ensures
        combine_members(seq![s]) == (source_colors(s)->Some_0, s.name@),
{
    let ms = seq![s];
    let cs = source_colors(s)->Some_0;
    assert(ms.drop_last() =~= Seq::<PaletteSource>::empty());
    assert(ms.last() == s);
    assert(combine_members(Seq::<PaletteSource>::empty()) == (Seq::<Rgb>::empty(), Seq::<char>::empty()));
    assert(Seq::<Rgb>::empty() + cs =~= cs);
}

/// The colors and name of two members that load.
proof fn lemma_combine_two(a: PaletteSource, b: PaletteSource)
    requires
        source_colors(a) is Some,
        source_colors(b) is Some,
    ensures
        combine_members(seq![a, b]) == (source_colors(a)->Some_0 + source_colors(b)->Some_0,
            a.name@ + " + "@ + b.name@),
{
    let ms = seq![a, b];
    assert(ms.drop_last() =~= seq![a]);
    assert(ms.last() == b);
    lemma_combine_one(a);
}

/// A group of one source whose file loads is that file's colors, named
/// `ID<id>: <name>`.
proof fn lemma_one_member(sources: Seq<PaletteSource>, s: PaletteSource)
    requires
        group_members(sources, s.id) == seq![s],
        source_colors(s) is Some,
    ensures
        group_palette(sources, s.id) == Some(
            PaletteView {
                colors: source_colors(s)->Some_0,
                name: Some("ID"@ + decimal(s.id as nat) + ": "@ + s.name@),
            },
        ),
{
    lemma_combine_one(s);
    assert("ID"@ + decimal(s.id as nat) + ": "@ + s.name@ + Seq::<char>::empty() =~= "ID"@
        + decimal(s.id as nat) + ": "@ + s.name@);
}

/// Two sources of one id whose files load make a single palette.
proof fn lemma_same_id(a: PaletteSource, b: PaletteSource)
    requires
        source_colors(a) is Some,
        source_colors(b) is Some,
        a.id == b.id,
    ensures
        all_groups(seq![a, b]) == seq![
            PaletteView {
                colors: source_colors(a)->Some_0 + source_colors(b)->Some_0,
                name: Some(
                    "ID"@ + decimal(a.id as nat) + ": "@ + a.name@ + " + "@ + b.name@
                        + " (Combined)"@,
                ),
            },
        ],
{
    let s = seq![a, b];
    assert(s[0] == a && s[1] == b);
    lemma_two_members(a, b, a.id);
    assert(is_min_id_from(s, 0, a.id));
    lemma_groups_step(s, 0, a.id);
    lemma_groups_done(s, a.id + 1);
    lemma_combine_two(a, b);
    let cs = source_colors(a)->Some_0 + source_colors(b)->Some_0;
    assert(cs.len() > 0);
    let p = PaletteView {
        colors: cs,
        name: Some(
            "ID"@ + decimal(a.id as nat) + ": "@ + a.name@ + " + "@ + b.name@ + " (Combined)"@,
        ),
    };
    let joined = a.name@ + " + "@ + b.name@;
    assert(group_members(s, a.id).len() > 1);
    assert("ID"@ + decimal(a.id as nat) + ": "@ + joined + " (Combined)"@ =~= "ID"@ + decimal(
        a.id as nat,
    ) + ": "@ + a.name@ + " + "@ + b.name@ + " (Combined)"@);
    assert(group_palette(s, a.id) == Some(p));
    assert(groups_from(s, a.id + 1) == Seq::<PaletteView>::empty());
    assert(groups_from(s, 0) == seq![p] + Seq::<PaletteView>::empty());
    assert(seq![p] + Seq::<PaletteView>::empty() =~= seq![p]);
}

/// Two sources of different ids whose files load make one palette each, the
/// lower id first.
proof fn lemma_two_ids(a: PaletteSource, b: PaletteSource)
    requires
        source_colors(a) is Some,
        source_colors(b) is Some,
        a.id < b.id,
    ensures
        all_groups(seq![a, b]) == seq![
            PaletteView {
                colors: source_colors(a)->Some_0,
                name: Some("ID"@ + decimal(a.id as nat) + ": "@ + a.name@),
            },
            PaletteView {
                colors: source_colors(b)->Some_0,
                name: Some("ID"@ + decimal(b.id as nat) + ": "@ + b.name@),
            },
        ],
        all_groups(seq![b, a]) == seq![
            PaletteView {
                colors: source_colors(a)->Some_0,
                name: Some("ID"@ + decimal(a.id as nat) + ": "@ + a.name@),
            },
            PaletteView {
                colors: source_colors(b)->Some_0,
                name: Some("ID"@ + decimal(b.id as nat) + ": "@ + b.name@),
            },
        ],
{
    let s1 = seq![a, b];
    let s2 = seq![b, a];
    assert(s1[0] == a && s1[1] == b);
    assert(s2[0] == b && s2[1] == a);
    lemma_two_members(a, b, a.id);
    lemma_two_members(a, b, b.id);
    lemma_two_members(b, a, a.id);
    lemma_two_members(b, a, b.id);
    lemma_two_ids_in(a, b, s1);
    lemma_two_ids_in(a, b, s2);
}

proof fn lemma_two_ids_in(a: PaletteSource, b: PaletteSource, s: Seq<PaletteSource>)
    requires
        source_colors(a) is Some,
        source_colors(b) is Some,
        a.id < b.id,
        s.len() == 2,
        (s[0] == a && s[1] == b) || (s[0] == b && s[1] == a),
        group_members(s, a.id) == seq![a],
        group_members(s, b.id) == seq![b],
    ensures
        all_groups(s) == seq![
            PaletteView {
                colors: source_colors(a)->Some_0,
                name: Some("ID"@ + decimal(a.id as nat) + ": "@ + a.name@),
            },
            PaletteView {
                colors: source_colors(b)->Some_0,
                name: Some("ID"@ + decimal(b.id as nat) + ": "@ + b.name@),
            },
        ],
{
    lemma_one_member(s, a);
    lemma_one_member(s, b);
    let pa = group_palette(s, a.id)->Some_0;
    let pb = group_palette(s, b.id)->Some_0;
    assert(is_min_id_from(s, 0, a.id));
    lemma_groups_step(s, 0, a.id);
    assert(is_min_id_from(s, a.id + 1, b.id));
    lemma_groups_step(s, a.id + 1, b.id);
    lemma_groups_done(s, b.id + 1);
    assert(groups_from(s, a.id + 1) == seq![pb] + Seq::<PaletteView>::empty());
    assert(groups_from(s, 0) == seq![pa] + groups_from(s, a.id + 1));
    assert(seq![pa] + (seq![pb] + Seq::<PaletteView>::empty()) =~= seq![pa, pb]);
}

/// Two sources whose files load: with one id they make a single palette, the
/// first source's colors then the second's, named `ID<id>: <first> + <second>
/// (Combined)`; with two ids they make one palette each, the lower id first,
/// each named `ID<id>: <name>`, whichever source comes first.
pub proof fn law_two_sources(a: PaletteSource, b: PaletteSource)
    requires
        source_colors(a) is Some,
        source_colors(b) is Some,
    ensures
        ({
            let ca = source_colors(a)->Some_0;
            let cb = source_colors(b)->Some_0;
            let pa = PaletteView {
                colors: ca,
                name: Some("ID"@ + decimal(a.id as nat) + ": "@ + a.name@),
            };
            let pb = PaletteView {
                colors: cb,
                name: Some("ID"@ + decimal(b.id as nat) + ": "@ + b.name@),
            };
            &&& a.id == b.id ==> all_groups(seq![a, b]) == seq![
                PaletteView {
                    colors: ca + cb,
                    name: Some(
                        "ID"@ + decimal(a.id as nat) + ": "@ + a.name@ + " + "@ + b.name@
                            + " (Combined)"@,
                    ),
                },
            ]
            &&& a.id < b.id ==> all_groups(seq![a, b]) == seq![pa, pb]
            &&& a.id > b.id ==> all_groups(seq![a, b]) == seq![pb, pa]
        }),
{
    if a.id == b.id {
        lemma_same_id(a, b);
    } else if a.id < b.id {
        lemma_two_ids(a, b);
    } else {
        lemma_two_ids(b, a);
    }
}

} // verus!
