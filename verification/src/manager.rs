//! The palette manager: the palettes that are loaded and which one is active.

use vstd::prelude::*;
use crate::error::{PaletteError, PaletteErrorView};
use crate::palette::{Palette, PaletteView, content_defined, content_outcome, ContentParse};
use crate::text::{decimal, push_decimal};

verus! {

/// Manages the available palettes and the active one.
pub struct PaletteManager {
    palettes: Vec<Palette>,
    /// The active palette's index; meaningful only when there are palettes
    /// (it is then below their number), and 0 otherwise.
    current_palette_index: usize,
}

impl PaletteManager {
    /// The active index names one of the palettes, or there are none and it is 0.
    #[verifier::type_invariant]
    spec fn active_index_in_range(self) -> bool {
        ||| self.current_palette_index < self.palettes.len()
        ||| (self.palettes.len() == 0 && self.current_palette_index == 0)
    }
}

/// The state of a [`PaletteManager`]: its palettes and the active index.
pub struct ManagerView {
    pub palettes: Seq<Palette>,
    pub current: Option<usize>,
}

impl View for PaletteManager {
    type V = ManagerView;

    closed spec fn view(&self) -> ManagerView {
        ManagerView {
            palettes: self.palettes@,
            current: if self.palettes.len() == 0 {
                None
            } else {
                Some(self.current_palette_index)
            },
        }
    }
}

/// A manager state is consistent when the active index names one of its
/// palettes, and there is an active palette exactly when there are palettes.
pub open spec fn manager_wf(m: ManagerView) -> bool {
    &&& m.palettes.len() <= usize::MAX
    &&& match m.current {
        Some(i) => i < m.palettes.len(),
        None => m.palettes.len() == 0,
    }
}

/// The index `next_palette` moves to: one further, wrapping around to the first.
pub open spec fn next_index(current: Option<usize>, len: nat) -> Option<usize> {
    if len == 0 {
        None
    } else {
        let c: int = match current {
            Some(c) => c as int,
            None => 0,
        };
        Some(((c + 1) % (len as int)) as usize)
    }
}

/// The index `prev_palette` moves to: one back, wrapping around to the last.
pub open spec fn prev_index(current: Option<usize>, len: nat) -> Option<usize> {
    if len == 0 {
        None
    } else {
        let c: int = match current {
            Some(c) => c as int,
            None => 0,
        };
        Some((if c == 0 {
            len - 1
        } else {
            c - 1
        }) as usize)
    }
}

/// The display name of palette `p` at index `i`: its own name, or `Palette <i>`.
pub open spec fn palette_display_name(p: Palette, i: nat) -> Seq<char> {
    match p@.name {
        Some(n) => n,
        None => "Palette "@ + decimal(i),
    }
}

/// The error for selecting palette `index` among `len` palettes.
pub open spec fn index_error(index: nat, len: nat) -> PaletteErrorView {
    PaletteErrorView::ParseError(
        "Palette index "@ + decimal(index) + " out of range (have "@ + decimal(len) + " palettes)"@,
    )
}

/// The state after adding palette `p` to state `m`: `p` comes last, and it
/// becomes the active palette when there was none.
pub open spec fn after_add(m: ManagerView, p: Palette) -> ManagerView {
    ManagerView {
        palettes: m.palettes.push(p),
        current: match m.current {
            Some(i) => Some(i),
            None => Some(m.palettes.len() as usize),
        },
    }
}

impl PaletteManager {
    /// Whether this manager's state is consistent (see [`manager_wf`]).
    pub open spec fn wf(&self) -> bool {
        manager_wf(self@)
    }

    /// Create a new palette manager with no palette.
    pub fn new() -> (m: PaletteManager)
        ensures
            m@.palettes == Seq::<Palette>::empty(),
            m@.current is None,
            m.wf(),
    {
        PaletteManager { palettes: Vec::new(), current_palette_index: 0 }
    }

    /// Add a palette to the manager; it becomes the active palette when it is
    /// the first. Returns its index.
    pub fn add_palette(&mut self, palette: Palette) -> (index: usize)
        ensures
            final(self)@ == after_add(old(self)@, palette),
            index == old(self)@.palettes.len(),
            final(self).wf(),
    {
        proof {
            use_type_invariant(&*self);
        }
        // Move the palettes out and back so that every intermediate state keeps
        // the active index in range; the index itself does not change.
        let current = self.current_palette_index;
        self.current_palette_index = 0;
        let mut palettes: Vec<Palette> = Vec::new();
        std::mem::swap(&mut palettes, &mut self.palettes);
        palettes.push(palette);
        let index = palettes.len() - 1;
        std::mem::swap(&mut palettes, &mut self.palettes);
        self.current_palette_index = current;
        index
    }

    /// Parse palette-file text (see [`Palette::parse_hex_content`]) under the
    /// given name and add the palette. On an error the manager is unchanged.
    pub fn load_palette_from_embedded_hex(&mut self, hex_data: &str, name: &str) -> (r: Result<
        usize,
        PaletteError,
    >)
        requires
            content_defined(hex_data@),
        ensures
            final(self).wf(),
            match content_outcome(hex_data@) {
                ContentParse::Colors(cs) => if cs.len() == 0 {
                    &&& r is Err && r->Err_0@ == PaletteErrorView::EmptyPalette
                    &&& final(self)@ == old(self)@
                } else {
                    &&& r == Ok::<usize, PaletteError>(old(self)@.palettes.len() as usize)
                    &&& final(self)@.palettes.len() == old(self)@.palettes.len() + 1
                    &&& final(self)@.palettes.last()@ == (PaletteView { colors: cs, name: Some(name@) })
                    &&& final(self)@.palettes.drop_last() == old(self)@.palettes
                    &&& final(self)@.current == after_add(old(self)@, final(self)@.palettes.last()).current
                },
                ContentParse::Failed(e) => r is Err && r->Err_0@ == e && final(self)@ == old(self)@,
                ContentParse::Panics => false,
            },
    {
        proof {
            use_type_invariant(&*self);
        }
        let palette = Palette::parse_hex_content(hex_data, Some(String::from_str(name)));
        match palette {
            Ok(p) => {
                let i = self.add_palette(p);
                assert(self@.palettes.drop_last() =~= old(self)@.palettes);
                Ok(i)
            },
            Err(e) => Err(e),
        }
    }

    /// The active palette, if any.
    pub fn current_palette(&self) -> (r: Option<&Palette>)
        ensures
            match self@.current {
                Some(i) => if i < self@.palettes.len() {
                    r is Some && *r->Some_0 == self@.palettes[i as int]
                } else {
                    r is None
                },
                None => r is None,
            },
    {
        proof {
            use_type_invariant(self);
        }
        if self.palettes.len() == 0 {
            None
        } else {
            Some(&self.palettes[self.current_palette_index])
        }
    }

    /// Make palette `index` the active one; an error when there is no such palette.
    pub fn set_current_palette(&mut self, index: usize) -> (r: Result<(), PaletteError>)
        ensures
            final(self).wf(),
            final(self)@.palettes == old(self)@.palettes,
            index < old(self)@.palettes.len() ==> r is Ok && final(self)@.current == Some(index),
            index >= old(self)@.palettes.len() ==> r is Err && r->Err_0@ == index_error(
                index as nat,
                old(self)@.palettes.len(),
            ) && final(self)@ == old(self)@,
    {
        proof {
            use_type_invariant(&*self);
        }
        if index < self.palettes.len() {
            self.current_palette_index = index;
            Ok(())
        } else {
            let mut m = String::from_str("Palette index ");
            push_decimal(&mut m, index);
            m.append(" out of range (have ");
            push_decimal(&mut m, self.palettes.len());
            m.append(" palettes)");
            Err(PaletteError::ParseError(m))
        }
    }

    /// The display names of all palettes, in order (see [`palette_display_name`]).
    pub fn palette_names(&self) -> (names: Vec<String>)
        ensures
            names@.len() == self@.palettes.len(),
            forall|i: int|
                0 <= i < names@.len() ==> #[trigger] names@[i]@ == palette_display_name(
                    self@.palettes[i],
                    i as nat,
                ),
    {
        let mut names: Vec<String> = Vec::new();
        let mut i: usize = 0;
        while i < self.palettes.len()
            invariant
                i <= self.palettes.len(),
                names@.len() == i,
                forall|j: int|
                    0 <= j < i ==> #[trigger] names@[j]@ == palette_display_name(
                        self@.palettes[j],
                        j as nat,
                    ),
            decreases self.palettes.len() - i,
        {
            let name = match &self.palettes[i].name {
                Some(n) => n.clone(),
                None => {
                    let mut s = String::from_str("Palette ");
                    push_decimal(&mut s, i);
                    s
                },
            };
            names.push(name);
            i = i + 1;
        }
        names
    }

    /// The number of palettes.
    pub fn len(&self) -> (n: usize)
        ensures
            n == self@.palettes.len(),
            self.wf(),
    {
        proof {
            use_type_invariant(self);
        }
        self.palettes.len()
    }

    /// Whether the manager has no palette.
    pub fn is_empty(&self) -> (b: bool)
        ensures
            b == (self@.palettes.len() == 0),
    {
        self.palettes.len() == 0
    }

    /// The palette at `index`, if there is one.
    pub fn get_palette(&self, index: usize) -> (r: Option<&Palette>)
        ensures
            index < self@.palettes.len() ==> r is Some && *r->Some_0 == self@.palettes[index as int],
            index >= self@.palettes.len() ==> r is None,
    {
        if index < self.palettes.len() {
            Some(&self.palettes[index])
        } else {
            None
        }
    }

    /// Switch to the next palette, wrapping around after the last; `None`
    /// (and no change) when there is no palette.
    pub fn next_palette(&mut self) -> (r: Option<usize>)
        ensures
            final(self).wf(),
            r == next_index(old(self)@.current, old(self)@.palettes.len()),
            final(self)@.palettes == old(self)@.palettes,
            final(self)@.current == if old(self)@.palettes.len() == 0 {
                old(self)@.current
            } else {
                r
            },
    {
        proof {
            use_type_invariant(&*self);
        }
        if self.palettes.len() == 0 {
            return None;
        }
        let current = self.current_palette_index;
        let next = (current + 1) % self.palettes.len();
        self.current_palette_index = next;
        Some(next)
    }

    /// Switch to the previous palette, wrapping around before the first;
    /// `None` (and no change) when there is no palette.
    pub fn prev_palette(&mut self) -> (r: Option<usize>)
        ensures
            final(self).wf(),
            r == prev_index(old(self)@.current, old(self)@.palettes.len()),
            final(self)@.palettes == old(self)@.palettes,
            final(self)@.current == if old(self)@.palettes.len() == 0 {
                old(self)@.current
            } else {
                r
            },
    {
        proof {
            use_type_invariant(&*self);
        }
        if self.palettes.len() == 0 {
            return None;
        }
        let current = self.current_palette_index;
        let prev = if current == 0 {
            self.palettes.len() - 1
        } else {
            current - 1
        };
        self.current_palette_index = prev;
        Some(prev)
    }

    /// The index of the active palette, if any.
    pub fn current_palette_index(&self) -> (r: Option<usize>)
        ensures
            r == self@.current,
    {
        proof {
            use_type_invariant(self);
        }
        if self.palettes.len() == 0 {
            None
        } else {
            Some(self.current_palette_index)
        }
    }

    /// Remove all palettes.
    pub fn clear(&mut self)
        ensures
            final(self)@.palettes == Seq::<Palette>::empty(),
            final(self)@.current is None,
            final(self).wf(),
    {
        self.current_palette_index = 0;
        self.palettes = Vec::new();
    }
}

/// The active index after `k` calls of `next_palette` from `current`.
pub open spec fn next_index_iter(current: Option<usize>, len: nat, k: nat) -> Option<usize>
    decreases k,
{
    if k == 0 {
        current
    } else {
        next_index(next_index_iter(current, len, (k - 1) as nat), len)
    }
}

/// Switching to the previous palette undoes switching to the next one, and
/// the other way round, in every consistent state with palettes.
pub proof fn law_prev_undoes_next(m: ManagerView)
    requires
        manager_wf(m),
        m.palettes.len() > 0,
    ensures
        prev_index(next_index(m.current, m.palettes.len()), m.palettes.len()) == m.current,
        next_index(prev_index(m.current, m.palettes.len()), m.palettes.len()) == m.current,
{
    let n = m.palettes.len() as int;
    let c = m.current->Some_0 as int;
    assert(0 <= c < n);
    if c + 1 < n {
        assert((c + 1) % n == c + 1) by (nonlinear_arith)
            requires
                0 <= c + 1 < n,
        ;
    } else {
        assert((c + 1) % n == 0) by (nonlinear_arith)
            requires
                c + 1 == n,
                n > 0,
        ;
    }
    if c == 0 {
        assert((n - 1 + 1) % n == 0) by (nonlinear_arith)
            requires
                n > 0,
        ;
    } else {
        assert((c - 1 + 1) % n == c) by (nonlinear_arith)
            requires
                0 < c < n,
        ;
    }
}

/// Switching to the next palette moves one index up, from the last palette
/// to the first; switching to the previous one moves one index down, from
/// the first palette to the last.
pub proof fn law_switch_steps(m: ManagerView)
    requires
        manager_wf(m),
        m.palettes.len() > 0,
    ensures
        ({
            let c = m.current->Some_0 as int;
            let n = m.palettes.len() as int;
            &&& c + 1 < n ==> next_index(m.current, m.palettes.len()) == Some((c + 1) as usize)
            &&& c + 1 == n ==> next_index(m.current, m.palettes.len()) == Some(0usize)
            &&& c > 0 ==> prev_index(m.current, m.palettes.len()) == Some((c - 1) as usize)
            &&& c == 0 ==> prev_index(m.current, m.palettes.len()) == Some((n - 1) as usize)
        }),
{
    let n = m.palettes.len() as int;
    let c = m.current->Some_0 as int;
    if c + 1 < n {
        vstd::arithmetic::div_mod::lemma_small_mod((c + 1) as nat, n as nat);
    } else {
        vstd::arithmetic::div_mod::lemma_mod_self_0(n);
    }
}

/// `k` switches to the next palette from index `c` land on index `(c + k) mod len`.
pub proof fn lemma_next_index_iter(c: usize, len: nat, k: nat)
    requires
        c < len <= usize::MAX,
    ensures
        next_index_iter(Some(c), len, k) == Some(((c + k) % (len as int)) as usize),
    decreases k,
{
    let n = len as int;
    if k > 0 {
        lemma_next_index_iter(c, len, (k - 1) as nat);
        let x = c + k - 1;
        vstd::arithmetic::div_mod::lemma_mod_pos_bound(x, n);
        vstd::arithmetic::div_mod::lemma_add_mod_noop(x, 1, n);
        vstd::arithmetic::div_mod::lemma_add_mod_noop_right(x % n, 1, n);
        vstd::arithmetic::div_mod::lemma_mod_pos_bound(x + 1, n);
    } else {
        vstd::arithmetic::div_mod::lemma_small_mod(c as nat, len);
    }
}

/// Switching to the next palette as many times as there are palettes comes
/// back to the palette one started from.
pub proof fn law_next_cycles(m: ManagerView)
    requires
        manager_wf(m),
        m.palettes.len() > 0,
    ensures
        next_index_iter(m.current, m.palettes.len(), m.palettes.len()) == m.current,
{
    let c = m.current->Some_0;
    let n = m.palettes.len();
    lemma_next_index_iter(c, n, n);
    vstd::arithmetic::div_mod::lemma_mod_add_multiples_vanish(c as int, n as int);
    vstd::arithmetic::div_mod::lemma_small_mod(c as nat, n);
}

impl Default for PaletteManager {
    fn default() -> (m: PaletteManager)
        ensures
            m@.palettes == Seq::<Palette>::empty(),
            m@.current is None,
            m.wf(),
    {
        PaletteManager::new()
    }
}

} // verus!
