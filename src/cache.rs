//! The theme cache: one cursor theme per scale factor, loaded on first use
//! and kept for good.
use vstd::prelude::*;
use wayland_cursor::CursorTheme;
use crate::model::{after_lookup, BASE_CURSOR_SIZE, MAX_SCALE};
use crate::protocol::{c_compatible, load_theme, AttachedShm};

verus! {

/// Cursor themes of one name, one per scale factor, at `16 * scale` pixels.
/// A theme that failed to load is kept like any other: the cache never
/// loads a scale twice.
pub struct ThemeCache {
    shm: AttachedShm,
    name: Option<String>,
    themes: Vec<(u32, CursorTheme)>,
    loads: Ghost<Seq<u32>>,
}

impl ThemeCache {
    /// The cached themes with their scales, in the order of loading.
    pub closed spec fn entries(&self) -> Seq<(u32, CursorTheme)> {
        self.themes@
    }

    /// The scale of every cached theme, in the order of loading.
    pub closed spec fn scales(&self) -> Seq<u32> {
        self.themes@.map_values(|e: (u32, CursorTheme)| e.0)
    }

    /// The scale of every theme load made so far, in order: a ghost record
    /// written beside the one call that loads a theme.
    pub closed spec fn loads(&self) -> Seq<u32> {
        self.loads@
    }

    /// The shared-memory global that backs the cursor images.
    pub closed spec fn shm(&self) -> AttachedShm {
        self.shm
    }

    /// The name of the theme, `None` for the system's default.
    pub closed spec fn theme_name(&self) -> Option<Seq<char>> {
        match self.name {
            Some(n) => Some(n@),
            None => None,
        }
    }

    /// No scale is loaded twice, each loaded scale is a valid one, and the
    /// theme's name can be handed to the cursor library.
    pub closed spec fn wf(&self) -> bool {
        &&& self.scales().no_duplicates()
        &&& self.loads() == self.scales()
        &&& forall|i: int| 0 <= i < self.scales().len() ==> 1 <= #[trigger] self.scales()[i] <= MAX_SCALE
        &&& self.name matches Some(n) ==> c_compatible(n@)
    }

    /// This cache is `before` after a lookup at `scale`: the theme for a
    /// scale already cached is used as it is, with no load; a new scale gets
    /// one load, whose theme is appended, and nothing cached is replaced.
    pub open spec fn looked_up(&self, before: &ThemeCache, scale: u32) -> bool {
        &&& self.scales() == after_lookup(before.scales(), scale)
        &&& self.loads() == after_lookup(before.loads(), scale)
        &&& self.theme_name() == before.theme_name()
        &&& self.shm() == before.shm()
        &&& before.scales().contains(scale) ==> self.entries() == before.entries()
        &&& !before.scales().contains(scale) ==> {
            &&& self.entries().len() == before.entries().len() + 1
            &&& self.entries().drop_last() == before.entries()
            &&& self.entries().last().0 == scale
        }
    }

    /// An empty cache for the theme `name` (the default theme for `None`).
    /// Only made once the cursor library is known to be usable.
    pub(crate) fn new(name: Option<String>, shm: AttachedShm) -> (r: ThemeCache)
        requires
            name matches Some(n) ==> c_compatible(n@),
        ensures
            r.wf(),
            r.entries() == Seq::<(u32, CursorTheme)>::empty(),
            r.scales() == Seq::<u32>::empty(),
            r.loads() == Seq::<u32>::empty(),
            r.shm() == shm,
            r.theme_name() == (match name {
                Some(n) => Some(n@),
                None => None::<Seq<char>>,
            }),
    {
        let r = ThemeCache { shm, name, themes: Vec::new(), loads: Ghost(Seq::empty()) };
        assert(r.scales() =~= Seq::<u32>::empty());
        r
    }

    /// Where the theme for `scale` stands, if it was loaded.
    fn position(&self, scale: u32) -> (r: Option<usize>)
        ensures
            r matches Some(i) ==> i < self.scales().len() && self.scales()[i as int] == scale,
            r is None ==> !self.scales().contains(scale),
    {
        let mut i: usize = 0;
        while i < self.themes.len()
            invariant
                i <= self.themes@.len(),
                forall|j: int| 0 <= j < i ==> self.scales()[j] != scale,
            decreases self.themes@.len() - i,
        {
            if self.themes[i].0 == scale {
                return Some(i);
            }
            i = i + 1;
        }
        None
    }

    /// The index of the theme for `scale`, which is loaded now if it was not
    /// before: the only place where a theme is loaded.
    pub fn theme_index(&mut self, scale: u32) -> (r: usize)
        requires
            old(self).wf(),
            1 <= scale <= MAX_SCALE,
        ensures
            final(self).wf(),
            final(self).looked_up(old(self), scale),
            final(self).scales() == after_lookup(old(self).scales(), scale),
            final(self).loads() == after_lookup(old(self).loads(), scale),
            final(self).theme_name() == old(self).theme_name(),
            final(self).shm() == old(self).shm(),
            old(self).scales().contains(scale) ==> final(self).entries() == old(self).entries(),
            !old(self).scales().contains(scale) ==> {
                &&& final(self).entries().len() == old(self).entries().len() + 1
                &&& final(self).entries().drop_last() == old(self).entries()
                &&& final(self).entries().last().0 == scale
            },
            r < final(self).scales().len(),
            final(self).scales()[r as int] == scale,
    {
        match self.position(scale) {
            Some(i) => i,
            None => {
                let theme = load_theme(&self.name, BASE_CURSOR_SIZE * scale, &self.shm);
                self.themes.push((scale, theme));
                self.loads = Ghost(self.loads@.push(scale));
                assert(self.themes@.drop_last() =~= old(self).themes@);
                let ghost before = old(self).scales();
                assert(self.scales() =~= before.push(scale));
                assert forall|i: int, j: int|
                    0 <= i < self.scales().len() && 0 <= j < self.scales().len() && i != j
                    implies self.scales()[i] != self.scales()[j] by {
                    if i < before.len() && j < before.len() {
                    } else if i < before.len() {
                        assert(before[i] == self.scales()[i]);
                    } else {
                        assert(before[j] == self.scales()[j]);
                    }
                }
                self.themes.len() - 1
            },
        }
    }

    /// The theme at index `i`, as `theme_index` gave it.
    pub fn theme_at(&self, i: usize) -> (r: &CursorTheme)
        requires
            i < self.scales().len(),
        ensures
            *r == self.entries()[i as int].1,
    {
        &self.themes[i].1
    }
}

/// A lookup at a scale that some earlier lookup, for whatever pointer and
/// cursor name, already loaded makes no load and leaves every cached theme
/// in place, even one whose load found no theme: a failed load is never
/// tried again.
pub proof fn lemma_cached_scale_loads_nothing(before: &ThemeCache, after: &ThemeCache, scale: u32)
    requires
        before.wf(),
        after.looked_up(before, scale),
        before.scales().contains(scale),
    ensures
        after.loads() == before.loads(),
        after.entries() == before.entries(),
        after.scales() == before.scales(),
{
}

} // verus!
