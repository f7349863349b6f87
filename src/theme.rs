//! The theme manager and the themed pointers it hands out.
//!
//! The manager owns the shared theme cache and, for every pointer it themed,
//! the pointer's surface and settings and the count of handles that still
//! refer to it. A `ThemedPointer` is such a handle: its operations take the
//! manager that made it.
use vstd::prelude::*;
use wayland_client::protocol::wl_pointer::WlPointer;
use wayland_cursor::CursorImageBuffer;
use crate::cache::ThemeCache;
use crate::model::{
    after_lookup, chosen_serial, initial_settings, lemma_destroyed_once, lemma_update_keeps_surface, lifecycle_ok, plan_update,
    takes_buffer_damage, takes_buffer_scale, update_ops, Frame, PointerSettings, SurfaceOp, DEFAULT_CURSOR, MAX_SCALE,
};
use crate::protocol::{
    attach, bind_surface, c_compatible, clone_pointer, commit, cursor_library_available, cursor_named, damage,
    damage_buffer, frame_buffer, frame_info, set_buffer_scale, set_pointer_cursor, AttachedCompositor, AttachedShm,
    BoundSurface,
};

verus! {

/// Whether `s` can be handed to the cursor library: it holds no NUL byte.
pub fn is_c_compatible(s: &str) -> (r: bool)
    ensures
        r == c_compatible(s@),
{
    let bytes = s.as_bytes();
    let mut i: usize = 0;
    while i < bytes.len()
        invariant
            bytes@ == vstd::utf8::encode_utf8(s@),
            i <= bytes@.len(),
            forall|j: int| 0 <= j < i ==> bytes@[j] != 0u8,
        decreases bytes@.len() - i,
    {
        if bytes[i] == 0 {
            return false;
        }
        i = i + 1;
    }
    true
}

/// The default cursor's name can be handed to the cursor library.
proof fn lemma_default_cursor_compatible()
    ensures
        c_compatible(DEFAULT_CURSOR@),
{
    reveal_strlit("left_ptr");
    let chars = DEFAULT_CURSOR@;
    assert(vstd::utf8::is_ascii_chars(chars));
    vstd::utf8::is_ascii_chars_encode_utf8(chars);
    let bytes = vstd::utf8::encode_utf8(chars);
    assert forall|i: int| 0 <= i < bytes.len() implies bytes[i] != 0u8 by {
        assert(chars[i] as u8 == bytes[i]);
    }
}

/// Sends `ops` in order on the pointer's surface, none of them a `destroy`.
/// `log` is a ghost record written here beside each call, one entry per
/// request made: it is kept by this code, not by the calls themselves.
fn send(
    surface: &BoundSurface,
    pointer: &WlPointer,
    buffer: &CursorImageBuffer,
    ops: &Vec<SurfaceOp>,
    log: &mut Ghost<Seq<SurfaceOp>>,
)
    requires
        !surface.is_destroyed(),
        forall|i: int|
            0 <= i < ops@.len() ==> {
                &&& #[trigger] ops@[i] != SurfaceOp::Destroy
                &&& ops@[i] is SetBufferScale ==> surface.version() >= 3
                &&& ops@[i] is DamageBuffer ==> surface.version() >= 4
            },
    ensures
        final(log)@ == old(log)@ + ops@,
{
    let mut i: usize = 0;
    while i < ops.len()
        invariant
            i <= ops@.len(),
            log@ == old(log)@ + ops@.take(i as int),
            !surface.is_destroyed(),
            forall|i: int|
                0 <= i < ops@.len() ==> {
                    &&& #[trigger] ops@[i] != SurfaceOp::Destroy
                    &&& ops@[i] is SetBufferScale ==> surface.version() >= 3
                    &&& ops@[i] is DamageBuffer ==> surface.version() >= 4
                },
        decreases ops@.len() - i,
    {
        match ops[i] {
            SurfaceOp::SetBufferScale(scale) => set_buffer_scale(surface, scale),
            SurfaceOp::Attach { x, y } => attach(surface, buffer, x, y),
            SurfaceOp::Damage { x, y, width, height } => damage(surface, x, y, width, height),
            SurfaceOp::DamageBuffer { x, y, width, height } => damage_buffer(surface, x, y, width, height),
            SurfaceOp::Commit => commit(surface),
            SurfaceOp::SetCursor { serial, hotspot_x, hotspot_y } => set_pointer_cursor(
                pointer,
                serial,
                surface,
                hotspot_x,
                hotspot_y,
            ),
            SurfaceOp::Destroy => {},
        }
        proof {
            assert(ops@.take(i + 1) =~= ops@.take(i as int).push(ops@[i as int]));
        }
        *log = Ghost(log@.push(ops@[i as int]));
        i = i + 1;
    }
    assert(ops@.take(ops@.len() as int) =~= ops@);
}

/// A system cursor theme, shared by every pointer it themes.
pub struct ThemeManager {
    themes: ThemeCache,
    compositor: AttachedCompositor,
    surfaces: Vec<BoundSurface>,
    settings: Vec<PointerSettings>,
    handles: Vec<usize>,
    requests: Ghost<Seq<Seq<SurfaceOp>>>,
}

/// A handle to a pointer themed by a `ThemeManager`. It wraps the pointer
/// proxy, which it never releases. A counted handle keeps the pointer's
/// surface alive; one that an event handler is given does not.
pub struct ThemedPointer {
    pointer: WlPointer,
    key: usize,
    counted: bool,
}

impl ThemedPointer {
    /// Which of its manager's pointers this handle refers to.
    pub closed spec fn id(&self) -> int {
        self.key as int
    }

    /// Which of its manager's pointers this handle refers to.
    pub fn key(&self) -> (r: usize)
        ensures
            r == self.id(),
    {
        self.key
    }

    /// A handle for the pointer `key` of a manager, through the proxy
    /// `pointer`, that does not count as one of its handles: it is how an
    /// event handler sees the pointer it is called for.
    pub fn from_key(pointer: WlPointer, key: usize) -> (r: ThemedPointer)
        ensures
            r.id() == key,
            !r.is_counted(),
            r.wrapped() == pointer,
    {
        ThemedPointer { pointer, key, counted: false }
    }

    /// This handle counts among its pointer's handles.
    pub closed spec fn is_counted(&self) -> bool {
        self.counted
    }

    /// The pointer proxy that this handle wraps.
    pub closed spec fn wrapped(&self) -> WlPointer {
        self.pointer
    }

    /// The wrapped pointer proxy.
    pub fn pointer(&self) -> (r: &WlPointer)
        ensures
            *r == self.wrapped(),
    {
        &self.pointer
    }
}

impl ThemeManager {
    /// The theme cache that the manager's pointers share.
    pub closed spec fn cache(&self) -> ThemeCache {
        self.themes
    }

    /// How many pointers the manager has themed.
    pub closed spec fn pointer_count(&self) -> int {
        self.settings@.len() as int
    }

    /// The cursor settings of pointer `k`.
    pub closed spec fn settings_of(&self, k: int) -> PointerSettings {
        self.settings@[k]
    }

    /// How many handles still refer to pointer `k`.
    pub closed spec fn handles_of(&self, k: int) -> int {
        self.handles@[k] as int
    }

    /// Every request sent so far on behalf of pointer `k`, in order.
    pub closed spec fn requests_of(&self, k: int) -> Seq<SurfaceOp> {
        self.requests@[k]
    }

    /// Pointer `k` exists and some handle still refers to it.
    pub open spec fn is_live(&self, k: int) -> bool {
        0 <= k < self.pointer_count() && self.handles_of(k) > 0
    }

    /// The cache is well formed; every pointer has a surface, settings, a
    /// handle count and a record; its scale is valid, its cursor name can be
    /// handed to the cursor library, and its record follows its lifecycle.
    pub closed spec fn wf(&self) -> bool {
        &&& self.themes.wf()
        &&& self.surfaces@.len() == self.settings@.len()
        &&& self.handles@.len() == self.settings@.len()
        &&& self.requests@.len() == self.settings@.len()
        &&& forall|k: int|
            0 <= k < self.settings@.len() ==> {
                &&& 1 <= (#[trigger] self.settings@[k]).scale_factor <= MAX_SCALE
                &&& c_compatible(self.settings@[k].current_cursor@)
                &&& lifecycle_ok(self.requests@[k], self.handles@[k] > 0)
                &&& self.settings@[k].buffer_scale == takes_buffer_scale(self.surfaces@[k].version())
                &&& self.settings@[k].buffer_damage == takes_buffer_damage(self.surfaces@[k].version())
                &&& self.surfaces@[k].is_destroyed() == (self.handles@[k] == 0)
            }
    }

    /// Loads the system's cursor theme `name` (the default one for `None`)
    /// for surfaces made by `compositor` and buffers of `shm`. Fails when
    /// libwayland-cursor cannot be used on this host; then nothing else
    /// happens.
    pub fn init(name: Option<&str>, compositor: AttachedCompositor, shm: AttachedShm) -> (r: Result<ThemeManager, ()>)
        requires
            name matches Some(n) ==> c_compatible(n@),
        ensures
            r matches Ok(m) ==> {
                &&& m.wf()
                &&& m.pointer_count() == 0
                &&& m.cache().scales() == Seq::<u32>::empty()
                &&& m.cache().theme_name() == (match name {
                    Some(n) => Some(n@),
                    None => None::<Seq<char>>,
                })
            },
    {
        if !cursor_library_available() {
            return Err(());
        }
        let owned = match name {
            Some(n) => Some(n.to_owned()),
            None => None,
        };
        Ok(ThemeManager {
            themes: ThemeCache::new(owned, shm),
            compositor,
            surfaces: Vec::new(),
            settings: Vec::new(),
            handles: Vec::new(),
            requests: Ghost(Seq::empty()),
        })
    }

    /// The manager itself is unchanged but for the pointer `k`.
    pub open spec fn others_unchanged(&self, old: &ThemeManager, k: int) -> bool {
        &&& self.pointer_count() == old.pointer_count()
        &&& forall|j: int|
            0 <= j < self.pointer_count() && j != k ==> {
                &&& #[trigger] self.settings_of(j) == old.settings_of(j)
                &&& self.handles_of(j) == old.handles_of(j)
                &&& self.requests_of(j) == old.requests_of(j)
            }
    }

    /// Themes `pointer`: makes it a surface of its own and settings that ask
    /// for the `left_ptr` cursor at scale 1, with one handle, the one
    /// returned. No request is sent on the surface until the first update.
    pub fn theme_pointer(&mut self, pointer: WlPointer) -> (r: ThemedPointer)
        requires
            old(self).wf(),
        ensures
            final(self).wf(),
            final(self).cache() == old(self).cache(),
            final(self).pointer_count() == old(self).pointer_count() + 1,
            r.id() == old(self).pointer_count(),
            r.is_counted(),
            r.wrapped() == pointer,
            forall|j: int|
                0 <= j < old(self).pointer_count() ==> {
                    &&& #[trigger] final(self).settings_of(j) == old(self).settings_of(j)
                    &&& final(self).handles_of(j) == old(self).handles_of(j)
                    &&& final(self).requests_of(j) == old(self).requests_of(j)
                },
            final(self).settings_of(r.id()).current_cursor@ == DEFAULT_CURSOR@,
            final(self).settings_of(r.id()).last_serial == 0,
            final(self).settings_of(r.id()).scale_factor == 1,
            final(self).handles_of(r.id()) == 1,
            final(self).requests_of(r.id()) == Seq::<SurfaceOp>::empty(),
    {
        let surface = bind_surface(&self.compositor);
        let settings = initial_settings(surface.read_version());
        proof {
            lemma_default_cursor_compatible();
        }
        let key = self.settings.len();
        self.surfaces.push(surface);
        self.settings.push(settings);
        self.handles.push(1);
        self.requests = Ghost(self.requests@.push(Seq::empty()));
        ThemedPointer { pointer, key, counted: true }
    }

    /// Shows cursor `name` of the theme at pointer `k`'s scale on its
    /// surface and makes it `pointer`'s image, with input serial `serial`.
    /// Fails, sending nothing, when the theme has no such cursor or no
    /// image for it. The theme for that scale is loaded first if it was not.
    fn render(&mut self, k: usize, name: &str, serial: u32, pointer: &WlPointer) -> (r: Result<(), ()>)
        requires
            old(self).wf(),
            old(self).is_live(k as int),
            c_compatible(name@),
        ensures
            final(self).wf(),
            final(self).others_unchanged(old(self), k as int),
            final(self).settings_of(k as int) == old(self).settings_of(k as int),
            final(self).handles_of(k as int) == old(self).handles_of(k as int),
            final(self).cache().looked_up(&old(self).cache(), old(self).settings_of(k as int).scale_factor as u32),
            r is Err ==> final(self).requests_of(k as int) == old(self).requests_of(k as int),
            r is Ok ==> exists|f: Frame|
                final(self).requests_of(k as int) == old(self).requests_of(k as int) + update_ops(
                    old(self).settings_of(k as int).scale_factor,
                    old(self).settings_of(k as int).buffer_scale,
                    old(self).settings_of(k as int).buffer_damage,
                    serial,
                    f,
                ),
    {
        let scale = self.settings[k].scale_factor;
        let buffer_scale = self.settings[k].buffer_scale;
        let buffer_damage = self.settings[k].buffer_damage;
        let index = self.themes.theme_index(scale as u32);
        let theme = self.themes.theme_at(index);
        let cursor = match cursor_named(theme, name) {
            Some(c) => c,
            None => return Err(()),
        };
        let buffer = match frame_buffer(&cursor, 0) {
            Some(b) => b,
            None => return Err(()),
        };
        let frame = match frame_info(&cursor, 0) {
            Some(f) => f,
            None => return Err(()),
        };
        let ops = plan_update(scale, buffer_scale, buffer_damage, serial, frame);
        let mut log: Ghost<Seq<SurfaceOp>> = Ghost(self.requests@[k as int]);
        send(&self.surfaces[k], pointer, &buffer, &ops, &mut log);
        proof {
            lemma_update_keeps_surface(scale, buffer_scale, buffer_damage, serial, frame);
            let before = self.requests@[k as int];
            assert forall|j: int| 0 <= j < log@.len() implies log@[j] != SurfaceOp::Destroy by {
                if j < before.len() {
                    assert(log@[j] == before[j]);
                    assert(!before.contains(SurfaceOp::Destroy));
                } else {
                    assert(log@[j] == ops@[j - before.len()]);
                }
            }
        }
        self.requests = Ghost(self.requests@.update(k as int, log@));
        assert(self.requests_of(k as int) == old(self).requests_of(k as int) + update_ops(
            old(self).settings_of(k as int).scale_factor,
            old(self).settings_of(k as int).buffer_scale,
            old(self).settings_of(k as int).buffer_damage,
            serial,
            frame,
        ));
        Ok(())
    }

    /// Takes note that the pointer of `handle` is now shown at output scale
    /// `scale_factor`, and redraws its cursor at that scale as well as it
    /// can: a failure leaves the cursor as it was. A handle whose pointer
    /// was released, or a scale below 1 or above `MAX_SCALE`, is ignored.
    pub fn scale_changed(&mut self, handle: &ThemedPointer, scale_factor: i32)
        requires
            old(self).wf(),
        ensures
            final(self).wf(),
            final(self).others_unchanged(old(self), handle.id()),
            !old(self).is_live(handle.id()) || scale_factor < 1 || scale_factor > MAX_SCALE ==> {
                &&& final(self).cache() == old(self).cache()
                &&& final(self).settings_of(handle.id()) == old(self).settings_of(handle.id())
                &&& final(self).requests_of(handle.id()) == old(self).requests_of(handle.id())
                &&& final(self).handles_of(handle.id()) == old(self).handles_of(handle.id())
            },
            old(self).is_live(handle.id()) && 1 <= scale_factor <= MAX_SCALE ==> {
                let before = old(self).settings_of(handle.id());
                let after = final(self).settings_of(handle.id());
                &&& after.scale_factor == scale_factor
                &&& after.current_cursor == before.current_cursor
                &&& after.last_serial == before.last_serial
                &&& after.buffer_scale == before.buffer_scale
                &&& after.buffer_damage == before.buffer_damage
                &&& final(self).handles_of(handle.id()) == old(self).handles_of(handle.id())
                &&& final(self).cache().looked_up(&old(self).cache(), scale_factor as u32)
                &&& final(self).requests_of(handle.id()) == old(self).requests_of(handle.id())
                    || exists|f: Frame|
                    final(self).requests_of(handle.id()) == old(self).requests_of(handle.id())
                        + update_ops(scale_factor, before.buffer_scale, before.buffer_damage, before.last_serial, f)
            },
    {
        let k = handle.key;
        if k >= self.settings.len() || self.handles[k] == 0 || scale_factor < 1 || scale_factor > MAX_SCALE as i32 {
            return;
        }
        let name = self.settings[k].current_cursor.clone();
        let updated = PointerSettings {
            current_cursor: self.settings[k].current_cursor.clone(),
            last_serial: self.settings[k].last_serial,
            scale_factor,
            buffer_scale: self.settings[k].buffer_scale,
            buffer_damage: self.settings[k].buffer_damage,
        };
        self.settings.set(k, updated);
        let serial = self.settings[k].last_serial;
        let ghost mid = *self;
        assert(mid.cache() == old(self).cache());
        assert(mid.settings_of(k as int).scale_factor == scale_factor);
        // A failed redraw only leaves the cursor at its former scale.
        let _ = self.render(k, name.as_str(), serial, &handle.pointer);
        assert(self.cache().looked_up(&mid.cache(), scale_factor as u32));
    }
}

impl ThemedPointer {
    /// Changes the cursor to the one named `name` in the theme, answering
    /// the input event of `serial` if one is given (else the serial of the
    /// last change is used again). On success the pointer's settings hold
    /// the new name and serial, and the requests that show the image were
    /// sent. Fails, changing nothing but loading the theme for the
    /// pointer's scale, when the theme has no such cursor or no image for
    /// it, when the name holds a NUL byte, or when this handle's pointer was
    /// released.
    pub fn set_cursor(&self, manager: &mut ThemeManager, name: &str, serial: Option<u32>) -> (r: Result<(), ()>)
        requires
            old(manager).wf(),
        ensures
            final(manager).wf(),
            final(manager).others_unchanged(old(manager), self.id()),
            !old(manager).is_live(self.id()) || !c_compatible(name@) ==> r is Err && final(manager).cache()
                == old(manager).cache(),
            old(manager).is_live(self.id()) && c_compatible(name@) ==> final(manager).cache().looked_up(
                &old(manager).cache(),
                old(manager).settings_of(self.id()).scale_factor as u32,
            ),
            r is Err ==> {
                &&& final(manager).settings_of(self.id()) == old(manager).settings_of(self.id())
                &&& final(manager).requests_of(self.id()) == old(manager).requests_of(self.id())
                &&& final(manager).handles_of(self.id()) == old(manager).handles_of(self.id())
            },
            r is Ok ==> {
                let before = old(manager).settings_of(self.id());
                let after = final(manager).settings_of(self.id());
                let serial_used = chosen_serial(before.last_serial, serial);
                &&& old(manager).is_live(self.id())
                &&& after.current_cursor@ == name@
                &&& after.last_serial == serial_used
                &&& after.scale_factor == before.scale_factor
                &&& after.buffer_scale == before.buffer_scale
                &&& after.buffer_damage == before.buffer_damage
                &&& final(manager).handles_of(self.id()) == old(manager).handles_of(self.id())
                &&& exists|f: Frame|
                    final(manager).requests_of(self.id()) == old(manager).requests_of(self.id())
                        + update_ops(before.scale_factor, before.buffer_scale, before.buffer_damage, serial_used, f)
            },
    {
        let k = self.key;
        if k >= manager.settings.len() || manager.handles[k] == 0 || !is_c_compatible(name) {
            return Err(());
        }
        let serial_used = match serial {
            Some(s) => s,
            None => manager.settings[k].last_serial,
        };
        let r = manager.render(k, name, serial_used, &self.pointer);
        let ghost mid = *manager;
        if r.is_ok() {
            let updated = PointerSettings {
                current_cursor: name.to_owned(),
                last_serial: serial_used,
                scale_factor: manager.settings[k].scale_factor,
                buffer_scale: manager.settings[k].buffer_scale,
                buffer_damage: manager.settings[k].buffer_damage,
            };
            manager.settings.set(k, updated);
            assert forall|j: int| 0 <= j < manager.pointer_count() && j != k implies #[trigger] manager.settings_of(j)
                == mid.settings_of(j) by {
                assert(manager.settings@[j] == mid.settings@[j]);
            }
            assert(manager.others_unchanged(&mid, k as int));
            proof {
                lemma_others_unchanged_chain(old(manager), &mid, manager, k as int);
            }
            proof {
                let before = old(manager).settings_of(k as int);
                let f = choose|f: Frame|
                    mid.requests_of(k as int) == old(manager).requests_of(k as int) + update_ops(
                        before.scale_factor,
                        before.buffer_scale,
                        before.buffer_damage,
                        serial_used,
                        f,
                    );
                assert(chosen_serial(before.last_serial, serial) == serial_used);
                assert(manager.requests_of(k as int) == old(manager).requests_of(k as int) + update_ops(
                    before.scale_factor,
                    before.buffer_scale,
                    before.buffer_damage,
                    serial_used,
                    f,
                ));
                assert(manager.settings_of(k as int).current_cursor@ == name@);
                assert(1 <= mid.settings@[k as int].scale_factor <= MAX_SCALE);
                assert(lifecycle_ok(mid.requests@[k as int], mid.handles@[k as int] > 0));
                assert forall|j: int| 0 <= j < manager.settings@.len() implies {
                    &&& 1 <= (#[trigger] manager.settings@[j]).scale_factor <= MAX_SCALE
                    &&& c_compatible(manager.settings@[j].current_cursor@)
                    &&& lifecycle_ok(manager.requests@[j], manager.handles@[j] > 0)
                } by {
                    if j != k {
                        assert(manager.settings@[j] == mid.settings@[j]);
                        assert(1 <= mid.settings@[j].scale_factor);
                    }
                }
                assert(manager.settings_of(k as int).scale_factor == before.scale_factor);
            }
        }
        r
    }

    /// Another counted handle to the same pointer, sharing its surface and
    /// settings; the pointer now has one more handle. This holds for a handle
    /// given to an event handler too. A handle whose pointer was released
    /// gives a handle that is not counted.
    pub fn clone_handle(&self, manager: &mut ThemeManager) -> (r: ThemedPointer)
        requires
            old(manager).wf(),
            old(manager).is_live(self.id()) ==> old(manager).handles_of(self.id()) < usize::MAX,
        ensures
            final(manager).wf(),
            final(manager).cache() == old(manager).cache(),
            final(manager).others_unchanged(old(manager), self.id()),
            r.id() == self.id(),
            r.is_counted() == old(manager).is_live(self.id()),
            old(manager).is_live(self.id()) ==> final(manager).handles_of(self.id()) == old(manager).handles_of(
                self.id(),
            ) + 1,
            !old(manager).is_live(self.id()) ==> final(manager).handles_of(self.id()) == old(manager).handles_of(
                self.id(),
            ),
            final(manager).settings_of(self.id()) == old(manager).settings_of(self.id()),
            final(manager).requests_of(self.id()) == old(manager).requests_of(self.id()),
    {
        let k = self.key;
        let live = k < manager.handles.len() && manager.handles[k] > 0;
        if live {
            let count = manager.handles[k];
            manager.handles.set(k, count + 1);
        }
        ThemedPointer { pointer: clone_pointer(&self.pointer), key: k, counted: live }
    }

    /// Gives this handle back. When it was the last counted one of its
    /// pointer, the pointer's surface is destroyed, by the one `destroy`
    /// request it ever gets; the pointer proxy itself is left alone. A handle
    /// that is not counted, or whose pointer was released already, changes
    /// nothing.
    pub fn release(self, manager: &mut ThemeManager)
        requires
            old(manager).wf(),
        ensures
            final(manager).wf(),
            final(manager).cache() == old(manager).cache(),
            final(manager).others_unchanged(old(manager), self.id()),
            final(manager).settings_of(self.id()) == old(manager).settings_of(self.id()),
            !(self.is_counted() && old(manager).is_live(self.id())) ==> {
                &&& final(manager).handles_of(self.id()) == old(manager).handles_of(self.id())
                &&& final(manager).requests_of(self.id()) == old(manager).requests_of(self.id())
            },
            self.is_counted() && old(manager).is_live(self.id()) ==> final(manager).handles_of(self.id())
                == old(manager).handles_of(self.id()) - 1,
            self.is_counted() && old(manager).is_live(self.id()) && old(manager).handles_of(self.id()) > 1
                ==> final(manager).requests_of(self.id()) == old(manager).requests_of(self.id()),
            self.is_counted() && old(manager).is_live(self.id()) && old(manager).handles_of(self.id()) == 1
                ==> final(manager).requests_of(self.id()) == old(manager).requests_of(self.id()).push(
                SurfaceOp::Destroy,
            ),
    {
        let k = self.key;
        if self.counted && k < manager.handles.len() && manager.handles[k] > 0 {
            assert(1 <= manager.settings@[k as int].scale_factor);
            let count = manager.handles[k];
            manager.handles.set(k, count - 1);
            if count == 1 {
                manager.surfaces[k].destroy();
                let ghost before = manager.requests@[k as int];
                manager.requests = Ghost(manager.requests@.update(k as int, before.push(SurfaceOp::Destroy)));
                assert(before.push(SurfaceOp::Destroy).drop_last() =~= before);
            }
        }
    }
}

/// Two steps that each leave all pointers but `k` alone leave them alone.
proof fn lemma_others_unchanged_chain(a: &ThemeManager, b: &ThemeManager, c: &ThemeManager, k: int)
    requires
        b.others_unchanged(a, k),
        c.others_unchanged(b, k),
    ensures
        c.others_unchanged(a, k),
{
    assert forall|j: int| 0 <= j < c.pointer_count() && j != k implies {
        &&& #[trigger] c.settings_of(j) == a.settings_of(j)
        &&& c.handles_of(j) == a.handles_of(j)
        &&& c.requests_of(j) == a.requests_of(j)
    } by {
        assert(c.settings_of(j) == b.settings_of(j));
        assert(b.settings_of(j) == a.settings_of(j));
    }
}

/// Once no handle refers to a pointer of a well-formed manager, its surface
/// has had exactly one `destroy` request, the last one sent for it; while a
/// handle is left it has had none.
pub proof fn lemma_surface_destroyed_once(manager: &ThemeManager, k: int)
    requires
        manager.wf(),
        0 <= k < manager.pointer_count(),
    ensures
        manager.handles_of(k) == 0 ==> forall|i: int|
            0 <= i < manager.requests_of(k).len() ==> (#[trigger] manager.requests_of(k)[i] == SurfaceOp::Destroy
                <==> i == manager.requests_of(k).len() - 1),
        manager.handles_of(k) > 0 ==> !manager.requests_of(k).contains(SurfaceOp::Destroy),
{
    assert(1 <= manager.settings@[k].scale_factor);
    assert(lifecycle_ok(manager.requests@[k], manager.handles@[k] > 0));
    if manager.handles_of(k) == 0 {
        lemma_destroyed_once(manager.requests_of(k));
    }
}

} // verus!
