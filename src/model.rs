use vstd::prelude::*;

verus! {

/// Size of a theme at scale 1, in pixels.
pub const BASE_CURSOR_SIZE: u32 = 16;

/// Largest scale factor for which a theme size `16 * scale` fits in a `u32`.
pub const MAX_SCALE: u32 = 0x0fff_ffff;

/// The cursor a new pointer shows.
pub const DEFAULT_CURSOR: &'static str = "left_ptr";

/// Geometry of the first image of a cursor, as the theme gives it.
#[derive(Clone, Copy, Debug, PartialEq, Eq, Structural)]
pub struct Frame {
    pub width: u32,
    pub height: u32,
    pub hotspot_x: u32,
    pub hotspot_y: u32,
}

/// One request sent to the compositor on behalf of a pointer.
#[derive(Clone, Copy, Debug, PartialEq, Eq, Structural)]
pub enum SurfaceOp {
    /// `wl_surface.set_buffer_scale`
    SetBufferScale(i32),
    /// `wl_surface.attach` of the cursor image at the given offset
    Attach { x: i32, y: i32 },
    /// `wl_surface.damage`, in surface coordinates
    Damage { x: i32, y: i32, width: i32, height: i32 },
    /// `wl_surface.damage_buffer`, in buffer coordinates
    DamageBuffer { x: i32, y: i32, width: i32, height: i32 },
    /// `wl_surface.commit`
    Commit,
    /// `wl_pointer.set_cursor` with the pointer's own surface
    SetCursor { serial: u32, hotspot_x: i32, hotspot_y: i32 },
    /// `wl_surface.destroy`
    Destroy,
}

/// A `u32` read as the `i32` with the same bits.
pub open spec fn as_signed(v: u32) -> i32 {
    if v <= i32::MAX as u32 {
        v as i32
    } else {
        (v as int - 0x1_0000_0000) as i32
    }
}

/// The buffer-scale request, where the surface takes one.
pub open spec fn scale_ops(scale: i32, buffer_scale: bool) -> Seq<SurfaceOp> {
    if buffer_scale {
        seq![SurfaceOp::SetBufferScale(scale)]
    } else {
        Seq::empty()
    }
}

/// The damage request for the whole image: in buffer coordinates where the
/// surface was bound with `damage_buffer`, else in surface coordinates.
pub open spec fn damage_op(buffer_damage: bool, f: Frame) -> SurfaceOp {
    if buffer_damage {
        SurfaceOp::DamageBuffer { x: 0, y: 0, width: as_signed(f.width), height: as_signed(f.height) }
    } else {
        SurfaceOp::Damage { x: 0, y: 0, width: as_signed(f.width), height: as_signed(f.height) }
    }
}

/// The requests, in order, that show image `f` at scale `scale` as the
/// cursor of a pointer whose last input serial is `serial`. The buffer
/// scale is set only on a surface that takes it.
pub open spec fn update_ops(scale: i32, buffer_scale: bool, buffer_damage: bool, serial: u32, f: Frame) -> Seq<SurfaceOp> {
    scale_ops(scale, buffer_scale) + seq![
        SurfaceOp::Attach { x: 0, y: 0 },
        damage_op(buffer_damage, f),
        SurfaceOp::Commit,
        SurfaceOp::SetCursor {
            serial: serial,
            hotspot_x: as_signed(f.hotspot_x),
            hotspot_y: as_signed(f.hotspot_y),
        },
    ]
}

/// An update never destroys the surface, sends a buffer scale only where
/// the surface takes one, and damages in buffer coordinates only where the
/// surface takes that.
pub proof fn lemma_update_keeps_surface(scale: i32, buffer_scale: bool, buffer_damage: bool, serial: u32, f: Frame)
    ensures
        !update_ops(scale, buffer_scale, buffer_damage, serial, f).contains(SurfaceOp::Destroy),
        forall|i: int|
            0 <= i < update_ops(scale, buffer_scale, buffer_damage, serial, f).len() ==> {
                &&& (#[trigger] update_ops(scale, buffer_scale, buffer_damage, serial, f)[i]) is SetBufferScale
                    ==> buffer_scale
                &&& update_ops(scale, buffer_scale, buffer_damage, serial, f)[i] is DamageBuffer ==> buffer_damage
            },
{
    let ops = update_ops(scale, buffer_scale, buffer_damage, serial, f);
    let n = scale_ops(scale, buffer_scale).len();
    if ops.contains(SurfaceOp::Destroy) {
        let j = choose|j: int| 0 <= j < ops.len() && ops[j] == SurfaceOp::Destroy;
        if j < n {
            assert(ops[j] == SurfaceOp::SetBufferScale(scale));
        } else {
            assert(j - n < 4);
        }
    }
    assert forall|i: int| 0 <= i < ops.len() implies {
        &&& (#[trigger] ops[i]) is SetBufferScale ==> buffer_scale
        &&& ops[i] is DamageBuffer ==> buffer_damage
    } by {
        if i < n {
            assert(buffer_scale);
        } else {
            assert(i - n < 4);
        }
    }
}

/// Reads the bits of `v` as an `i32`.
pub fn to_signed(v: u32) -> (r: i32)
    ensures
        r == as_signed(v),
{
    if v <= i32::MAX as u32 {
        v as i32
    } else {
        (v as i64 - 0x1_0000_0000i64) as i32
    }
}

/// The requests that show image `f` as the cursor: the buffer scale (on a
/// surface that takes it), the image attached at the origin, its whole area
/// damaged, a commit, and the pointer's cursor set to the surface at the
/// image's hotspot.
pub fn plan_update(scale: i32, buffer_scale: bool, buffer_damage: bool, serial: u32, f: Frame) -> (r: Vec<SurfaceOp>)
    ensures
        r@ == update_ops(scale, buffer_scale, buffer_damage, serial, f),
{
    let width = to_signed(f.width);
    let height = to_signed(f.height);
    let damage = if buffer_damage {
        SurfaceOp::DamageBuffer { x: 0, y: 0, width, height }
    } else {
        SurfaceOp::Damage { x: 0, y: 0, width, height }
    };
    let mut r: Vec<SurfaceOp> = Vec::new();
    if buffer_scale {
        r.push(SurfaceOp::SetBufferScale(scale));
    }
    r.push(SurfaceOp::Attach { x: 0, y: 0 });
    r.push(damage);
    r.push(SurfaceOp::Commit);
    r.push(SurfaceOp::SetCursor { serial, hotspot_x: to_signed(f.hotspot_x), hotspot_y: to_signed(f.hotspot_y) });
    assert(r@ =~= update_ops(scale, buffer_scale, buffer_damage, serial, f));
    r
}

/// What a pointer's cursor is made of: the cursor's name in the theme, the
/// serial of the last input event it answered, the output scale, and whether
/// its surface takes a buffer scale and damage in buffer coordinates.
pub struct PointerSettings {
    pub current_cursor: String,
    pub last_serial: u32,
    pub scale_factor: i32,
    pub buffer_scale: bool,
    pub buffer_damage: bool,
}

/// A surface of this protocol version takes `set_buffer_scale`.
pub open spec fn takes_buffer_scale(version: u32) -> bool {
    version >= 3
}

/// Whether a surface bound at `version` takes a buffer scale.
pub fn supports_buffer_scale(version: u32) -> (r: bool)
    ensures
        r == takes_buffer_scale(version),
{
    version >= 3
}

/// A surface of this protocol version takes `damage_buffer`.
pub open spec fn takes_buffer_damage(version: u32) -> bool {
    version >= 4
}

/// Whether a surface bound at `version` takes damage in buffer coordinates.
pub fn supports_buffer_damage(version: u32) -> (r: bool)
    ensures
        r == takes_buffer_damage(version),
{
    version >= 4
}

/// The settings of a pointer that was just themed, on a surface bound at
/// `version`: the `left_ptr` cursor, serial 0, scale 1.
pub fn initial_settings(version: u32) -> (r: PointerSettings)
    ensures
        r.current_cursor@ == DEFAULT_CURSOR@,
        r.last_serial == 0,
        r.scale_factor == 1,
        r.buffer_scale == takes_buffer_scale(version),
        r.buffer_damage == takes_buffer_damage(version),
{
    PointerSettings {
        current_cursor: DEFAULT_CURSOR.to_owned(),
        last_serial: 0,
        scale_factor: 1,
        buffer_scale: supports_buffer_scale(version),
        buffer_damage: supports_buffer_damage(version),
    }
}

/// The serial that a cursor change uses: the one given, else the last one.
pub open spec fn chosen_serial(last: u32, serial: Option<u32>) -> u32 {
    match serial {
        Some(s) => s,
        None => last,
    }
}

/// The scales a theme cache holds after a lookup at `scale`: a theme is
/// loaded, and its scale appended, only for a scale not seen before.
pub open spec fn after_lookup(scales: Seq<u32>, scale: u32) -> Seq<u32> {
    if scales.contains(scale) {
        scales
    } else {
        scales.push(scale)
    }
}

/// The scales a theme cache holds after lookups at `requests`, in order.
pub open spec fn after_lookups(scales: Seq<u32>, requests: Seq<u32>) -> Seq<u32>
    decreases requests.len(),
{
    if requests.len() == 0 {
        scales
    } else {
        after_lookup(after_lookups(scales, requests.drop_last()), requests.last())
    }
}

/// A cache that starts empty loads one theme for each distinct scale that
/// it is asked for, and none for any other: whatever the order of the
/// lookups and however often a scale comes back, the loaded scales are
/// exactly the requested ones, each once.
pub proof fn lemma_one_load_per_scale(requests: Seq<u32>)
    ensures
        after_lookups(Seq::empty(), requests).no_duplicates(),
        forall|s: u32| #[trigger] after_lookups(Seq::empty(), requests).contains(s) <==> requests.contains(s),
    decreases requests.len(),
{
    if requests.len() > 0 {
        let rest = requests.drop_last();
        lemma_one_load_per_scale(rest);
        let before = after_lookups(Seq::empty(), rest);
        let s0 = requests.last();
        assert forall|s: u32| #[trigger] after_lookups(Seq::empty(), requests).contains(s) <==> requests.contains(s) by {
            assert(requests =~= rest.push(s0));
            if requests.contains(s) {
                let j = choose|j: int| 0 <= j < requests.len() && requests[j] == s;
                if j < rest.len() {
                    assert(rest[j] == s);
                    assert(rest.contains(s));
                }
            }
            if rest.contains(s) {
                let j = choose|j: int| 0 <= j < rest.len() && rest[j] == s;
                assert(requests[j] == s);
            }
            if !before.contains(s0) {
                let after = before.push(s0);
                assert(after[after.len() - 1] == s0);
                if before.contains(s) {
                    let j = choose|j: int| 0 <= j < before.len() && before[j] == s;
                    assert(after[j] == s);
                }
                if after.contains(s) && s != s0 {
                    let j = choose|j: int| 0 <= j < after.len() && after[j] == s;
                    assert(before[j] == s);
                }
            }
        }
        if !before.contains(s0) {
            let after = before.push(s0);
            assert forall|i: int, j: int| 0 <= i < after.len() && 0 <= j < after.len() && i != j implies after[i] != after[j] by {
                if i < before.len() && j < before.len() {
                } else if i < before.len() {
                    assert(before[i] == after[i]);
                } else {
                    assert(before[j] == after[j]);
                }
            }
        }
    }
}

/// The surface requests of a cursor change depend on nothing but the image
/// and the settings it meets: a change made twice in a row with the same
/// name and serial sends the same requests both times, since the first one
/// leaves the scale, the damage mode and the chosen serial as they were.
pub proof fn lemma_repeated_change_same_requests(
    scale: i32,
    buffer_scale: bool,
    buffer_damage: bool,
    last_serial: u32,
    serial: Option<u32>,
    f: Frame,
)
    ensures
        update_ops(scale, buffer_scale, buffer_damage, chosen_serial(chosen_serial(last_serial, serial), serial), f)
            == update_ops(scale, buffer_scale, buffer_damage, chosen_serial(last_serial, serial), f),
{
}

/// An update damages the whole image once, right after the attach: with
/// `damage_buffer` on a surface of version 4 or more, with `damage` below
/// that, and with no other damage request; the rectangle is the image's own
/// size at the origin. Only a surface of version 3 or more is sent a buffer
/// scale, and then as the first request.
pub proof fn lemma_damage_follows_version(scale: i32, version: u32, serial: u32, f: Frame)
    ensures
        ({
            let ops = update_ops(scale, takes_buffer_scale(version), takes_buffer_damage(version), serial, f);
            let d = if version >= 3 { 2int } else { 1int };
            &&& ops[d - 1] == (SurfaceOp::Attach { x: 0, y: 0 })
            &&& version >= 4 ==> ops[d] == (SurfaceOp::DamageBuffer {
                x: 0,
                y: 0,
                width: as_signed(f.width),
                height: as_signed(f.height),
            })
            &&& version < 4 ==> ops[d] == (SurfaceOp::Damage {
                x: 0,
                y: 0,
                width: as_signed(f.width),
                height: as_signed(f.height),
            })
            &&& forall|i: int|
                0 <= i < ops.len() && i != d ==> !(#[trigger] ops[i] is Damage) && !(ops[i] is DamageBuffer)
            &&& version >= 3 ==> ops[0] == SurfaceOp::SetBufferScale(scale)
            &&& forall|i: int| 0 <= i < ops.len() && i != 0 ==> !(#[trigger] ops[i] is SetBufferScale)
            &&& version < 3 ==> forall|i: int| 0 <= i < ops.len() ==> !(#[trigger] ops[i] is SetBufferScale)
        }),
{
    let ops = update_ops(scale, takes_buffer_scale(version), takes_buffer_damage(version), serial, f);
    let tail = seq![
        SurfaceOp::Attach { x: 0, y: 0 },
        damage_op(takes_buffer_damage(version), f),
        SurfaceOp::Commit,
        SurfaceOp::SetCursor {
            serial: serial,
            hotspot_x: as_signed(f.hotspot_x),
            hotspot_y: as_signed(f.hotspot_y),
        },
    ];
    if version >= 3 {
        assert(ops =~= seq![SurfaceOp::SetBufferScale(scale)] + tail);
    } else {
        assert(ops =~= tail);
    }
}

/// The requests sent on a pointer's surface, as its lifecycle allows them:
/// no `destroy` while a handle is left, and once the last one is gone a
/// single `destroy`, which ends the record.
pub open spec fn lifecycle_ok(log: Seq<SurfaceOp>, live: bool) -> bool {
    if live {
        !log.contains(SurfaceOp::Destroy)
    } else {
        &&& log.len() > 0
        &&& log.last() == SurfaceOp::Destroy
        &&& !log.drop_last().contains(SurfaceOp::Destroy)
    }
}

/// Once the last handle of a pointer is released, its surface has been sent
/// exactly one `destroy`: the last request, and no other one.
pub proof fn lemma_destroyed_once(log: Seq<SurfaceOp>)
    requires
        lifecycle_ok(log, false),
    ensures
        forall|i: int| 0 <= i < log.len() ==> (#[trigger] log[i] == SurfaceOp::Destroy <==> i == log.len() - 1),
{
    assert forall|i: int| 0 <= i < log.len() implies (#[trigger] log[i] == SurfaceOp::Destroy <==> i == log.len() - 1) by {
        if i < log.len() - 1 && log[i] == SurfaceOp::Destroy {
            assert(log.drop_last()[i] == SurfaceOp::Destroy);
        }
    }
}

} // verus!
