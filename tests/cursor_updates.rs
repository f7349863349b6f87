use pointer_theme::model::{
    initial_settings, plan_update, supports_buffer_damage, supports_buffer_scale, to_signed, BASE_CURSOR_SIZE, DEFAULT_CURSOR, MAX_SCALE,
};
use pointer_theme::theme::is_c_compatible;
use pointer_theme::{Frame, SurfaceOp};

fn frame(width: u32, height: u32, hotspot_x: u32, hotspot_y: u32) -> Frame {
    Frame { width, height, hotspot_x, hotspot_y }
}

#[test]
fn update_on_new_surface_damages_buffer() {
    let ops = plan_update(2, true, true, 7, frame(48, 40, 4, 5));
    assert_eq!(
        ops,
        vec![
            SurfaceOp::SetBufferScale(2),
            SurfaceOp::Attach { x: 0, y: 0 },
            SurfaceOp::DamageBuffer { x: 0, y: 0, width: 48, height: 40 },
            SurfaceOp::Commit,
            SurfaceOp::SetCursor { serial: 7, hotspot_x: 4, hotspot_y: 5 },
        ]
    );
}

#[test]
fn update_on_old_surface_damages_surface() {
    let ops = plan_update(1, true, false, 0, frame(24, 24, 1, 2));
    assert_eq!(
        ops,
        vec![
            SurfaceOp::SetBufferScale(1),
            SurfaceOp::Attach { x: 0, y: 0 },
            SurfaceOp::Damage { x: 0, y: 0, width: 24, height: 24 },
            SurfaceOp::Commit,
            SurfaceOp::SetCursor { serial: 0, hotspot_x: 1, hotspot_y: 2 },
        ]
    );
}

#[test]
fn update_on_first_version_surface_sets_no_scale() {
    let ops = plan_update(2, false, false, 9, frame(24, 24, 1, 2));
    assert_eq!(
        ops,
        vec![
            SurfaceOp::Attach { x: 0, y: 0 },
            SurfaceOp::Damage { x: 0, y: 0, width: 24, height: 24 },
            SurfaceOp::Commit,
            SurfaceOp::SetCursor { serial: 9, hotspot_x: 1, hotspot_y: 2 },
        ]
    );
}

#[test]
fn damage_kind_follows_surface_version() {
    for version in [1u32, 2, 3, 4, 5, 6] {
        let s = initial_settings(version);
        let ops = plan_update(2, s.buffer_scale, s.buffer_damage, 3, frame(32, 16, 0, 0));
        let d = if version >= 3 { 2 } else { 1 };
        assert_eq!(ops[d - 1], SurfaceOp::Attach { x: 0, y: 0 });
        assert_eq!(ops.len(), d + 3);
        if version >= 3 {
            assert_eq!(ops[0], SurfaceOp::SetBufferScale(2));
        }
        let damage = ops[d];
        if version >= 4 {
            assert_eq!(damage, SurfaceOp::DamageBuffer { x: 0, y: 0, width: 32, height: 16 });
        } else {
            assert_eq!(damage, SurfaceOp::Damage { x: 0, y: 0, width: 32, height: 16 });
        }
        let others = ops
            .iter()
            .enumerate()
            .filter(|(i, op)| *i != d && matches!(op, SurfaceOp::Damage { .. } | SurfaceOp::DamageBuffer { .. }))
            .count();
        assert_eq!(others, 0);
    }
}

#[test]
fn buffer_scale_needs_version_three() {
    assert!(!supports_buffer_scale(1));
    assert!(!supports_buffer_scale(2));
    assert!(supports_buffer_scale(3));
    assert!(supports_buffer_scale(4));
}

#[test]
fn buffer_damage_needs_version_four() {
    assert!(!supports_buffer_damage(0));
    assert!(!supports_buffer_damage(3));
    assert!(supports_buffer_damage(4));
    assert!(supports_buffer_damage(5));
}

#[test]
fn same_change_twice_sends_same_requests() {
    let f = frame(24, 24, 3, 3);
    let first = plan_update(1, true, true, 42, f);
    let second = plan_update(1, true, true, 42, f);
    assert_eq!(first, second);
}

#[test]
fn sizes_are_read_as_signed_bits() {
    assert_eq!(to_signed(0), 0);
    assert_eq!(to_signed(5), 5);
    assert_eq!(to_signed(0x7fff_ffff), i32::MAX);
    assert_eq!(to_signed(0x8000_0000), i32::MIN);
    assert_eq!(to_signed(u32::MAX), -1);
    let ops = plan_update(1, false, false, 1, frame(u32::MAX, 2, 0x8000_0000, 0));
    assert_eq!(ops[1], SurfaceOp::Damage { x: 0, y: 0, width: -1, height: 2 });
    assert_eq!(ops[3], SurfaceOp::SetCursor { serial: 1, hotspot_x: i32::MIN, hotspot_y: 0 });
}

#[test]
fn new_pointer_asks_for_left_ptr_at_scale_one() {
    let s = initial_settings(4);
    assert_eq!(s.current_cursor, "left_ptr");
    assert_eq!(s.last_serial, 0);
    assert_eq!(s.scale_factor, 1);
    assert!(s.buffer_scale);
    assert!(s.buffer_damage);
    let old = initial_settings(3);
    assert_eq!(old.current_cursor, "left_ptr");
    assert!(old.buffer_scale);
    assert!(!old.buffer_damage);
    assert_eq!(DEFAULT_CURSOR, "left_ptr");
}

#[test]
fn names_with_nul_bytes_are_refused() {
    assert!(is_c_compatible("left_ptr"));
    assert!(is_c_compatible(""));
    assert!(is_c_compatible("hand2-é"));
    assert!(!is_c_compatible("left\0ptr"));
    assert!(!is_c_compatible("\0"));
}

#[test]
fn largest_scale_gives_a_theme_size_that_fits() {
    assert_eq!(BASE_CURSOR_SIZE, 16);
    assert!((MAX_SCALE as u64) * (BASE_CURSOR_SIZE as u64) <= u32::MAX as u64);
    assert!(((MAX_SCALE as u64) + 1) * (BASE_CURSOR_SIZE as u64) > u32::MAX as u64);
}
