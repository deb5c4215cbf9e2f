use display_manager::topology::{
    confirm_layout, finish_enable, has_pending_confirmation, normalize_primary_and_positions, primary_shift_fits,
    rollback_layout, save_rollback_point, set_display_orientation, set_display_position,
    set_primary_display, toggle_monitor_state, LayoutState, ModeInfo, ModeOrigin, PathInfo, Topology,
};
use display_manager::types::{DisplayOrientation, ManagerError};

fn path(idx: u32, active: bool, src_id: u32, raw: usize) -> PathInfo {
    PathInfo {
        source_adapter_high: 0,
        source_adapter_low: 1,
        source_id: src_id,
        source_mode_idx: idx,
        target_adapter_high: 0,
        target_adapter_low: 1,
        target_id: 100 + src_id,
        rotation: 1,
        refresh_numerator: 60000,
        refresh_denominator: 1000,
        flags: if active { 1 } else { 0 },
        raw_index: raw,
    }
}

fn source(id: u32, x: i32, y: i32, w: u32, h: u32, raw: usize) -> ModeInfo {
    ModeInfo {
        info_type: 1,
        adapter_high: 0,
        adapter_low: 1,
        id,
        width: w,
        height: h,
        x,
        y,
        origin: ModeOrigin::Queried(raw),
    }
}

fn target_mode(id: u32, raw: usize) -> ModeInfo {
    ModeInfo { info_type: 2, adapter_high: 0, adapter_low: 1, id, width: 0, height: 0, x: 0, y: 0, origin: ModeOrigin::Queried(raw) }
}

fn names(v: &[Option<&str>]) -> Vec<Option<String>> {
    v.iter().map(|n| n.map(|s| s.to_string())).collect()
}

fn two_monitors() -> Topology {
    Topology {
        paths: vec![path(0, true, 0, 0), path(1, true, 1, 1)],
        modes: vec![source(0, 0, 0, 1920, 1080, 0), source(1, 1920, 0, 2560, 1440, 1)],
    }
}

#[test]
fn normalize_keeps_existing_primary() {
    let t = two_monitors();
    let mut modes = t.modes.clone();
    normalize_primary_and_positions(&t.paths, &mut modes);
    assert_eq!(modes, t.modes);
}

#[test]
fn normalize_moves_first_source_to_origin() {
    let paths = vec![path(5, true, 0, 0), path(1, false, 1, 1), path(2, true, 2, 2)];
    let mut modes = vec![target_mode(9, 0), source(1, 100, 100, 800, 600, 1), source(2, 300, -50, 800, 600, 2)];
    normalize_primary_and_positions(&paths, &mut modes);
    assert_eq!((modes[1].x, modes[1].y), (100, 100));
    assert_eq!((modes[2].x, modes[2].y), (0, 0));
    let again = modes.clone();
    normalize_primary_and_positions(&paths, &mut modes);
    assert_eq!(modes, again);
}

#[test]
fn normalize_without_sources_changes_nothing() {
    let paths = vec![path(0, true, 0, 0)];
    let mut modes = vec![target_mode(0, 0)];
    normalize_primary_and_positions(&paths, &mut modes);
    assert_eq!(modes, vec![target_mode(0, 0)]);
}

#[test]
fn primary_moves_everything_and_goes_first() {
    let t = two_monitors();
    let n = names(&[Some("\\\\.\\DISPLAY1"), Some("\\\\.\\DISPLAY2")]);
    assert!(primary_shift_fits(&t, &n, "\\\\.\\DISPLAY2"));
    let r = set_primary_display(&t, &n, "\\\\.\\DISPLAY2").unwrap();
    assert_eq!(r.paths[0], t.paths[1]);
    assert_eq!(r.paths[1], t.paths[0]);
    assert_eq!((r.modes[0].x, r.modes[0].y), (-1920, 0));
    assert_eq!((r.modes[1].x, r.modes[1].y), (0, 0));
}

#[test]
fn primary_refusals() {
    let t = two_monitors();
    let n = names(&[Some("A"), Some("B")]);
    assert_eq!(set_primary_display(&t, &n, "C").unwrap_err(), "Target display not found.");
    let mut off = two_monitors();
    off.paths[1].flags = 0;
    assert_eq!(set_primary_display(&off, &n, "B").unwrap_err(), "Cannot set inactive display as primary.");
}

#[test]
fn primary_shift_that_overflows_is_reported() {
    let t = Topology {
        paths: vec![path(0, true, 0, 0), path(1, true, 1, 1)],
        modes: vec![source(0, i32::MAX, 0, 10, 10, 0), source(1, -10, 0, 10, 10, 1)],
    };
    let n = names(&[Some("A"), Some("B")]);
    assert!(!primary_shift_fits(&t, &n, "B"));
    assert!(primary_shift_fits(&t, &n, "Z"));
}

#[test]
fn orientation_sets_rotation_code() {
    let t = two_monitors();
    let n = names(&[Some("A"), Some("B")]);
    let r = set_display_orientation(&t, &n, "B", DisplayOrientation::Portrait).unwrap();
    assert_eq!(r.paths[1].rotation, 2);
    assert_eq!(r.paths[0].rotation, 1);
    let back = set_display_orientation(&r, &n, "B", DisplayOrientation::Landscape).unwrap();
    assert_eq!(back.paths[1].rotation, 1);
    assert_eq!(back.paths, t.paths);
    assert_eq!(set_display_orientation(&t, &n, "C", DisplayOrientation::Portrait).unwrap_err(), "Display not found.");
}

#[test]
fn position_sets_mode_position() {
    let t = two_monitors();
    let n = names(&[Some("A"), Some("B")]);
    let r = set_display_position(&t, &n, "B", -1280, 200).unwrap();
    assert_eq!((r.modes[1].x, r.modes[1].y), (-1280, 200));
    assert_eq!(r.modes[0], t.modes[0]);
    let mut bad = two_monitors();
    bad.paths[1].source_mode_idx = 7;
    assert_eq!(set_display_position(&bad, &n, "B", 1, 1).unwrap_err(), "Invalid mode index.");
    assert_eq!(set_display_position(&t, &n, "Q", 1, 1).unwrap_err(), "Display not found.");
}

#[test]
fn enable_uses_matching_source_mode() {
    let t = Topology {
        paths: vec![path(0, true, 0, 0), path(0xffff_ffff, false, 1, 1)],
        modes: vec![source(0, 0, 0, 1920, 1080, 0), source(1, 1920, 0, 1280, 1024, 1)],
    };
    let n = names(&[Some("A"), Some("B")]);
    let mut st = LayoutState::new();
    let r = toggle_monitor_state(&mut st, &t, &n, "B", true).unwrap();
    assert_eq!(r.paths[1].flags & 1, 1);
    assert_eq!(r.paths[1].source_mode_idx, 1);
    assert_eq!(r.modes.len(), 2);
    assert!(has_pending_confirmation(&st));
}

#[test]
fn enable_creates_mode_with_reference_resolution() {
    let t = Topology {
        paths: vec![path(0, true, 0, 0), path(0xffff_ffff, false, 1, 1)],
        modes: vec![source(0, 5, 5, 2560, 1440, 0)],
    };
    let n = names(&[Some("A"), Some("B")]);
    let mut st = LayoutState::new();
    let r = toggle_monitor_state(&mut st, &t, &n, "B", true).unwrap();
    assert_eq!(r.paths[1].source_mode_idx, 1);
    assert_eq!(r.modes.len(), 2);
    assert_eq!(r.modes[1].origin, ModeOrigin::Created);
    assert_eq!((r.modes[1].width, r.modes[1].height), (2560, 1440));
    // the new mode at the origin is the primary, so the others stay put
    assert_eq!((r.modes[1].x, r.modes[1].y), (0, 0));
    assert_eq!((r.modes[0].x, r.modes[0].y), (5, 5));
}

#[test]
fn enable_reuses_mode_saved_at_disconnection() {
    let before = Topology {
        paths: vec![path(0, true, 0, 0), path(1, true, 1, 1)],
        modes: vec![source(0, 0, 0, 1920, 1080, 0), source(1, 1920, 0, 1600, 900, 1)],
    };
    let n = names(&[Some("A"), Some("B")]);
    let mut st = LayoutState::new();
    let off = toggle_monitor_state(&mut st, &before, &n, "B", false).unwrap();
    assert_eq!(off.paths[1].flags & 1, 0);
    let now = Topology { paths: vec![path(0, true, 0, 0), path(0xffff_ffff, false, 1, 1)], modes: vec![source(0, 0, 0, 1920, 1080, 0)] };
    let on = toggle_monitor_state(&mut st, &now, &n, "B", true).unwrap();
    assert_eq!(on.modes.len(), 2);
    assert_eq!(on.modes[1].origin, ModeOrigin::Saved(1));
    assert_eq!((on.modes[1].width, on.modes[1].x), (1600, 1920));
}

#[test]
fn enable_of_unknown_monitor_forgets_state() {
    let t = two_monitors();
    let n = names(&[Some("A"), Some("B")]);
    let mut st = LayoutState::new();
    let _ = toggle_monitor_state(&mut st, &t, &n, "A", false);
    assert!(st.cached_topology().is_some());
    let r = toggle_monitor_state(&mut st, &t, &n, "Z", true);
    assert_eq!(r.unwrap_err(), "Display not found in display topology.");
    assert!(st.cached_topology().is_none());
    assert!(!has_pending_confirmation(&st));
}

#[test]
fn disable_refuses_last_display() {
    let t = Topology { paths: vec![path(0, true, 0, 0), path(1, false, 1, 1)], modes: vec![source(0, 0, 0, 10, 10, 0), source(1, 0, 0, 10, 10, 1)] };
    let n = names(&[Some("A"), Some("B")]);
    let mut st = LayoutState::new();
    assert_eq!(toggle_monitor_state(&mut st, &t, &n, "A", false).unwrap_err(), "Cannot disable the last active display.");
    assert_eq!(toggle_monitor_state(&mut st, &t, &n, "Q", false).unwrap_err(), "Display not found.");
}

#[test]
fn disable_keeps_a_primary() {
    let t = two_monitors();
    let n = names(&[Some("A"), Some("B")]);
    let mut st = LayoutState::new();
    let r = toggle_monitor_state(&mut st, &t, &n, "A", false).unwrap();
    assert_eq!(r.paths[0].flags & 1, 0);
    assert_eq!((r.modes[1].x, r.modes[1].y), (0, 0));
}

#[test]
fn confirmation_and_rollback() {
    let mut st = LayoutState::new();
    assert!(!has_pending_confirmation(&st));
    assert!(matches!(rollback_layout(&mut st), Err(ManagerError::NoPendingConfirmation)));
    save_rollback_point(&mut st, two_monitors());
    assert!(has_pending_confirmation(&st));
    let t = rollback_layout(&mut st).unwrap();
    assert_eq!(t.paths, two_monitors().paths);
    assert!(!has_pending_confirmation(&st));
    save_rollback_point(&mut st, two_monitors());
    assert!(confirm_layout(&mut st).is_ok());
    assert!(!has_pending_confirmation(&st));
    assert!(matches!(rollback_layout(&mut st), Err(ManagerError::NoPendingConfirmation)));
}

#[test]
fn successful_enable_forgets_kept_topology() {
    let mut state = LayoutState::new();
    state.topology_cache = Some(two_monitors());
    state.pending_confirmation = Some(two_monitors());
    let r = finish_enable(&mut state, "B", 5);
    assert!(!r.success);
    assert_eq!(r.message, "Failed to connect monitor: 5");
    assert!(state.topology_cache.is_some());
    let r = finish_enable(&mut state, "B", 0);
    assert!(r.success);
    assert_eq!(r.message, "Monitor B connected.");
    assert!(state.topology_cache.is_none());
    assert!(state.pending_confirmation.is_some());
}
