use display_manager::profiles::{
    display_id_to_key, remap_profile_assignments, DisplayAssignment, UserDisplayProfile,
};
use display_manager::types::{DisplayDevice, DisplayId, DisplayMode, DisplayOrientation};

fn id(luid: u64, tid: u32, edid: Option<&str>) -> DisplayId {
    DisplayId { adapter_luid: luid, target_id: tid, edid_hash: edid.map(|s| s.to_string()) }
}

fn device(name: &str, display_id: DisplayId) -> DisplayDevice {
    DisplayDevice {
        index: 0,
        monitor_number: None,
        device_name: name.to_string(),
        device_string: "Monitor".to_string(),
        adapter_name: "Adapter".to_string(),
        display_id,
        is_primary: false,
        is_active: true,
        not_detected: false,
        position_x: 0,
        position_y: 0,
        current_mode: None,
        available_modes: Vec::new(),
        orientation: DisplayOrientation::Landscape,
        scale_factor: 100,
    }
}

fn assignment(display_id: DisplayId, w: u32) -> DisplayAssignment {
    DisplayAssignment {
        display_id,
        mode: DisplayMode { width: w, height: 1080, refresh_rate: 60, bits_per_pixel: 32 },
        position_x: 10,
        position_y: 20,
        is_primary: true,
        orientation: "Portrait".to_string(),
        scale_factor: 125,
        monitor_name: Some("Old".to_string()),
    }
}

fn profile(entries: Vec<(&str, DisplayAssignment)>) -> UserDisplayProfile {
    UserDisplayProfile {
        assignments: entries.into_iter().map(|(k, a)| (k.to_string(), a)).collect(),
        last_known_good_layout: None,
    }
}

#[test]
fn remap_by_exact_edid() {
    let saved = id(1, 1, Some("MON-A"));
    let key = display_id_to_key(&saved);
    let p = profile(vec![(key.as_str(), assignment(saved, 1920))]);
    let now = id(77, 9, Some("MON-A"));
    let displays = vec![device("\\\\.\\DISPLAY1", now)];
    let r = remap_profile_assignments(&p, &displays);
    assert_eq!(r.len(), 1);
    assert_eq!(r[0].0, "edid_MON-A");
    assert_eq!(r[0].1.display_id.adapter_luid, 77);
    assert_eq!(r[0].1.display_id.target_id, 9);
    assert_eq!(r[0].1.mode.width, 1920);
    assert_eq!(r[0].1.orientation, "Portrait");
    assert_eq!(r[0].1.scale_factor, 125);
    assert_eq!(r[0].1.monitor_name.as_deref(), Some("Old"));
}

#[test]
fn remap_by_pnp_id() {
    let p = profile(vec![(
        "edid___?_DISPLAY_MSI30B9_5&1a2b&0&UID516_{e6f07b5f}",
        assignment(id(1, 1, None), 2560),
    )]);
    let displays = vec![
        device("\\\\.\\DISPLAY1", id(5, 1, Some("\\\\?\\DISPLAY#DEL0001#4&x&0&UID1#{g}"))),
        device("\\\\.\\DISPLAY2", id(5, 2, Some("\\\\?\\DISPLAY#MSI30B9#4&y&0&UID999#{g}"))),
    ];
    let r = remap_profile_assignments(&p, &displays);
    assert_eq!(r.len(), 1);
    assert_eq!(r[0].0, "edid___?_DISPLAY_MSI30B9_4&y&0&UID999_{g}");
    assert_eq!(r[0].1.display_id.target_id, 2);
    assert_eq!(r[0].1.mode.width, 2560);
}

#[test]
fn remap_by_normalized_edid() {
    let p = profile(vec![("edid___?_DISPLAY_ABC_1", assignment(id(1, 1, None), 1024))]);
    let displays = vec![device("\\\\.\\DISPLAY3", id(8, 8, Some("\\?#DISPLAY#ABC#1")))];
    let r = remap_profile_assignments(&p, &displays);
    assert_eq!(r.len(), 1);
    assert_eq!(r[0].1.display_id.adapter_luid, 8);
}

#[test]
fn remap_by_adapter_and_target_keeps_key() {
    let p = profile(vec![("42_7", assignment(id(42, 7, None), 1280))]);
    let displays = vec![device("A", id(41, 7, None)), device("B", id(42, 7, None))];
    let r = remap_profile_assignments(&p, &displays);
    assert_eq!(r.len(), 1);
    assert_eq!(r[0].0, "42_7");
    assert_eq!(r[0].1.display_id.adapter_luid, 42);
}

#[test]
fn remap_by_target_when_adapter_changed() {
    let p = profile(vec![("42_7", assignment(id(42, 7, None), 1280))]);
    let displays = vec![device("A", id(50, 6, None)), device("B", id(51, 7, None))];
    let r = remap_profile_assignments(&p, &displays);
    assert_eq!(r.len(), 1);
    assert_eq!(r[0].0, "51_7");
    assert_eq!(r[0].1.display_id.adapter_luid, 51);
}

#[test]
fn remap_by_device_name_takes_last_display_of_that_name() {
    let p = profile(vec![("\\\\.\\DISPLAY2", assignment(id(0, 0, None), 800))]);
    let displays = vec![
        device("\\\\.\\DISPLAY2", id(1, 1, None)),
        device("\\\\.\\DISPLAY2", id(2, 2, None)),
    ];
    let r = remap_profile_assignments(&p, &displays);
    assert_eq!(r.len(), 1);
    assert_eq!(r[0].0, "2_2");
    assert_eq!(r[0].1.display_id.target_id, 2);
}

#[test]
fn remap_skips_unmatched_and_taken_keys() {
    let p = profile(vec![
        ("edid_MON-A", assignment(id(1, 1, None), 1920)),
        ("edid_MON-A", assignment(id(1, 1, None), 1280)),
        ("edid_NOPE", assignment(id(1, 1, None), 640)),
        ("9_9", assignment(id(9, 9, None), 640)),
    ]);
    let displays = vec![device("X", id(3, 3, Some("MON-A")))];
    let r = remap_profile_assignments(&p, &displays);
    assert_eq!(r.len(), 1);
    assert_eq!(r[0].1.mode.width, 1920);
}

#[test]
fn remap_of_empty_profile_is_empty() {
    let p = profile(vec![]);
    let displays = vec![device("X", id(3, 3, Some("MON-A")))];
    assert!(remap_profile_assignments(&p, &displays).is_empty());
}

#[test]
fn profile_saved_from_displays_is_restored_unchanged() {
    let a = id(5, 1, Some("\\\\?\\DISPLAY#MSI30B9#5&1&0&UID4352#{e6f07b5f}"));
    let b = id(5, 2, Some("\\\\?\\DISPLAY#DEL40F5#5&2&0&UID4353#{e6f07b5f}"));
    let displays = vec![device("\\\\.\\DISPLAY1", a.copy()), device("\\\\.\\DISPLAY2", b.copy())];
    let p = UserDisplayProfile {
        assignments: vec![
            (display_id_to_key(&b), assignment(b.copy(), 1280)),
            (display_id_to_key(&a), assignment(a.copy(), 2560)),
        ],
        last_known_good_layout: None,
    };
    let r = remap_profile_assignments(&p, &displays);
    assert_eq!(r.len(), 2);
    assert_eq!(r[0].0, display_id_to_key(&b));
    assert_eq!(r[0].1.display_id.target_id, 2);
    assert_eq!(r[0].1.mode.width, 1280);
    assert_eq!(r[1].0, display_id_to_key(&a));
    assert_eq!(r[1].1.display_id.target_id, 1);
    assert_eq!(r[1].1.mode.width, 2560);
}

#[test]
fn identical_models_share_one_profile_entry() {
    let a = id(5, 1, Some("\\\\?\\DISPLAY#MSI30B9#5&1&0&UID4352#{e6f07b5f}"));
    let b = id(5, 2, Some("\\\\?\\DISPLAY#MSI30B9#5&2&0&UID4353#{e6f07b5f}"));
    let displays = vec![device("\\\\.\\DISPLAY1", a.copy()), device("\\\\.\\DISPLAY2", b.copy())];
    let p = UserDisplayProfile {
        assignments: vec![
            (display_id_to_key(&a), assignment(a.copy(), 2560)),
            (display_id_to_key(&b), assignment(b.copy(), 1280)),
        ],
        last_known_good_layout: None,
    };
    let r = remap_profile_assignments(&p, &displays);
    assert_eq!(r.len(), 1);
    assert_eq!(r[0].1.display_id.target_id, 1);
    assert_eq!(r[0].1.mode.width, 2560);
}

#[test]
fn assignment_keyed_by_display_is_restored_onto_it() {
    let a = id(5, 1, Some("\\\\?\\DISPLAY#MSI30B9#5&1&0&UID4352#{e6f07b5f}"));
    let displays = vec![device("\\\\.\\DISPLAY1", a.copy())];
    let p = UserDisplayProfile {
        assignments: vec![(display_id_to_key(&a), assignment(id(77, 3, None), 1920))],
        last_known_good_layout: None,
    };
    let r = remap_profile_assignments(&p, &displays);
    assert_eq!(r.len(), 1);
    assert_eq!(r[0].0, display_id_to_key(&a));
    assert_eq!(r[0].1.display_id.adapter_luid, 5);
    assert_eq!(r[0].1.display_id.target_id, 1);
    assert_eq!(r[0].1.display_id.edid_hash, a.edid_hash);
    assert_eq!(r[0].1.mode.width, 1920);
    assert_eq!(r[0].1.orientation, "Portrait");
}
