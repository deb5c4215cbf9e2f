use display_manager::profiles::{display_id_to_key, AllProfiles, DisplayAssignment, UserDisplayProfile};
use display_manager::session::{
    apply_current_user_profile, apply_profile_for_user, build_current_layout, delete_user_profile,
    orientation_from_name, save_user_profile, ProfileAction,
};
use display_manager::types::{DisplayDevice, DisplayId, DisplayMode, DisplayOrientation};

fn id(luid: u64, tid: u32, edid: Option<&str>) -> DisplayId {
    DisplayId { adapter_luid: luid, target_id: tid, edid_hash: edid.map(|s| s.to_string()) }
}

fn device(name: &str, display_id: DisplayId, x: i32, y: i32, current: Option<DisplayMode>) -> DisplayDevice {
    DisplayDevice {
        index: 0,
        monitor_number: None,
        device_name: name.to_string(),
        device_string: "Generic Monitor".to_string(),
        adapter_name: "Adapter".to_string(),
        display_id,
        is_primary: x == 0 && y == 0,
        is_active: true,
        not_detected: false,
        position_x: x,
        position_y: y,
        current_mode: current,
        available_modes: Vec::new(),
        orientation: DisplayOrientation::Landscape,
        scale_factor: 100,
    }
}

fn mode(w: u32, h: u32, r: u32) -> DisplayMode {
    DisplayMode { width: w, height: h, refresh_rate: r, bits_per_pixel: 32 }
}

fn assignment(display_id: DisplayId, m: DisplayMode, x: i32, y: i32, orientation: &str) -> DisplayAssignment {
    DisplayAssignment {
        display_id,
        mode: m,
        position_x: x,
        position_y: y,
        is_primary: false,
        orientation: orientation.to_string(),
        scale_factor: 100,
        monitor_name: None,
    }
}

fn profiles_with(user: &str, entries: Vec<DisplayAssignment>) -> AllProfiles {
    let assignments = entries.into_iter().map(|a| (display_id_to_key(&a.display_id), a)).collect();
    AllProfiles {
        users: vec![(user.to_string(), UserDisplayProfile { assignments, last_known_good_layout: None })],
    }
}

#[test]
fn orientation_names() {
    assert_eq!(orientation_from_name("Portrait"), DisplayOrientation::Portrait);
    assert_eq!(orientation_from_name("portrait"), DisplayOrientation::Portrait);
    assert_eq!(orientation_from_name("LandscapeFlipped"), DisplayOrientation::LandscapeFlipped);
    assert_eq!(orientation_from_name("landscapeflipped"), DisplayOrientation::LandscapeFlipped);
    assert_eq!(orientation_from_name("PortraitFlipped"), DisplayOrientation::PortraitFlipped);
    assert_eq!(orientation_from_name("portraitflipped"), DisplayOrientation::PortraitFlipped);
    assert_eq!(orientation_from_name("Landscape"), DisplayOrientation::Landscape);
    assert_eq!(orientation_from_name("PORTRAIT"), DisplayOrientation::Landscape);
    assert_eq!(orientation_from_name(""), DisplayOrientation::Landscape);
}

#[test]
fn profile_actions_rotate_apply_and_move() {
    let all = profiles_with("alice", vec![assignment(id(1, 1, Some("MON-A")), mode(2560, 1440, 144), -2560, 0, "Portrait")]);
    let displays = vec![device("\\\\.\\DISPLAY3", id(9, 4, Some("MON-A")), 0, 0, Some(mode(1920, 1080, 60)))];
    let actions = apply_profile_for_user(&all, "alice", &displays);
    assert_eq!(actions.len(), 3);
    match &actions[0] {
        ProfileAction::SetOrientation { device_name, orientation } => {
            assert_eq!(device_name, "\\\\.\\DISPLAY3");
            assert_eq!(*orientation, DisplayOrientation::Portrait);
        }
        a => panic!("unexpected {:?}", a),
    }
    match &actions[1] {
        ProfileAction::ApplySettings { device_name, width, height, refresh_rate, persist } => {
            assert_eq!(device_name, "\\\\.\\DISPLAY3");
            assert_eq!((*width, *height, *refresh_rate, *persist), (2560, 1440, 144, true));
        }
        a => panic!("unexpected {:?}", a),
    }
    match &actions[2] {
        ProfileAction::SetPosition { device_name, x, y } => {
            assert_eq!(device_name, "\\\\.\\DISPLAY3");
            assert_eq!((*x, *y), (-2560, 0));
        }
        a => panic!("unexpected {:?}", a),
    }
}

#[test]
fn profile_actions_only_mode_when_already_placed() {
    let all = profiles_with("alice", vec![assignment(id(1, 1, Some("MON-A")), mode(1920, 1080, 60), 0, 0, "Landscape")]);
    let displays = vec![device("\\\\.\\DISPLAY1", id(1, 1, Some("MON-A")), 0, 0, None)];
    let actions = apply_profile_for_user(&all, "alice", &displays);
    assert_eq!(actions.len(), 1);
    assert!(matches!(actions[0], ProfileAction::ApplySettings { width: 1920, height: 1080, refresh_rate: 60, persist: true, .. }));
}

#[test]
fn profile_actions_unknown_user() {
    let all = profiles_with("alice", vec![]);
    let actions = apply_profile_for_user(&all, "bob", &Vec::new());
    assert_eq!(actions.len(), 1);
    match &actions[0] {
        ProfileAction::Report(r) => {
            assert!(!r.success);
            assert_eq!(r.message, "No profile found for user 'bob'");
        }
        a => panic!("unexpected {:?}", a),
    }
}

#[test]
fn profile_actions_no_matching_display() {
    let all = profiles_with("alice", vec![assignment(id(1, 1, Some("MON-A")), mode(1920, 1080, 60), 0, 0, "Landscape")]);
    let displays = vec![device("\\\\.\\DISPLAY1", id(2, 2, Some("MON-B")), 0, 0, None)];
    let actions = apply_profile_for_user(&all, "alice", &displays);
    assert_eq!(actions.len(), 1);
    match &actions[0] {
        ProfileAction::Report(r) => {
            assert!(!r.success);
            assert_eq!(r.message, "No matching displays found for profile");
        }
        a => panic!("unexpected {:?}", a),
    }
}

#[test]
fn login_profile_sets_modes_by_target() {
    let all = profiles_with(
        "alice",
        vec![
            assignment(id(1, 1, Some("MON-A")), mode(2560, 1440, 144), 0, 0, "Landscape"),
            assignment(id(5, 7, None), mode(1280, 1024, 75), 2560, 0, "Landscape"),
        ],
    );
    let displays = vec![
        device("\\\\.\\DISPLAY1", id(3, 1, Some("MON-A")), 0, 0, None),
        device("\\\\.\\DISPLAY2", id(5, 7, None), 2560, 0, None),
    ];
    let actions = apply_current_user_profile(&all, "alice", &displays);
    assert_eq!(actions.len(), 2);
    assert!(matches!(&actions[0], ProfileAction::ApplySettings { device_name, width: 2560, .. } if device_name == "\\\\.\\DISPLAY1"));
    assert!(matches!(&actions[1], ProfileAction::ApplySettings { device_name, width: 1280, .. } if device_name == "\\\\.\\DISPLAY2"));
    assert!(apply_current_user_profile(&all, "carol", &displays).is_empty());
}

#[test]
fn current_layout_skips_displays_without_mode() {
    let displays = vec![
        device("\\\\.\\DISPLAY1", id(1, 1, Some("MON-A")), 0, 0, Some(mode(1920, 1080, 60))),
        device("\\\\.\\DISPLAY2", id(1, 2, None), 1920, 0, None),
    ];
    let layout = build_current_layout(&displays);
    assert_eq!(layout.len(), 1);
    assert_eq!(layout[0].mode, mode(1920, 1080, 60));
    assert_eq!(layout[0].orientation, "Landscape");
    assert_eq!(layout[0].monitor_name.as_deref(), Some("Generic Monitor"));
    assert!(layout[0].is_primary);
}

#[test]
fn save_then_delete_profile() {
    let mut all = AllProfiles { users: Vec::new() };
    let displays = vec![device("\\\\.\\DISPLAY1", id(1, 1, Some("MON-A")), 0, 0, Some(mode(1920, 1080, 60)))];
    let a = assignment(id(1, 1, Some("MON-A")), mode(1920, 1080, 60), 0, 0, "Landscape");
    save_user_profile(&mut all, "alice", vec![("edid_MON-A".to_string(), a)], &displays);
    assert_eq!(all.users.len(), 1);
    assert_eq!(all.users[0].0, "alice");
    assert_eq!(all.users[0].1.assignments.len(), 1);
    assert_eq!(all.users[0].1.last_known_good_layout.as_ref().map(|l| l.len()), Some(1));

    let b = assignment(id(1, 1, Some("MON-A")), mode(1280, 720, 60), 0, 0, "Portrait");
    save_user_profile(&mut all, "alice", vec![("edid_MON-A".to_string(), b)], &Vec::new());
    assert_eq!(all.users.len(), 1);
    assert_eq!(all.users[0].1.assignments[0].1.mode.width, 1280);
    assert_eq!(all.users[0].1.last_known_good_layout.as_ref().map(|l| l[0].mode.width), Some(1920));

    save_user_profile(&mut all, "bob", Vec::new(), &Vec::new());
    assert_eq!(all.users.len(), 2);
    assert!(all.users[1].1.last_known_good_layout.is_none());

    delete_user_profile(&mut all, "alice");
    assert_eq!(all.users.len(), 1);
    assert_eq!(all.users[0].0, "bob");
    delete_user_profile(&mut all, "nobody");
    assert_eq!(all.users.len(), 1);
}
