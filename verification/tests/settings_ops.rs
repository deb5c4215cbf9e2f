use display_manager::settings::{
    apply_display_settings, display_refresh_steps, monitor_registry_key, scale_to_dpi,
    set_display_scale, settings_apply_outcome, settings_test_outcome, ModeChoice,
};
use display_manager::topology::{ModeInfo, ModeOrigin, PathInfo, Topology};
use display_manager::types::DisplayMode;

fn mode(w: u32, h: u32, r: u32, b: u32) -> DisplayMode {
    DisplayMode { width: w, height: h, refresh_rate: r, bits_per_pixel: b }
}

fn path(target_high: i32, target_low: u32, target_id: u32) -> PathInfo {
    PathInfo {
        source_adapter_high: 0,
        source_adapter_low: 1,
        source_id: 0,
        source_mode_idx: 0,
        target_adapter_high: target_high,
        target_adapter_low: target_low,
        target_id,
        rotation: 1,
        refresh_numerator: 60,
        refresh_denominator: 1,
        flags: 1,
        raw_index: 0,
    }
}

fn topology(paths: Vec<PathInfo>) -> Topology {
    let m = ModeInfo {
        info_type: 1,
        adapter_high: 0,
        adapter_low: 1,
        id: 0,
        width: 1920,
        height: 1080,
        x: 0,
        y: 0,
        origin: ModeOrigin::Queried(0),
    };
    Topology { paths, modes: vec![m] }
}

#[test]
fn mode_choice_takes_first_matching_listed_mode() {
    let listed = vec![mode(1920, 1080, 60, 32), mode(2560, 1440, 60, 16), mode(2560, 1440, 60, 32), mode(2560, 1440, 60, 0)];
    let r = apply_display_settings(&listed, 2560, 1440, 60);
    assert!(matches!(r, Ok(ModeChoice::Listed(2))));
}

#[test]
fn mode_choice_accepts_unreported_depth() {
    let listed = vec![mode(1920, 1080, 60, 32), mode(1280, 720, 75, 0)];
    let r = apply_display_settings(&listed, 1280, 720, 75);
    assert!(matches!(r, Ok(ModeChoice::Listed(1))));
}

#[test]
fn mode_choice_adjusts_first_mode_when_nothing_matches() {
    let listed = vec![mode(1920, 1080, 60, 24), mode(1280, 720, 60, 24)];
    let r = apply_display_settings(&listed, 3840, 2160, 30);
    match r {
        Ok(ModeChoice::Adjusted { width, height, refresh_rate, bits_per_pixel, fields }) => {
            assert_eq!((width, height, refresh_rate), (3840, 2160, 30));
            assert_eq!(bits_per_pixel, 24);
            assert_eq!(fields, 0x40000 | 0x80000 | 0x400000 | 0x40);
        }
        _ => panic!("expected an adjusted mode"),
    }
}

#[test]
fn mode_choice_defaults_depth_to_32() {
    let listed = vec![mode(1920, 1080, 60, 0)];
    let r = apply_display_settings(&listed, 1024, 768, 60);
    match r {
        Ok(ModeChoice::Adjusted { bits_per_pixel, .. }) => assert_eq!(bits_per_pixel, 32),
        _ => panic!("expected an adjusted mode"),
    }
}

#[test]
fn mode_choice_fails_without_listed_modes() {
    let r = apply_display_settings(&Vec::new(), 1920, 1080, 60);
    match r {
        Err(e) => {
            assert!(!e.success);
            assert_eq!(e.message, "Failed to get display settings.");
        }
        _ => panic!("expected an error"),
    }
}

#[test]
fn mode_choice_searches_only_301_modes() {
    let mut listed = vec![mode(800, 600, 60, 32); 301];
    listed.push(mode(1920, 1080, 60, 32));
    let r = apply_display_settings(&listed, 1920, 1080, 60);
    assert!(matches!(r, Ok(ModeChoice::Adjusted { .. })));
    listed[300] = mode(1920, 1080, 60, 32);
    let r = apply_display_settings(&listed, 1920, 1080, 60);
    assert!(matches!(r, Ok(ModeChoice::Listed(300))));
}

#[test]
fn test_outcome_messages() {
    let m = mode(2560, 1440, 165, 32);
    assert!(settings_test_outcome(0, &m).is_none());
    assert_eq!(settings_test_outcome(-1, &m).unwrap().message, "Display not supported");
    assert_eq!(
        settings_test_outcome(-2, &m).unwrap().message,
        "Bad mode - 2560x1440 @ 165Hz is not supported by this display"
    );
    assert_eq!(settings_test_outcome(-3, &m).unwrap().message, "Bad flags");
    assert_eq!(settings_test_outcome(-4, &m).unwrap().message, "Bad registry");
    let e = settings_test_outcome(-5, &m).unwrap();
    assert!(!e.success);
    assert_eq!(e.message, "Unknown error code -5");
    assert_eq!(settings_test_outcome(7, &m).unwrap().message, "Unknown error code 7");
}

#[test]
fn apply_outcome_messages() {
    let r = settings_apply_outcome(0, "\\\\.\\DISPLAY1");
    assert!(r.success);
    assert_eq!(r.message, "Settings applied to \\\\.\\DISPLAY1.");
    let r = settings_apply_outcome(1, "\\\\.\\DISPLAY2");
    assert!(r.success);
    assert_eq!(r.message, "Settings applied to \\\\.\\DISPLAY2 (restart required).");
    let r = settings_apply_outcome(-1, "X");
    assert!(!r.success);
    assert_eq!(r.message, "Display not supported.");
    assert_eq!(settings_apply_outcome(-2, "X").message, "Bad mode.");
    assert_eq!(settings_apply_outcome(-3, "X").message, "Bad flags.");
    assert_eq!(settings_apply_outcome(-4, "X").message, "Bad registry.");
    let r = settings_apply_outcome(-7, "X");
    assert!(!r.success);
    assert_eq!(r.message, "Failed with code: -7");
}

#[test]
fn dpi_table() {
    assert_eq!(scale_to_dpi(100), (0, 96));
    assert_eq!(scale_to_dpi(125), (1, 120));
    assert_eq!(scale_to_dpi(150), (2, 144));
    assert_eq!(scale_to_dpi(175), (3, 168));
    assert_eq!(scale_to_dpi(200), (4, 192));
    assert_eq!(scale_to_dpi(250), (5, 240));
    assert_eq!(scale_to_dpi(300), (6, 288));
    assert_eq!(scale_to_dpi(400), (7, 384));
    assert_eq!(scale_to_dpi(500), (8, 480));
    assert_eq!(scale_to_dpi(110), (2, 105));
    assert_eq!(scale_to_dpi(0), (2, 0));
}

#[test]
fn monitor_key_from_device_path() {
    let p = Some("\\\\?\\DISPLAY#DEL40F5#5&2e1b3f1&0&UID4352#{e6f07b5f-ee97-4a90-b076-33f57bf4eaa7}".to_string());
    let k: String = monitor_registry_key(&p, 5, 4352).into_iter().collect();
    assert_eq!(k, "DEL40F5");
}

#[test]
fn monitor_key_falls_back_to_luid_and_target() {
    let k: String = monitor_registry_key(&None, 0x1_0000_0010, 257).into_iter().collect();
    assert_eq!(k, "4294967312_257");
    let k: String = monitor_registry_key(&Some("\\\\?\\MONITOR#ABC#1".to_string()), 7, 3).into_iter().collect();
    assert_eq!(k, "7_3");
    let k: String = monitor_registry_key(&Some("DISPLAY#ABC".to_string()), 7, 3).into_iter().collect();
    assert_eq!(k, "7_3");
}

#[test]
fn scale_plan_for_named_display() {
    let t = topology(vec![path(0, 1, 10), path(1, 16, 257)]);
    let names = vec![Some("\\\\.\\DISPLAY1".to_string()), Some("\\\\.\\DISPLAY2".to_string())];
    let paths = vec![None, None];
    let plan = set_display_scale(&t, &names, &paths, "\\\\.\\DISPLAY2", 150).unwrap();
    assert_eq!(plan.dpi_value, 2);
    assert_eq!(plan.dpi_value_text, "2");
    assert_eq!(plan.log_pixels, 144);
    assert_eq!(plan.registry_key_path, "Control Panel\\Desktop\\PerMonitorSettings\\4294967312_257");
    assert_eq!(plan.message, "Scale set to 150% for \\\\.\\DISPLAY2.");
}

#[test]
fn scale_plan_uses_monitor_path() {
    let t = topology(vec![path(0, 1, 10)]);
    let names = vec![Some("\\\\.\\DISPLAY1".to_string())];
    let paths = vec![Some("\\\\?\\DISPLAY#GSM5B08#4&1&UID1#{guid}".to_string())];
    let plan = set_display_scale(&t, &names, &paths, "\\\\.\\DISPLAY1", 125).unwrap();
    assert_eq!(plan.dpi_value_text, "1");
    assert_eq!(plan.log_pixels, 120);
    assert_eq!(plan.registry_key_path, "Control Panel\\Desktop\\PerMonitorSettings\\GSM5B08");
}

#[test]
fn scale_plan_unknown_display() {
    let t = topology(vec![path(0, 1, 10)]);
    let names = vec![Some("\\\\.\\DISPLAY1".to_string())];
    let r = set_display_scale(&t, &names, &vec![None], "\\\\.\\DISPLAY9", 100);
    match r {
        Err(e) => {
            assert!(!e.success);
            assert_eq!(e.message, "Display not found in topology.");
        }
        Ok(_) => panic!("expected an error"),
    }
}

#[test]
fn refresh_steps_switch_and_back() {
    let current = mode(2560, 1440, 144, 32);
    let listed = vec![mode(1920, 1080, 60, 32), mode(2560, 1440, 144, 32), mode(2560, 1440, 0, 32), mode(2560, 1440, 60, 32)];
    let steps = display_refresh_steps(current, &listed);
    assert_eq!(steps, vec![mode(2560, 1440, 60, 32), current]);
}

#[test]
fn refresh_steps_reapply_when_no_other_rate() {
    let current = mode(1920, 1080, 60, 32);
    let listed = vec![mode(1920, 1080, 60, 32), mode(1280, 720, 75, 32)];
    assert_eq!(display_refresh_steps(current, &listed), vec![current]);
}
