use display_manager::enumeration::{
    enumerate_displays, merge_known_monitors, sort_modes, AdapterScan, DisplayScan, KnownMonitor,
};
use display_manager::topology::{ModeInfo, ModeOrigin, PathInfo, Topology};
use display_manager::types::{
    adapter_luid_from_parts, friendly_name_or_none, wide_to_string, ApplyResult, DisplayId,
    DisplayMode, DisplayOrientation, ManagerError,
};

fn mode(w: u32, h: u32, r: u32, b: u32) -> DisplayMode {
    DisplayMode { width: w, height: h, refresh_rate: r, bits_per_pixel: b }
}

fn scan() -> DisplayScan {
    let p0 = PathInfo {
        source_adapter_high: 0,
        source_adapter_low: 0x10,
        source_id: 0,
        source_mode_idx: 0,
        target_adapter_high: 1,
        target_adapter_low: 0x10,
        target_id: 256,
        rotation: 2,
        refresh_numerator: 143981,
        refresh_denominator: 1000,
        flags: 1,
        raw_index: 0,
    };
    let p1 = PathInfo { source_id: 1, source_mode_idx: 0xffff_ffff, target_id: 257, rotation: 1, flags: 0, raw_index: 1, ..p0 };
    let m0 = ModeInfo { info_type: 1, adapter_high: 0, adapter_low: 0x10, id: 0, width: 2560, height: 1440, x: 0, y: 0, origin: ModeOrigin::Queried(0) };
    let m1 = ModeInfo { info_type: 1, adapter_high: 0, adapter_low: 0x10, id: 1, width: 1920, height: 1080, x: 2560, y: 0, origin: ModeOrigin::Queried(1) };
    DisplayScan {
        topology: Topology { paths: vec![p0, p1], modes: vec![m0, m1] },
        gdi_names: vec![Some("\\\\.\\DISPLAY1".to_string()), Some("\\\\.\\DISPLAY2".to_string())],
        friendly_names: vec![Some("MAG274QRF".to_string()), None],
        edid_hashes: vec![Some("\\\\?\\DISPLAY#MSI30B9#1".to_string()), Some("\\\\?\\DISPLAY#DEL4000#2".to_string())],
        adapters: vec![
            AdapterScan {
                device_name: "\\\\.\\DISPLAY1".to_string(),
                device_string: "NVIDIA GeForce".to_string(),
                state_flags: 1,
                modes: vec![mode(1920, 1080, 60, 32), mode(2560, 1440, 144, 32), mode(2560, 1440, 60, 32), mode(1920, 1080, 60, 32), mode(800, 600, 60, 16), mode(0, 0, 60, 32)],
            },
            AdapterScan {
                device_name: "\\\\.\\DISPLAY2".to_string(),
                device_string: "NVIDIA GeForce".to_string(),
                state_flags: 0,
                modes: vec![],
            },
            AdapterScan {
                device_name: "\\\\.\\DISPLAYV1".to_string(),
                device_string: "Mirror".to_string(),
                state_flags: 8,
                modes: vec![],
            },
        ],
    }
}

#[test]
fn enumerate_builds_devices_from_scan() {
    let mut known = Vec::new();
    let ds = enumerate_displays(&scan(), &mut known);
    assert_eq!(ds.len(), 2);
    let d = &ds[0];
    assert_eq!(d.index, 0);
    assert_eq!(d.device_name, "\\\\.\\DISPLAY1");
    assert_eq!(d.device_string, "MAG274QRF");
    assert_eq!(d.adapter_name, "NVIDIA GeForce");
    assert_eq!(d.display_id.adapter_luid, (1u64 << 32) | 0x10);
    assert_eq!(d.display_id.target_id, 256);
    assert!(d.is_primary && d.is_active && !d.not_detected);
    assert_eq!(d.current_mode, Some(mode(2560, 1440, 143, 32)));
    assert_eq!(d.available_modes, vec![mode(2560, 1440, 144, 32), mode(2560, 1440, 60, 32), mode(1920, 1080, 60, 32)]);
    assert_eq!(d.orientation, DisplayOrientation::Portrait);
    assert_eq!(d.scale_factor, 100);
    let e = &ds[1];
    assert_eq!(e.index, 1);
    assert_eq!(e.device_string, "NVIDIA GeForce");
    assert!(!e.is_active && !e.is_primary);
    assert_eq!((e.position_x, e.position_y), (0, 0));
    assert_eq!(e.available_modes, vec![mode(1920, 1080, 60, 32)]);
    assert_eq!(e.current_mode, Some(mode(1920, 1080, 60, 32)));
    assert_eq!(e.orientation, DisplayOrientation::Landscape);
    assert_eq!(known.len(), 2);
    assert_eq!(known[1].device_name, "\\\\.\\DISPLAY2");
}

#[test]
fn known_monitor_stays_listed_when_missing() {
    let mut known = vec![KnownMonitor {
        device_name: "\\\\.\\DISPLAY9".to_string(),
        device_string: "Old TV".to_string(),
        adapter_luid: 5,
        target_id: 6,
        edid_hash: Some("TV".to_string()),
        position_x: -1920,
        position_y: 0,
    }];
    let ds = enumerate_displays(&scan(), &mut known);
    assert_eq!(ds.len(), 3);
    let p = &ds[2];
    assert_eq!(p.index, 2);
    assert_eq!(p.device_name, "\\\\.\\DISPLAY9");
    assert!(p.not_detected && !p.is_active);
    assert_eq!(p.position_x, -1920);
    assert!(p.available_modes.is_empty() && p.current_mode.is_none());
    assert_eq!(p.adapter_name, "");
    assert_eq!(known.len(), 3);
    assert_eq!(known[0].device_name, "\\\\.\\DISPLAY9");
    assert_eq!(known[1].device_name, "\\\\.\\DISPLAY1");
    assert_eq!(known[2].device_name, "\\\\.\\DISPLAY2");
}

#[test]
fn merge_with_nothing_known_remembers_everything() {
    let mut devices = Vec::new();
    let mut known = Vec::new();
    merge_known_monitors(&mut devices, &mut known);
    assert!(devices.is_empty() && known.is_empty());
}

#[test]
fn modes_sort_wider_taller_faster_first() {
    let v = vec![mode(1280, 720, 60, 32), mode(1920, 1080, 60, 32), mode(1920, 1200, 60, 32), mode(1920, 1080, 144, 32)];
    assert_eq!(sort_modes(&v), vec![mode(1920, 1200, 60, 32), mode(1920, 1080, 144, 32), mode(1920, 1080, 60, 32), mode(1280, 720, 60, 32)]);
}

#[test]
fn luid_parts_combine() {
    assert_eq!(adapter_luid_from_parts(0, 0xabc), 0xabc);
    assert_eq!(adapter_luid_from_parts(-1, 1), 0xffff_ffff_0000_0001);
    assert_eq!(DisplayId::from_parts(2, 3, 4, None).adapter_luid, (2u64 << 32) | 3);
}

#[test]
fn wide_strings_stop_at_nul() {
    let w: Vec<u16> = "DISPLAY1\0junk".encode_utf16().collect();
    assert_eq!(wide_to_string(&w), "DISPLAY1");
    let smile: Vec<u16> = "a😀b".encode_utf16().collect();
    assert_eq!(wide_to_string(&smile), "a😀b");
    assert_eq!(wide_to_string(&[0x61, 0xD800, 0x62]), "a\u{FFFD}b");
    assert_eq!(wide_to_string(&[]), "");
}

#[test]
fn blank_friendly_names_are_dropped() {
    assert_eq!(friendly_name_or_none("  \t".to_string()), None);
    assert_eq!(friendly_name_or_none("\u{3000}".to_string()), None);
    assert_eq!(friendly_name_or_none(" Dell ".to_string()), Some(" Dell ".to_string()));
}

#[test]
fn error_messages() {
    assert_eq!(ManagerError::Backend("x".to_string()).message(), "backend error: x");
    assert_eq!(ManagerError::NoPendingConfirmation.message(), "no pending confirmation");
    assert_eq!(ManagerError::Io("denied".to_string()).message(), "io error: denied");
    let r = ApplyResult::from_manager_error(ManagerError::NoPendingConfirmation);
    assert!(!r.success);
    assert_eq!(r.message, "no pending confirmation");
    assert!(ApplyResult::ok("a".to_string()).success);
    assert!(!ApplyResult::err("b".to_string()).success);
}

#[test]
fn display_ids_match_by_edid_then_target() {
    let a = DisplayId { adapter_luid: 1, target_id: 2, edid_hash: Some("E".to_string()) };
    let b = DisplayId { adapter_luid: 9, target_id: 3, edid_hash: Some("E".to_string()) };
    let c = DisplayId { adapter_luid: 9, target_id: 2, edid_hash: Some("F".to_string()) };
    let d = DisplayId { adapter_luid: 9, target_id: 2, edid_hash: None };
    assert!(a.matches_path_by_assignment(&b));
    assert!(!a.matches_path_by_assignment(&c));
    assert!(a.matches_path_by_assignment(&d));
    assert!(d.matches_path_by_assignment(&a));
    assert!(a.matches_path_by_assignment(&a));
}
