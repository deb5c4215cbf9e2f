use display_manager::backend::{DisplayBackend, MockBackend};
use display_manager::types::{DisplayDevice, DisplayId, DisplayOrientation};

fn device(name: &str) -> DisplayDevice {
    DisplayDevice {
        index: 0,
        monitor_number: Some(1),
        device_name: name.to_string(),
        device_string: "Monitor".to_string(),
        adapter_name: "Adapter".to_string(),
        display_id: DisplayId { adapter_luid: 1, target_id: 2, edid_hash: None },
        is_primary: true,
        is_active: true,
        not_detected: false,
        position_x: 0,
        position_y: 0,
        current_mode: None,
        available_modes: Vec::new(),
        orientation: DisplayOrientation::Landscape,
        scale_factor: 100,
    }
}

#[test]
fn mock_lists_its_displays() {
    let b = MockBackend::new(vec![device("\\\\.\\DISPLAY1"), device("\\\\.\\DISPLAY2")]);
    let list = b.list_displays().unwrap();
    assert_eq!(list.len(), 2);
    assert_eq!(list[1].device_name, "\\\\.\\DISPLAY2");
    assert_eq!(list[0].monitor_number, Some(1));
}

#[test]
fn mock_reports_changes() {
    let b = MockBackend::new(Vec::new());
    let r = b.apply_settings("\\\\.\\DISPLAY1", 1920, 1080, 60, true);
    assert!(r.success);
    assert_eq!(r.message, "mock: settings applied");
    assert_eq!(b.set_primary("\\\\.\\DISPLAY2").message, "mock: \\\\.\\DISPLAY2 set as primary");
    assert_eq!(
        b.set_orientation("\\\\.\\DISPLAY1", DisplayOrientation::Portrait).message,
        "mock: orientation set for \\\\.\\DISPLAY1"
    );
    assert_eq!(b.set_position("\\\\.\\DISPLAY1", -1920, 12).message, "mock: \\\\.\\DISPLAY1 moved to (-1920, 12)");
    let r = b.set_scale("\\\\.\\DISPLAY1", 150);
    assert!(r.success);
    assert_eq!(r.message, "mock: scale set to 150% for \\\\.\\DISPLAY1");
}
