use display_manager::profiles::{
    display_id_to_key, extract_pnp_id, extract_uid, parse_display_key, set_startup_enabled,
    StartupChange,
};
use display_manager::types::DisplayId;

fn chars(s: &str) -> Vec<char> {
    s.chars().collect()
}

fn text(v: &Vec<char>) -> String {
    v.iter().collect()
}

#[test]
fn key_of_display_with_edid_sanitizes_separators() {
    let id = DisplayId {
        adapter_luid: 7,
        target_id: 3,
        edid_hash: Some("\\\\?\\DISPLAY#MSI30B9#5&1a2b&0&UID516#{e6f07b5f}".to_string()),
    };
    assert_eq!(display_id_to_key(&id), "edid___?_DISPLAY_MSI30B9_5&1a2b&0&UID516_{e6f07b5f}");
}

#[test]
fn key_of_display_without_edid_joins_adapter_and_target() {
    let id = DisplayId { adapter_luid: 123456789012, target_id: 4353, edid_hash: None };
    assert_eq!(display_id_to_key(&id), "123456789012_4353");
    let zero = DisplayId { adapter_luid: 0, target_id: 0, edid_hash: None };
    assert_eq!(display_id_to_key(&zero), "0_0");
}

#[test]
fn parse_key_reads_adapter_and_target() {
    assert_eq!(parse_display_key("123_4"), Some((123, 4)));
    assert_eq!(parse_display_key("18446744073709551615_4294967295"), Some((u64::MAX, u32::MAX)));
    assert_eq!(parse_display_key("+5_+6"), Some((5, 6)));
}

#[test]
fn parse_key_refuses_other_keys() {
    assert_eq!(parse_display_key("edid_123_4"), None);
    assert_eq!(parse_display_key("1_2_3"), None);
    assert_eq!(parse_display_key("12"), None);
    assert_eq!(parse_display_key(""), None);
    assert_eq!(parse_display_key("_4"), None);
    assert_eq!(parse_display_key("4_"), None);
    assert_eq!(parse_display_key("a_1"), None);
    assert_eq!(parse_display_key("-1_1"), None);
    assert_eq!(parse_display_key("+_1"), None);
    assert_eq!(parse_display_key("18446744073709551616_1"), None);
    assert_eq!(parse_display_key("1_4294967296"), None);
    assert_eq!(parse_display_key("\\\\.\\DISPLAY1"), None);
}

#[test]
fn key_round_trip() {
    for (luid, tid) in [(0u64, 0u32), (1, 2), (99999, 7), (u64::MAX, u32::MAX)] {
        let id = DisplayId { adapter_luid: luid, target_id: tid, edid_hash: None };
        assert_eq!(parse_display_key(&display_id_to_key(&id)), Some((luid, tid)));
    }
    let id = DisplayId { adapter_luid: 5, target_id: 6, edid_hash: Some("MON".to_string()) };
    assert_eq!(parse_display_key(&display_id_to_key(&id)), None);
}

#[test]
fn pnp_id_from_device_path_and_key() {
    let path = chars("\\\\?\\DISPLAY#MSI30B9#5&1a2b&0&UID516#{e6f07b5f}");
    assert_eq!(extract_pnp_id(&path).map(|v| text(&v)), Some("MSI30B9".to_string()));
    let key = chars("__?_DISPLAY_MSI30B9_5&1a2b&0&UID516_{e6f07b5f}");
    assert_eq!(extract_pnp_id(&key).map(|v| text(&v)), Some("MSI30B9".to_string()));
    assert_eq!(extract_pnp_id(&chars("no display here")), None);
    assert_eq!(extract_pnp_id(&chars("DISPLAY##x")), None);
    assert_eq!(extract_pnp_id(&chars("DISPLAY#ABC")), None);
}

#[test]
fn uid_from_device_path() {
    let path = chars("\\\\?\\DISPLAY#MSI30B9#5&1a2b&0&UID516#{e6f07b5f}");
    assert_eq!(extract_uid(&path).map(|v| text(&v)), Some("UID516".to_string()));
    assert_eq!(extract_uid(&chars("x&UID517_{g}")).map(|v| text(&v)), Some("UID517".to_string()));
    assert_eq!(extract_uid(&chars("x&UID_1")), None);
    assert_eq!(extract_uid(&chars("x&UID123")), None);
    assert_eq!(extract_uid(&chars("nothing")), None);
}

#[test]
fn startup_command_quotes_the_program() {
    match set_startup_enabled(true, "C:\\Program Files\\Display Manager\\dm.exe") {
        StartupChange::SetValue { name, command } => {
            assert_eq!(name, "DisplayManager");
            assert_eq!(command, "\"C:\\Program Files\\Display Manager\\dm.exe\" --apply-profile");
        }
        other => panic!("unexpected {:?}", other),
    }
    match set_startup_enabled(false, "x") {
        StartupChange::DeleteValue { name } => assert_eq!(name, "DisplayManager"),
        other => panic!("unexpected {:?}", other),
    }
}
