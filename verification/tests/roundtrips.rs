use display_manager::session::orientation_from_name;
use display_manager::types::{orientation_debug_name, orientation_from_rotation, rotation_for_orientation, DisplayOrientation};

const ALL: [DisplayOrientation; 4] = [
    DisplayOrientation::Landscape,
    DisplayOrientation::Portrait,
    DisplayOrientation::LandscapeFlipped,
    DisplayOrientation::PortraitFlipped,
];

#[test]
fn saved_orientation_names_read_back() {
    for o in ALL {
        let name: String = orientation_debug_name(o).into_iter().collect();
        assert_eq!(orientation_from_name(&name), o);
    }
}

#[test]
fn rotation_codes_read_back() {
    assert_eq!(rotation_for_orientation(DisplayOrientation::Landscape), 1);
    assert_eq!(rotation_for_orientation(DisplayOrientation::Portrait), 2);
    assert_eq!(rotation_for_orientation(DisplayOrientation::LandscapeFlipped), 3);
    assert_eq!(rotation_for_orientation(DisplayOrientation::PortraitFlipped), 4);
    for o in ALL {
        assert_eq!(orientation_from_rotation(rotation_for_orientation(o)), o);
    }
    assert_eq!(orientation_from_rotation(1), DisplayOrientation::Landscape);
    assert_eq!(orientation_from_rotation(9), DisplayOrientation::Landscape);
}
