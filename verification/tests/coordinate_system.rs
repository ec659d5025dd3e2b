use gcodekit5_ui::coordinate_system::{clamp_axis_count, rotary_axes_available, zero_gcode_for_axes};
use gcodekit5_ui::coordinate_system::{CoordinateSystemId, ZeroType};
use gcodekit5_ui::dro_panel::{CoordinateSystem, UnitSystem};

#[test]
fn test_coordinate_system_id_all() {
    let all = CoordinateSystemId::all();
    assert_eq!(all.len(), 6);
}

#[test]
fn test_coordinate_system_id_gcode() {
    assert_eq!(CoordinateSystemId::G54.gcode(), "G54");
    assert_eq!(CoordinateSystemId::G59.gcode(), "G59");
}

#[test]
fn test_coordinate_system_id_number() {
    assert_eq!(CoordinateSystemId::G54.number(), 1);
    assert_eq!(CoordinateSystemId::G59.number(), 6);
}

#[test]
fn test_coordinate_systems() {
    let systems = CoordinateSystem::all();
    assert_eq!(systems.len(), 6);
}

#[test]
fn all_ids_are_ordered_by_number_and_named_after_it() {
    let all = CoordinateSystemId::all();
    for (i, id) in all.iter().enumerate() {
        assert_eq!(id.number() as usize, i + 1);
        assert_eq!(id.gcode(), format!("G{}", 53 + id.number()));
        assert_eq!(id.to_string(), id.gcode());
    }
}

#[test]
fn zero_commands_use_the_same_axis_words() {
    assert_eq!(ZeroType::X.to_g92_command(), "G92 X0");
    assert_eq!(ZeroType::C.to_g10_command(), "G10 L20 P0 C0");
    assert_eq!(ZeroType::All.to_g92_command(), "G92 X0 Y0 Z0 A0 B0 C0");
    assert_eq!(ZeroType::All.to_g10_command(), "G10 L20 P0 X0 Y0 Z0 A0 B0 C0");
    for t in [ZeroType::X, ZeroType::Y, ZeroType::Z, ZeroType::A, ZeroType::B, ZeroType::C] {
        let a = t.axis_char().unwrap();
        assert!(t.to_g92_command().ends_with(&format!(" {}0", a)));
        assert!(t.to_g10_command().ends_with(&format!(" {}0", a)));
        assert_eq!(t.to_string(), format!("Zero {}", a));
    }
    assert_eq!(ZeroType::All.axis_char(), None);
    assert_eq!(ZeroType::All.to_string(), "Zero All");
}

#[test]
fn readout_names() {
    assert_eq!(UnitSystem::Millimeters.to_string(), "mm");
    assert_eq!(UnitSystem::Inches.to_string(), "in");
    let names: Vec<String> = CoordinateSystem::all().iter().map(|c| c.to_string()).collect();
    assert_eq!(names, vec!["G54", "G55", "G56", "G57", "G58", "G59"]);
}

#[test]
fn panel_helpers() {
    assert_eq!(CoordinateSystemId::G56.default_description(), "Work Coordinate System 3");
    assert_eq!(CoordinateSystemId::G59.short_label(), "WCS 6");
    assert_eq!(clamp_axis_count(0), 3);
    assert!(!rotary_axes_available(3));
    assert!(rotary_axes_available(4));
    assert_eq!(clamp_axis_count(5), 5);
    assert_eq!(clamp_axis_count(200), 6);
    assert_eq!(zero_gcode_for_axes(ZeroType::All, 3), Some("G92 X0 Y0 Z0 A0 B0 C0"));
    assert_eq!(zero_gcode_for_axes(ZeroType::Z, 3), Some("G92 Z0"));
    assert_eq!(zero_gcode_for_axes(ZeroType::A, 3), None);
    assert_eq!(zero_gcode_for_axes(ZeroType::A, 4), Some("G92 A0"));
    assert_eq!(zero_gcode_for_axes(ZeroType::B, 4), None);
    assert_eq!(zero_gcode_for_axes(ZeroType::C, 6), Some("G92 C0"));
    assert_eq!(UnitSystem::Millimeters.toggled(), UnitSystem::Inches);
    assert_eq!(UnitSystem::Inches.toggled(), UnitSystem::Millimeters);
}
