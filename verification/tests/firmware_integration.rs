use gcodekit5_ui::firmware_integration::{DialogSetting, DialogValue, FirmwareSettingsIntegration};
use gcodekit5_ui::firmware_settings_panel::{FirmwareParameter, FirmwareSettingsPanel, ParameterType};

#[test]
fn test_firmware_integration_new() {
    let integration = FirmwareSettingsIntegration::new("GRBL", "1.1");
    assert!(!integration.is_loaded);
}

#[test]
fn test_load_grbl_defaults() {
    let mut integration = FirmwareSettingsIntegration::new("GRBL", "1.1");
    assert!(integration.load_grbl_defaults().is_ok());
    assert!(integration.is_loaded);
    assert!(integration.parameter_count() > 0);
}

#[test]
fn test_populate_dialog() {
    let mut integration = FirmwareSettingsIntegration::new("GRBL", "1.1");
    let _ = integration.load_grbl_defaults();

    let mut dialog: Vec<DialogSetting> = Vec::new();
    integration.populate_dialog(&mut dialog);

    assert!(!dialog.is_empty());
    assert!(dialog.iter().any(|s| s.id == "fw_$100"));
}

#[test]
fn test_modified_parameters() {
    let mut integration = FirmwareSettingsIntegration::new("GRBL", "1.1");
    let _ = integration.load_grbl_defaults();

    // Modify a parameter
    let _ = integration
        .firmware_panel
        .set_parameter_value("$100", "500.0");

    let modified = integration.get_modified_parameters();
    assert!(!modified.is_empty());
}

#[test]
fn test_firmware_info() {
    let integration = FirmwareSettingsIntegration::new("GRBL", "1.1");
    let (fw_type, fw_version) = integration.firmware_info();
    assert_eq!(fw_type, "GRBL");
    assert_eq!(fw_version, "1.1");
}

#[test]
fn test_reset_to_defaults() {
    let mut integration = FirmwareSettingsIntegration::new("GRBL", "1.1");
    let _ = integration.load_grbl_defaults();

    // Modify a parameter
    let _ = integration
        .firmware_panel
        .set_parameter_value("$100", "500.0");
    assert!(integration.has_changes());

    // Reset
    integration.reset_to_defaults();
    assert!(!integration.has_changes());
}

#[test]
fn test_parameter_count() {
    let mut integration = FirmwareSettingsIntegration::new("GRBL", "1.1");
    let _ = integration.load_grbl_defaults();
    assert!(integration.parameter_count() > 30);
}

#[test]
fn default_sets_of_each_firmware() {
    let mut integration = FirmwareSettingsIntegration::default();
    assert_eq!(integration.firmware_info(), ("Unknown".to_string(), "Unknown".to_string()));
    integration.load_grbl_defaults().unwrap();
    assert_eq!(integration.parameter_count(), 33);
    assert!(!integration.has_changes());
    integration.load_grblhal_defaults().unwrap();
    assert_eq!(integration.firmware_info(), ("grblHAL".to_string(), "1.1f".to_string()));
    assert_eq!(integration.parameter_count(), 33);
    integration.load_fluidnc_defaults().unwrap();
    assert_eq!(integration.firmware_info(), ("FluidNC".to_string(), "3.0".to_string()));
    assert_eq!(integration.parameter_count(), 26);
    assert!(integration
        .firmware_panel
        .list_parameters()
        .iter()
        .all(|p| p.read_only));
}

#[test]
fn set_value_errors() {
    let mut integration = FirmwareSettingsIntegration::new("GRBL", "1.1");
    integration.load_fluidnc_defaults().unwrap();
    assert_eq!(
        integration.firmware_panel.set_parameter_value("$100", "1"),
        Err("Parameter is read-only: $100".to_string())
    );
    assert_eq!(
        integration.firmware_panel.set_parameter_value("$999", "1"),
        Err("Parameter not found: $999".to_string())
    );
    assert!(!integration.has_changes());
}

#[test]
fn set_value_then_read_and_modified_list() {
    let mut integration = FirmwareSettingsIntegration::new("GRBL", "1.1");
    integration.load_grbl_defaults().unwrap();
    assert_eq!(integration.firmware_panel.set_parameter_value("$100", "500.0"), Ok(()));
    let modified = integration.get_modified_parameters();
    assert_eq!(modified.len(), 1);
    assert_eq!(modified[0].code, "$100");
    assert_eq!(modified[0].value, "500.0");
    // setting the default back clears the modification
    let default = modified[0].default_value.clone();
    integration.firmware_panel.set_parameter_value("$100", &default).unwrap();
    assert!(!integration.has_changes());
}

#[test]
fn backup_then_restore_brings_values_back() {
    let mut integration = FirmwareSettingsIntegration::new("GRBL", "1.1");
    assert_eq!(integration.restore_from_backup(), Err("No backup available".to_string()));
    integration.load_grbl_defaults().unwrap();
    integration.create_backup();
    integration.firmware_panel.set_parameter_value("$110", "9000").unwrap();
    assert!(integration.has_changes());
    assert_eq!(integration.restore_from_backup(), Ok(()));
    assert!(!integration.has_changes());
    assert_eq!(integration.parameter_count(), 33);
}

#[test]
fn adding_a_parameter_with_a_known_code_replaces_it() {
    let mut panel = FirmwareSettingsPanel::new("GRBL", "1.1");
    panel.add_parameter(FirmwareParameter::new("$1", "Idle", "25").with_type(ParameterType::Integer).with_range(0, 254));
    panel.add_parameter(FirmwareParameter::new("$2", "Invert", "0").with_unit("mask").with_description("d"));
    panel.add_parameter(FirmwareParameter::new("$1", "Idle delay", "30").read_only());
    assert_eq!(panel.parameter_count(), 2);
    let list = panel.list_parameters();
    assert_eq!(list[0].name, "Idle delay");
    assert!(list[0].read_only);
    assert_eq!(list[0].range, None);
    assert_eq!(list[1].unit, Some("mask".to_string()));
    assert!(!list[1].is_modified());
    assert_eq!(panel.firmware_type_str(), "GRBL");
    assert_eq!(panel.firmware_version_str(), "1.1");
    panel.set_firmware("grblHAL", "1.1f");
    assert_eq!(panel.firmware_type, "grblHAL");
}

#[test]
fn dialog_entries() {
    let mut integration = FirmwareSettingsIntegration::new("GRBL", "1.1");
    let mut dialog: Vec<DialogSetting> = Vec::new();
    integration.populate_dialog(&mut dialog);
    assert!(dialog.is_empty());
    integration.load_grbl_defaults().unwrap();
    integration.firmware_panel.set_parameter_value("$5", "TRUE").unwrap();
    integration.populate_dialog(&mut dialog);
    assert_eq!(dialog.len(), 33);
    assert_eq!(dialog[0].id, "fw_$0");
    assert_eq!(dialog[0].name, "Step Pulse Microseconds ($0)");
    assert_eq!(dialog[0].description, "Length of step pulse in microseconds [\u{3bc}s]");
    assert_eq!(dialog[0].value, DialogValue::Text("10".to_string()));
    assert_eq!(dialog[4].id, "fw_$4");
    assert_eq!(dialog[4].value, DialogValue::Flag(false));
    assert_eq!(dialog[5].value, DialogValue::Flag(true));
    assert_eq!(dialog[2].description, "Step port polarity mask");
    let mut panel = FirmwareSettingsPanel::new("X", "1");
    panel.add_parameter(FirmwareParameter::new("$9", "Plain", "v"));
    let plain = FirmwareSettingsIntegration { firmware_panel: panel, is_loaded: true };
    let mut d: Vec<DialogSetting> = Vec::new();
    plain.populate_dialog(&mut d);
    assert_eq!(d[0].description, "Firmware parameter");
}

#[test]
fn update_from_dialog_values() {
    let mut integration = FirmwareSettingsIntegration::new("GRBL", "1.1");
    integration.load_grbl_defaults().unwrap();
    let values = vec![
        ("fw_$100".to_string(), "300".to_string()),
        ("fw_$999".to_string(), "1".to_string()),
        ("fw_$100".to_string(), "400".to_string()),
        ("fw_$1".to_string(), "25".to_string()),
    ];
    assert_eq!(integration.update_from_dialog(&values), Ok(()));
    let modified = integration.get_modified_parameters();
    assert_eq!(modified.len(), 1);
    assert_eq!(modified[0].code, "$100");
    assert_eq!(modified[0].value, "300");
    let mut fluid = FirmwareSettingsIntegration::new("FluidNC", "3.0");
    fluid.load_fluidnc_defaults().unwrap();
    assert_eq!(fluid.update_from_dialog(&values), Ok(()));
    assert!(!fluid.has_changes());
}
