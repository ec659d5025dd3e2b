//! Firmware settings integration: loads the default parameter sets of the
//! supported firmwares into a firmware settings panel and gives the settings
//! dialog what it needs (modified parameters, backup and restore, reset).

use vstd::prelude::*;
use crate::firmware_settings_panel::{
    FirmwareParameter, FirmwareSettingsPanel, ParamSpec, ParameterType, first_code, modified_params,
    distinct_codes, lemma_first_code_unique, param_spec, params_view, reset_params, set_value_error,
    with_params,
};
use crate::text::{first_key, lemma_first_key, push_str};

verus! {

/// The GRBL 1.1 standard settings.
pub open spec fn grbl_defaults() -> Seq<ParamSpec> {
    seq![
        ParamSpec {
            code: "$0"@,
            name: "Step Pulse Microseconds"@,
            value: "10"@,
            default_value: "10"@,
            param_type: ParameterType::Integer,
            range: Some((1, 127)),
            unit: Some("\u{3bc}s"@),
            description: Some("Length of step pulse in microseconds"@),
            read_only: false,
        },
        ParamSpec {
            code: "$1"@,
            name: "Stepping Idle Delay"@,
            value: "25"@,
            default_value: "25"@,
            param_type: ParameterType::Integer,
            range: Some((0, 254)),
            unit: Some("ms"@),
            description: Some("Delay for motor idle detection"@),
            read_only: false,
        },
        ParamSpec {
            code: "$2"@,
            name: "Step Port Invert"@,
            value: "0"@,
            default_value: "0"@,
            param_type: ParameterType::Integer,
            range: Some((0, 255)),
            unit: None,
            description: Some("Step port polarity mask"@),
            read_only: false,
        },
        ParamSpec {
            code: "$3"@,
            name: "Direction Port Invert"@,
            value: "0"@,
            default_value: "0"@,
            param_type: ParameterType::Integer,
            range: Some((0, 255)),
            unit: None,
            description: Some("Direction port polarity mask"@),
            read_only: false,
        },
        ParamSpec {
            code: "$4"@,
            name: "Stepper Enable Invert"@,
            value: "0"@,
            default_value: "0"@,
            param_type: ParameterType::Boolean,
            range: None,
            unit: None,
            description: Some("Invert stepper enable pin"@),
            read_only: false,
        },
        ParamSpec {
            code: "$5"@,
            name: "Limit Pins Invert"@,
            value: "0"@,
            default_value: "0"@,
            param_type: ParameterType::Boolean,
            range: None,
            unit: None,
            description: Some("Invert limit pins"@),
            read_only: false,
        },
        ParamSpec {
            code: "$6"@,
            name: "Probe Pin Invert"@,
            value: "0"@,
            default_value: "0"@,
            param_type: ParameterType::Boolean,
            range: None,
            unit: None,
            description: Some("Invert probe pin"@),
            read_only: false,
        },
        ParamSpec {
            code: "$10"@,
            name: "Status Report Mask"@,
            value: "1"@,
            default_value: "1"@,
            param_type: ParameterType::Integer,
            range: Some((0, 255)),
            unit: None,
            description: Some("Status report option mask"@),
            read_only: false,
        },
        ParamSpec {
            code: "$11"@,
            name: "Junction Deviation"@,
            value: "0.01"@,
            default_value: "0.01"@,
            param_type: ParameterType::Float,
            range: Some((0, 1)),
            unit: Some("mm"@),
            description: Some("Arc tolerance for corner deviation"@),
            read_only: false,
        },
        ParamSpec {
            code: "$12"@,
            name: "Arc Tolerance"@,
            value: "0.002"@,
            default_value: "0.002"@,
            param_type: ParameterType::Float,
            range: Some((0, 1)),
            unit: Some("mm"@),
            description: Some("Maximum arc segment deviation"@),
            read_only: false,
        },
        ParamSpec {
            code: "$13"@,
            name: "Report Inches"@,
            value: "0"@,
            default_value: "0"@,
            param_type: ParameterType::Boolean,
            range: None,
            unit: None,
            description: Some("Report position in inches (true) or mm (false)"@),
            read_only: false,
        },
        ParamSpec {
            code: "$14"@,
            name: "Control Pin Invert"@,
            value: "0"@,
            default_value: "0"@,
            param_type: ParameterType::Integer,
            range: Some((0, 255)),
            unit: None,
            description: Some("Control pin invert mask"@),
            read_only: false,
        },
        ParamSpec {
            code: "$15"@,
            name: "Control Pin Pull-Up"@,
            value: "0"@,
            default_value: "0"@,
            param_type: ParameterType::Integer,
            range: Some((0, 255)),
            unit: None,
            description: Some("Control pin pull-up mask"@),
            read_only: false,
        },
        ParamSpec {
            code: "$16"@,
            name: "Limit Pins Pull-Up"@,
            value: "1"@,
            default_value: "1"@,
            param_type: ParameterType::Boolean,
            range: None,
            unit: None,
            description: Some("Limit pins pull-up enable"@),
            read_only: false,
        },
        ParamSpec {
            code: "$17"@,
            name: "Probe Pin Pull-Up"@,
            value: "1"@,
            default_value: "1"@,
            param_type: ParameterType::Boolean,
            range: None,
            unit: None,
            description: Some("Probe pin pull-up enable"@),
            read_only: false,
        },
        ParamSpec {
            code: "$33"@,
            name: "Spindle PWM Frequency"@,
            value: "5000"@,
            default_value: "5000"@,
            param_type: ParameterType::Integer,
            range: Some((0, 65535)),
            unit: Some("Hz"@),
            description: Some("Spindle PWM frequency"@),
            read_only: false,
        },
        ParamSpec {
            code: "$34"@,
            name: "Spindle PWM Off Value"@,
            value: "0"@,
            default_value: "0"@,
            param_type: ParameterType::Float,
            range: Some((0, 100)),
            unit: Some("%"@),
            description: Some("Spindle off PWM output percentage"@),
            read_only: false,
        },
        ParamSpec {
            code: "$35"@,
            name: "Spindle PWM Min Value"@,
            value: "0"@,
            default_value: "0"@,
            param_type: ParameterType::Float,
            range: Some((0, 100)),
            unit: Some("%"@),
            description: Some("Spindle minimum PWM output percentage"@),
            read_only: false,
        },
        ParamSpec {
            code: "$36"@,
            name: "Spindle PWM Max Value"@,
            value: "100"@,
            default_value: "100"@,
            param_type: ParameterType::Float,
            range: Some((0, 100)),
            unit: Some("%"@),
            description: Some("Spindle maximum PWM output percentage"@),
            read_only: false,
        },
        ParamSpec {
            code: "$37"@,
            name: "Spindle Enable Invert"@,
            value: "0"@,
            default_value: "0"@,
            param_type: ParameterType::Boolean,
            range: None,
            unit: None,
            description: Some("Invert spindle enable pin"@),
            read_only: false,
        },
        ParamSpec {
            code: "$38"@,
            name: "Spindle Direction Invert"@,
            value: "0"@,
            default_value: "0"@,
            param_type: ParameterType::Boolean,
            range: None,
            unit: None,
            description: Some("Invert spindle direction pin"@),
            read_only: false,
        },
        ParamSpec {
            code: "$100"@,
            name: "X Steps per mm"@,
            value: "250.0"@,
            default_value: "250.0"@,
            param_type: ParameterType::Float,
            range: Some((1, 30000)),
            unit: Some("steps/mm"@),
            description: Some("X-axis steps per millimeter"@),
            read_only: false,
        },
        ParamSpec {
            code: "$101"@,
            name: "Y Steps per mm"@,
            value: "250.0"@,
            default_value: "250.0"@,
            param_type: ParameterType::Float,
            range: Some((1, 30000)),
            unit: Some("steps/mm"@),
            description: Some("Y-axis steps per millimeter"@),
            read_only: false,
        },
        ParamSpec {
            code: "$102"@,
            name: "Z Steps per mm"@,
            value: "250.0"@,
            default_value: "250.0"@,
            param_type: ParameterType::Float,
            range: Some((1, 30000)),
            unit: Some("steps/mm"@),
            description: Some("Z-axis steps per millimeter"@),
            read_only: false,
        },
        ParamSpec {
            code: "$110"@,
            name: "X Max Rate"@,
            value: "1000.0"@,
            default_value: "1000.0"@,
            param_type: ParameterType::Float,
            range: Some((1, 30000)),
            unit: Some("mm/min"@),
            description: Some("X-axis maximum rate"@),
            read_only: false,
        },
        ParamSpec {
            code: "$111"@,
            name: "Y Max Rate"@,
            value: "1000.0"@,
            default_value: "1000.0"@,
            param_type: ParameterType::Float,
            range: Some((1, 30000)),
            unit: Some("mm/min"@),
            description: Some("Y-axis maximum rate"@),
            read_only: false,
        },
        ParamSpec {
            code: "$112"@,
            name: "Z Max Rate"@,
            value: "1000.0"@,
            default_value: "1000.0"@,
            param_type: ParameterType::Float,
            range: Some((1, 30000)),
            unit: Some("mm/min"@),
            description: Some("Z-axis maximum rate"@),
            read_only: false,
        },
        ParamSpec {
            code: "$120"@,
            name: "X Acceleration"@,
            value: "10.0"@,
            default_value: "10.0"@,
            param_type: ParameterType::Float,
            range: Some((1, 1000)),
            unit: Some("mm/s\u{b2}"@),
            description: Some("X-axis acceleration"@),
            read_only: false,
        },
        ParamSpec {
            code: "$121"@,
            name: "Y Acceleration"@,
            value: "10.0"@,
            default_value: "10.0"@,
            param_type: ParameterType::Float,
            range: Some((1, 1000)),
            unit: Some("mm/s\u{b2}"@),
            description: Some("Y-axis acceleration"@),
            read_only: false,
        },
        ParamSpec {
            code: "$122"@,
            name: "Z Acceleration"@,
            value: "10.0"@,
            default_value: "10.0"@,
            param_type: ParameterType::Float,
            range: Some((1, 1000)),
            unit: Some("mm/s\u{b2}"@),
            description: Some("Z-axis acceleration"@),
            read_only: false,
        },
        ParamSpec {
            code: "$130"@,
            name: "X Max Travel"@,
            value: "200.0"@,
            default_value: "200.0"@,
            param_type: ParameterType::Float,
            range: Some((1, 10000)),
            unit: Some("mm"@),
            description: Some("X-axis maximum travel distance"@),
            read_only: false,
        },
        ParamSpec {
            code: "$131"@,
            name: "Y Max Travel"@,
            value: "200.0"@,
            default_value: "200.0"@,
            param_type: ParameterType::Float,
            range: Some((1, 10000)),
            unit: Some("mm"@),
            description: Some("Y-axis maximum travel distance"@),
            read_only: false,
        },
        ParamSpec {
            code: "$132"@,
            name: "Z Max Travel"@,
            value: "200.0"@,
            default_value: "200.0"@,
            param_type: ParameterType::Float,
            range: Some((1, 10000)),
            unit: Some("mm"@),
            description: Some("Z-axis maximum travel distance"@),
            read_only: false,
        },
    ]
}

/// The parameters of the GRBL 1.1 standard settings.
fn grbl_parameters() -> (v: Vec<FirmwareParameter>)
    ensures
        params_view(v@) == grbl_defaults(),
{
    let v = vec![
        FirmwareParameter::new("$0", "Step Pulse Microseconds", "10").with_type(ParameterType::Integer).with_range(1, 127).with_unit("\u{3bc}s").with_description("Length of step pulse in microseconds"),
        FirmwareParameter::new("$1", "Stepping Idle Delay", "25").with_type(ParameterType::Integer).with_range(0, 254).with_unit("ms").with_description("Delay for motor idle detection"),
        FirmwareParameter::new("$2", "Step Port Invert", "0").with_type(ParameterType::Integer).with_range(0, 255).with_description("Step port polarity mask"),
        FirmwareParameter::new("$3", "Direction Port Invert", "0").with_type(ParameterType::Integer).with_range(0, 255).with_description("Direction port polarity mask"),
        FirmwareParameter::new("$4", "Stepper Enable Invert", "0").with_type(ParameterType::Boolean).with_description("Invert stepper enable pin"),
        FirmwareParameter::new("$5", "Limit Pins Invert", "0").with_type(ParameterType::Boolean).with_description("Invert limit pins"),
        FirmwareParameter::new("$6", "Probe Pin Invert", "0").with_type(ParameterType::Boolean).with_description("Invert probe pin"),
        FirmwareParameter::new("$10", "Status Report Mask", "1").with_type(ParameterType::Integer).with_range(0, 255).with_description("Status report option mask"),
        FirmwareParameter::new("$11", "Junction Deviation", "0.01").with_type(ParameterType::Float).with_range(0, 1).with_unit("mm").with_description("Arc tolerance for corner deviation"),
        FirmwareParameter::new("$12", "Arc Tolerance", "0.002").with_type(ParameterType::Float).with_range(0, 1).with_unit("mm").with_description("Maximum arc segment deviation"),
        FirmwareParameter::new("$13", "Report Inches", "0").with_type(ParameterType::Boolean).with_description("Report position in inches (true) or mm (false)"),
        FirmwareParameter::new("$14", "Control Pin Invert", "0").with_type(ParameterType::Integer).with_range(0, 255).with_description("Control pin invert mask"),
        FirmwareParameter::new("$15", "Control Pin Pull-Up", "0").with_type(ParameterType::Integer).with_range(0, 255).with_description("Control pin pull-up mask"),
        FirmwareParameter::new("$16", "Limit Pins Pull-Up", "1").with_type(ParameterType::Boolean).with_description("Limit pins pull-up enable"),
        FirmwareParameter::new("$17", "Probe Pin Pull-Up", "1").with_type(ParameterType::Boolean).with_description("Probe pin pull-up enable"),
        FirmwareParameter::new("$33", "Spindle PWM Frequency", "5000").with_type(ParameterType::Integer).with_range(0, 65535).with_unit("Hz").with_description("Spindle PWM frequency"),
        FirmwareParameter::new("$34", "Spindle PWM Off Value", "0").with_type(ParameterType::Float).with_range(0, 100).with_unit("%").with_description("Spindle off PWM output percentage"),
        FirmwareParameter::new("$35", "Spindle PWM Min Value", "0").with_type(ParameterType::Float).with_range(0, 100).with_unit("%").with_description("Spindle minimum PWM output percentage"),
        FirmwareParameter::new("$36", "Spindle PWM Max Value", "100").with_type(ParameterType::Float).with_range(0, 100).with_unit("%").with_description("Spindle maximum PWM output percentage"),
        FirmwareParameter::new("$37", "Spindle Enable Invert", "0").with_type(ParameterType::Boolean).with_description("Invert spindle enable pin"),
        FirmwareParameter::new("$38", "Spindle Direction Invert", "0").with_type(ParameterType::Boolean).with_description("Invert spindle direction pin"),
        FirmwareParameter::new("$100", "X Steps per mm", "250.0").with_type(ParameterType::Float).with_range(1, 30000).with_unit("steps/mm").with_description("X-axis steps per millimeter"),
        FirmwareParameter::new("$101", "Y Steps per mm", "250.0").with_type(ParameterType::Float).with_range(1, 30000).with_unit("steps/mm").with_description("Y-axis steps per millimeter"),
        FirmwareParameter::new("$102", "Z Steps per mm", "250.0").with_type(ParameterType::Float).with_range(1, 30000).with_unit("steps/mm").with_description("Z-axis steps per millimeter"),
        FirmwareParameter::new("$110", "X Max Rate", "1000.0").with_type(ParameterType::Float).with_range(1, 30000).with_unit("mm/min").with_description("X-axis maximum rate"),
        FirmwareParameter::new("$111", "Y Max Rate", "1000.0").with_type(ParameterType::Float).with_range(1, 30000).with_unit("mm/min").with_description("Y-axis maximum rate"),
        FirmwareParameter::new("$112", "Z Max Rate", "1000.0").with_type(ParameterType::Float).with_range(1, 30000).with_unit("mm/min").with_description("Z-axis maximum rate"),
        FirmwareParameter::new("$120", "X Acceleration", "10.0").with_type(ParameterType::Float).with_range(1, 1000).with_unit("mm/s\u{b2}").with_description("X-axis acceleration"),
        FirmwareParameter::new("$121", "Y Acceleration", "10.0").with_type(ParameterType::Float).with_range(1, 1000).with_unit("mm/s\u{b2}").with_description("Y-axis acceleration"),
        FirmwareParameter::new("$122", "Z Acceleration", "10.0").with_type(ParameterType::Float).with_range(1, 1000).with_unit("mm/s\u{b2}").with_description("Z-axis acceleration"),
        FirmwareParameter::new("$130", "X Max Travel", "200.0").with_type(ParameterType::Float).with_range(1, 10000).with_unit("mm").with_description("X-axis maximum travel distance"),
        FirmwareParameter::new("$131", "Y Max Travel", "200.0").with_type(ParameterType::Float).with_range(1, 10000).with_unit("mm").with_description("Y-axis maximum travel distance"),
        FirmwareParameter::new("$132", "Z Max Travel", "200.0").with_type(ParameterType::Float).with_range(1, 10000).with_unit("mm").with_description("Z-axis maximum travel distance"),
    ];
    proof {
        assert(params_view(v@) =~= grbl_defaults());
    }
    v
}

/// The FluidNC settings, all read-only (FluidNC is configured through YAML files).
pub open spec fn fluidnc_defaults() -> Seq<ParamSpec> {
    seq![
        ParamSpec {
            code: "$0"@,
            name: "Step Pulse Microseconds"@,
            value: "4"@,
            default_value: "4"@,
            param_type: ParameterType::Integer,
            range: None,
            unit: Some("\u{3bc}s"@),
            description: Some("Length of step pulse in microseconds"@),
            read_only: true,
        },
        ParamSpec {
            code: "$1"@,
            name: "Stepper Idle Lock Time"@,
            value: "250"@,
            default_value: "250"@,
            param_type: ParameterType::Integer,
            range: None,
            unit: Some("ms"@),
            description: Some("Delay for motor idle detection"@),
            read_only: true,
        },
        ParamSpec {
            code: "$2"@,
            name: "Step Port Invert"@,
            value: "0"@,
            default_value: "0"@,
            param_type: ParameterType::Integer,
            range: None,
            unit: None,
            description: Some("Step port polarity mask"@),
            read_only: true,
        },
        ParamSpec {
            code: "$3"@,
            name: "Direction Port Invert"@,
            value: "0"@,
            default_value: "0"@,
            param_type: ParameterType::Integer,
            range: None,
            unit: None,
            description: Some("Direction port polarity mask"@),
            read_only: true,
        },
        ParamSpec {
            code: "$4"@,
            name: "Invert Step Enable Pin"@,
            value: "0"@,
            default_value: "0"@,
            param_type: ParameterType::Boolean,
            range: None,
            unit: None,
            description: Some("Invert stepper enable pin"@),
            read_only: true,
        },
        ParamSpec {
            code: "$5"@,
            name: "Invert Limit Pins"@,
            value: "0"@,
            default_value: "0"@,
            param_type: ParameterType::Boolean,
            range: None,
            unit: None,
            description: Some("Invert limit pins"@),
            read_only: true,
        },
        ParamSpec {
            code: "$6"@,
            name: "Invert Probe Pin"@,
            value: "0"@,
            default_value: "0"@,
            param_type: ParameterType::Boolean,
            range: None,
            unit: None,
            description: Some("Invert probe pin"@),
            read_only: true,
        },
        ParamSpec {
            code: "$10"@,
            name: "Status Report Options"@,
            value: "1"@,
            default_value: "1"@,
            param_type: ParameterType::Integer,
            range: None,
            unit: None,
            description: Some("Status report option mask"@),
            read_only: true,
        },
        ParamSpec {
            code: "$11"@,
            name: "Junction Deviation"@,
            value: "0.01"@,
            default_value: "0.01"@,
            param_type: ParameterType::Float,
            range: None,
            unit: Some("mm"@),
            description: Some("Arc tolerance for corner deviation"@),
            read_only: true,
        },
        ParamSpec {
            code: "$12"@,
            name: "Arc Tolerance"@,
            value: "0.002"@,
            default_value: "0.002"@,
            param_type: ParameterType::Float,
            range: None,
            unit: Some("mm"@),
            description: Some("Maximum arc segment deviation"@),
            read_only: true,
        },
        ParamSpec {
            code: "$13"@,
            name: "Report in Inches"@,
            value: "0"@,
            default_value: "0"@,
            param_type: ParameterType::Boolean,
            range: None,
            unit: None,
            description: Some("Report position in inches (true) or mm (false)"@),
            read_only: true,
        },
        ParamSpec {
            code: "$20"@,
            name: "Soft Limits Enable"@,
            value: "0"@,
            default_value: "0"@,
            param_type: ParameterType::Boolean,
            range: None,
            unit: None,
            description: Some("Enable soft limits"@),
            read_only: true,
        },
        ParamSpec {
            code: "$21"@,
            name: "Hard Limits Enable"@,
            value: "0"@,
            default_value: "0"@,
            param_type: ParameterType::Boolean,
            range: None,
            unit: None,
            description: Some("Enable hard limits"@),
            read_only: true,
        },
        ParamSpec {
            code: "$22"@,
            name: "Homing Cycle Enable"@,
            value: "0"@,
            default_value: "0"@,
            param_type: ParameterType::Boolean,
            range: None,
            unit: None,
            description: Some("Enable homing cycle"@),
            read_only: true,
        },
        ParamSpec {
            code: "$100"@,
            name: "X-axis Steps per mm"@,
            value: "250.0"@,
            default_value: "250.0"@,
            param_type: ParameterType::Float,
            range: None,
            unit: Some("steps/mm"@),
            description: Some("X-axis steps per millimeter"@),
            read_only: true,
        },
        ParamSpec {
            code: "$101"@,
            name: "Y-axis Steps per mm"@,
            value: "250.0"@,
            default_value: "250.0"@,
            param_type: ParameterType::Float,
            range: None,
            unit: Some("steps/mm"@),
            description: Some("Y-axis steps per millimeter"@),
            read_only: true,
        },
        ParamSpec {
            code: "$102"@,
            name: "Z-axis Steps per mm"@,
            value: "250.0"@,
            default_value: "250.0"@,
            param_type: ParameterType::Float,
            range: None,
            unit: Some("steps/mm"@),
            description: Some("Z-axis steps per millimeter"@),
            read_only: true,
        },
        ParamSpec {
            code: "$110"@,
            name: "X-axis Max Rate"@,
            value: "1000.0"@,
            default_value: "1000.0"@,
            param_type: ParameterType::Float,
            range: None,
            unit: Some("mm/min"@),
            description: Some("X-axis maximum rate"@),
            read_only: true,
        },
        ParamSpec {
            code: "$111"@,
            name: "Y-axis Max Rate"@,
            value: "1000.0"@,
            default_value: "1000.0"@,
            param_type: ParameterType::Float,
            range: None,
            unit: Some("mm/min"@),
            description: Some("Y-axis maximum rate"@),
            read_only: true,
        },
        ParamSpec {
            code: "$112"@,
            name: "Z-axis Max Rate"@,
            value: "1000.0"@,
            default_value: "1000.0"@,
            param_type: ParameterType::Float,
            range: None,
            unit: Some("mm/min"@),
            description: Some("Z-axis maximum rate"@),
            read_only: true,
        },
        ParamSpec {
            code: "$120"@,
            name: "X-axis Acceleration"@,
            value: "10.0"@,
            default_value: "10.0"@,
            param_type: ParameterType::Float,
            range: None,
            unit: Some("mm/s\u{b2}"@),
            description: Some("X-axis acceleration"@),
            read_only: true,
        },
        ParamSpec {
            code: "$121"@,
            name: "Y-axis Acceleration"@,
            value: "10.0"@,
            default_value: "10.0"@,
            param_type: ParameterType::Float,
            range: None,
            unit: Some("mm/s\u{b2}"@),
            description: Some("Y-axis acceleration"@),
            read_only: true,
        },
        ParamSpec {
            code: "$122"@,
            name: "Z-axis Acceleration"@,
            value: "10.0"@,
            default_value: "10.0"@,
            param_type: ParameterType::Float,
            range: None,
            unit: Some("mm/s\u{b2}"@),
            description: Some("Z-axis acceleration"@),
            read_only: true,
        },
        ParamSpec {
            code: "$130"@,
            name: "X-axis Max Travel"@,
            value: "200.0"@,
            default_value: "200.0"@,
            param_type: ParameterType::Float,
            range: None,
            unit: Some("mm"@),
            description: Some("X-axis maximum travel distance"@),
            read_only: true,
        },
        ParamSpec {
            code: "$131"@,
            name: "Y-axis Max Travel"@,
            value: "200.0"@,
            default_value: "200.0"@,
            param_type: ParameterType::Float,
            range: None,
            unit: Some("mm"@),
            description: Some("Y-axis maximum travel distance"@),
            read_only: true,
        },
        ParamSpec {
            code: "$132"@,
            name: "Z-axis Max Travel"@,
            value: "200.0"@,
            default_value: "200.0"@,
            param_type: ParameterType::Float,
            range: None,
            unit: Some("mm"@),
            description: Some("Z-axis maximum travel distance"@),
            read_only: true,
        },
    ]
}

/// The parameters of the FluidNC settings, all read-only (FluidNC is configured through YAML files).
fn fluidnc_parameters() -> (v: Vec<FirmwareParameter>)
    ensures
        params_view(v@) == fluidnc_defaults(),
{
    let v = vec![
        FirmwareParameter::new("$0", "Step Pulse Microseconds", "4").with_type(ParameterType::Integer).with_unit("\u{3bc}s").with_description("Length of step pulse in microseconds").read_only(),
        FirmwareParameter::new("$1", "Stepper Idle Lock Time", "250").with_type(ParameterType::Integer).with_unit("ms").with_description("Delay for motor idle detection").read_only(),
        FirmwareParameter::new("$2", "Step Port Invert", "0").with_type(ParameterType::Integer).with_description("Step port polarity mask").read_only(),
        FirmwareParameter::new("$3", "Direction Port Invert", "0").with_type(ParameterType::Integer).with_description("Direction port polarity mask").read_only(),
        FirmwareParameter::new("$4", "Invert Step Enable Pin", "0").with_type(ParameterType::Boolean).with_description("Invert stepper enable pin").read_only(),
        FirmwareParameter::new("$5", "Invert Limit Pins", "0").with_type(ParameterType::Boolean).with_description("Invert limit pins").read_only(),
        FirmwareParameter::new("$6", "Invert Probe Pin", "0").with_type(ParameterType::Boolean).with_description("Invert probe pin").read_only(),
        FirmwareParameter::new("$10", "Status Report Options", "1").with_type(ParameterType::Integer).with_description("Status report option mask").read_only(),
        FirmwareParameter::new("$11", "Junction Deviation", "0.01").with_type(ParameterType::Float).with_unit("mm").with_description("Arc tolerance for corner deviation").read_only(),
        FirmwareParameter::new("$12", "Arc Tolerance", "0.002").with_type(ParameterType::Float).with_unit("mm").with_description("Maximum arc segment deviation").read_only(),
        FirmwareParameter::new("$13", "Report in Inches", "0").with_type(ParameterType::Boolean).with_description("Report position in inches (true) or mm (false)").read_only(),
        FirmwareParameter::new("$20", "Soft Limits Enable", "0").with_type(ParameterType::Boolean).with_description("Enable soft limits").read_only(),
        FirmwareParameter::new("$21", "Hard Limits Enable", "0").with_type(ParameterType::Boolean).with_description("Enable hard limits").read_only(),
        FirmwareParameter::new("$22", "Homing Cycle Enable", "0").with_type(ParameterType::Boolean).with_description("Enable homing cycle").read_only(),
        FirmwareParameter::new("$100", "X-axis Steps per mm", "250.0").with_type(ParameterType::Float).with_unit("steps/mm").with_description("X-axis steps per millimeter").read_only(),
        FirmwareParameter::new("$101", "Y-axis Steps per mm", "250.0").with_type(ParameterType::Float).with_unit("steps/mm").with_description("Y-axis steps per millimeter").read_only(),
        FirmwareParameter::new("$102", "Z-axis Steps per mm", "250.0").with_type(ParameterType::Float).with_unit("steps/mm").with_description("Z-axis steps per millimeter").read_only(),
        FirmwareParameter::new("$110", "X-axis Max Rate", "1000.0").with_type(ParameterType::Float).with_unit("mm/min").with_description("X-axis maximum rate").read_only(),
        FirmwareParameter::new("$111", "Y-axis Max Rate", "1000.0").with_type(ParameterType::Float).with_unit("mm/min").with_description("Y-axis maximum rate").read_only(),
        FirmwareParameter::new("$112", "Z-axis Max Rate", "1000.0").with_type(ParameterType::Float).with_unit("mm/min").with_description("Z-axis maximum rate").read_only(),
        FirmwareParameter::new("$120", "X-axis Acceleration", "10.0").with_type(ParameterType::Float).with_unit("mm/s\u{b2}").with_description("X-axis acceleration").read_only(),
        FirmwareParameter::new("$121", "Y-axis Acceleration", "10.0").with_type(ParameterType::Float).with_unit("mm/s\u{b2}").with_description("Y-axis acceleration").read_only(),
        FirmwareParameter::new("$122", "Z-axis Acceleration", "10.0").with_type(ParameterType::Float).with_unit("mm/s\u{b2}").with_description("Z-axis acceleration").read_only(),
        FirmwareParameter::new("$130", "X-axis Max Travel", "200.0").with_type(ParameterType::Float).with_unit("mm").with_description("X-axis maximum travel distance").read_only(),
        FirmwareParameter::new("$131", "Y-axis Max Travel", "200.0").with_type(ParameterType::Float).with_unit("mm").with_description("Y-axis maximum travel distance").read_only(),
        FirmwareParameter::new("$132", "Z-axis Max Travel", "200.0").with_type(ParameterType::Float).with_unit("mm").with_description("Z-axis maximum travel distance").read_only(),
    ];
    proof {
        assert(params_view(v@) =~= fluidnc_defaults());
    }
    v
}

/// Firmware settings integration
/// The value of a settings-dialog entry: text, or an on/off flag for a
/// boolean parameter.
#[derive(Debug, Clone, PartialEq, Eq)]
pub enum DialogValue {
    /// Text value
    Text(String),
    /// On/off value
    Flag(bool),
}

/// A settings-dialog entry for a firmware parameter (in the dialog's
/// advanced category).
#[derive(Debug, Clone)]
pub struct DialogSetting {
    /// Setting identifier: "fw_" and the parameter code
    pub id: String,
    /// Shown name: the parameter name and its code in parentheses
    pub name: String,
    /// Description, with the unit in brackets when there is one
    pub description: String,
    /// Current value
    pub value: DialogValue,
}

/// The dialog identifier of a parameter code.
pub open spec fn setting_id(code: Seq<char>) -> Seq<char> {
    "fw_"@ + code
}

/// A text counts as on when, lower-cased, it is "1", "true" or "yes".
pub open spec fn flag_text(v: Seq<char>) -> bool {
    let l = crate::text::lowercase(v);
    l == "1"@ || l == "true"@ || l == "yes"@
}

/// The dialog entry shown for parameter `p`.
pub open spec fn setting_for(s: DialogSetting, p: ParamSpec) -> bool {
    &&& s.id@ == setting_id(p.code)
    &&& s.name@ == p.name + " ("@ + p.code + ")"@
    &&& s.description@ == match p.description {
        Some(d) => d,
        None => "Firmware parameter"@,
    } + match p.unit {
        Some(u) => " ["@ + u + "]"@,
        None => Seq::<char>::empty(),
    }
    &&& match s.value {
        DialogValue::Flag(b) => p.param_type == ParameterType::Boolean && b == flag_text(p.value),
        DialogValue::Text(t) => p.param_type != ParameterType::Boolean && t@ == p.value,
    }
}

/// The dialog values as (identifier, value) texts.
pub open spec fn value_views(vals: Seq<(String, String)>) -> Seq<(Seq<char>, Seq<char>)> {
    vals.map_values(|v: (String, String)| (v.0@, v.1@))
}

/// The (code, value) changes that dialog values ask of the parameters: one
/// for each parameter, in order, that has an entry in the dialog (the first
/// entry with its identifier).
pub open spec fn dialog_updates(ps: Seq<ParamSpec>, vals: Seq<(Seq<char>, Seq<char>)>) -> Seq<(Seq<char>, Seq<char>)>
    decreases ps.len(),
{
    if ps.len() == 0 {
        Seq::empty()
    } else {
        let r = dialog_updates(ps.drop_last(), vals);
        let k = first_key(vals, setting_id(ps.last().code));
        if 0 <= k < vals.len() {
            r.push((ps.last().code, vals[k].1))
        } else {
            r
        }
    }
}

/// The parameters after the value of `u.0` was set to `u.1`, when that is
/// allowed; unchanged otherwise.
pub open spec fn set_one(ps: Seq<ParamSpec>, u: (Seq<char>, Seq<char>)) -> Seq<ParamSpec> {
    let k = first_code(ps, u.0);
    if set_value_error(ps, u.0) is None {
        ps.update(k, ParamSpec { value: u.1, ..ps[k] })
    } else {
        ps
    }
}

/// The parameters after each change was tried, in order.
pub open spec fn after_sets(ps: Seq<ParamSpec>, ups: Seq<(Seq<char>, Seq<char>)>) -> Seq<ParamSpec>
    decreases ups.len(),
{
    if ups.len() == 0 {
        ps
    } else {
        set_one(after_sets(ps, ups.drop_last()), ups.last())
    }
}

/// What the dialog values make of parameter `p`: the value of the first
/// entry with its identifier, unless there is none or `p` is read-only.
pub open spec fn dialog_result(p: ParamSpec, vals: Seq<(Seq<char>, Seq<char>)>) -> ParamSpec {
    let k = first_key(vals, setting_id(p.code));
    if 0 <= k < vals.len() && !p.read_only {
        ParamSpec { value: vals[k].1, ..p }
    } else {
        p
    }
}

/// The changes asked for by the first `n` parameters, tried on all of them,
/// give those `n` their dialog result and leave the rest.
proof fn lemma_updates_prefix(ps: Seq<ParamSpec>, vals: Seq<(Seq<char>, Seq<char>)>, n: int)
    requires
        distinct_codes(ps),
        0 <= n <= ps.len(),
    ensures
        after_sets(ps, dialog_updates(ps.take(n), vals)).len() == ps.len(),
        forall|i: int|
            0 <= i < ps.len() ==> #[trigger] after_sets(ps, dialog_updates(ps.take(n), vals))[i] == if i < n {
                dialog_result(ps[i], vals)
            } else {
                ps[i]
            },
    decreases n,
{
    if n == 0 {
        assert(ps.take(0) =~= Seq::<ParamSpec>::empty());
    } else {
        lemma_updates_prefix(ps, vals, n - 1);
        let prev = dialog_updates(ps.take(n - 1), vals);
        let q = after_sets(ps, prev);
        assert(ps.take(n).drop_last() == ps.take(n - 1));
        assert(ps.take(n).last() == ps[n - 1]);
        let code = ps[n - 1].code;
        let k = first_key(vals, setting_id(code));
        lemma_first_key(vals, setting_id(code));
        assert forall|i: int| 0 <= i < n - 1 implies #[trigger] q[i].code != code by {
            assert(q[i] == dialog_result(ps[i], vals));
            assert(ps[i].code != ps[n - 1].code);
        }
        assert(q[n - 1] == ps[n - 1]);
        lemma_first_code_unique(q, code, n - 1);
        if 0 <= k < vals.len() {
            let ups = prev.push((code, vals[k].1));
            assert(dialog_updates(ps.take(n), vals) == ups);
            assert(ups.drop_last() == prev);
            assert(after_sets(ps, ups) == set_one(q, (code, vals[k].1)));
        } else {
            assert(dialog_updates(ps.take(n), vals) == prev);
        }
    }
}

/// With distinct codes, taking values from the dialog gives every parameter
/// that has an entry and is not read-only the entry's value, and leaves
/// every other parameter as it was.
pub proof fn law_update_from_dialog(ps: Seq<ParamSpec>, vals: Seq<(Seq<char>, Seq<char>)>)
    requires
        distinct_codes(ps),
    ensures
        after_sets(ps, dialog_updates(ps, vals)).len() == ps.len(),
        forall|i: int|
            0 <= i < ps.len() ==> #[trigger] after_sets(ps, dialog_updates(ps, vals))[i] == dialog_result(ps[i], vals),
{
    lemma_updates_prefix(ps, vals, ps.len() as int);
    assert(ps.take(ps.len() as int) == ps);
}

/// Whether a text counts as on.
fn is_on_text(v: &str) -> (b: bool)
    ensures
        b == flag_text(v@),
{
    let lower = crate::text::to_lowercase(v);
    let l = crate::text::chars_of(lower.as_str());
    let one = crate::text::chars_of("1");
    let t = crate::text::chars_of("true");
    let y = crate::text::chars_of("yes");
    crate::text::chars_equal(&l, &one) || crate::text::chars_equal(&l, &t) || crate::text::chars_equal(&l, &y)
}

/// The dialog entry for a parameter.
fn dialog_setting(p: &FirmwareParameter) -> (s: DialogSetting)
    ensures
        setting_for(s, param_spec(*p)),
{
    let mut id = String::new();
    push_str(&mut id, "fw_");
    push_str(&mut id, p.code.as_str());
    let mut name = p.name.clone();
    push_str(&mut name, " (");
    push_str(&mut name, p.code.as_str());
    push_str(&mut name, ")");
    let mut description = match &p.description {
        Some(d) => d.clone(),
        None => "Firmware parameter".to_owned(),
    };
    match &p.unit {
        Some(u) => {
            push_str(&mut description, " [");
            push_str(&mut description, u.as_str());
            push_str(&mut description, "]");
        },
        None => {},
    }
    let value = match p.param_type {
        ParameterType::Boolean => DialogValue::Flag(is_on_text(p.value.as_str())),
        _ => DialogValue::Text(p.value.clone()),
    };
    proof {
        assert(description@ =~= match param_spec(*p).description {
            Some(d) => d,
            None => "Firmware parameter"@,
        } + match param_spec(*p).unit {
            Some(u) => " ["@ + u + "]"@,
            None => Seq::<char>::empty(),
        });
    }
    DialogSetting { id, name, description, value }
}

/// The value of the first dialog entry with this identifier.
fn lookup_value<'a>(vals: &'a Vec<(String, String)>, id: &str) -> (r: Option<&'a String>)
    ensures
        ({
            let k = first_key(value_views(vals@), id@);
            &&& 0 <= k <= vals@.len()
            &&& k == vals@.len() ==> r is None
            &&& k < vals@.len() ==> r == Some(&vals@[k].1)
        }),
{
    let target = crate::text::chars_of(id);
    let ghost vv = value_views(vals@);
    proof {
        lemma_first_key(vv, id@);
    }
    let mut i: usize = 0;
    while i < vals.len()
        invariant
            i <= vals@.len(),
            vv == value_views(vals@),
            target@ == id@,
            forall|k: int| 0 <= k < i ==> vv[k].0 != id@,
            0 <= first_key(vv, id@) <= vv.len(),
            first_key(vv, id@) < vv.len() ==> vv[first_key(vv, id@)].0 == id@,
            forall|k: int| 0 <= k < first_key(vv, id@) ==> vv[k].0 != id@,
        decreases vals@.len() - i,
    {
        let key = crate::text::chars_of(vals[i].0.as_str());
        proof {
            assert(vv[i as int].0 == vals@[i as int].0@);
        }
        if crate::text::chars_equal(&key, &target) {
            return Some(&vals[i].1);
        }
        i = i + 1;
    }
    None
}

#[derive(Debug, Clone)]
pub struct FirmwareSettingsIntegration {
    /// Firmware settings panel
    pub firmware_panel: FirmwareSettingsPanel,
    /// Whether firmware settings are loaded
    pub is_loaded: bool,
}

/// Adds every parameter of `params` to the panel, in order.
fn add_all(panel: &mut FirmwareSettingsPanel, params: Vec<FirmwareParameter>)
    ensures
        final(panel).spec_parameters() == with_params(old(panel).spec_parameters(), params_view(params@)),
        final(panel).spec_type() == old(panel).spec_type(),
        final(panel).spec_version() == old(panel).spec_version(),
        final(panel).spec_backup() == old(panel).spec_backup(),
{
    let ghost all = params@;
    for p in it: params
        invariant
            it.seq() == all,
            panel.spec_parameters() == with_params(old(panel).spec_parameters(), params_view(all.take(it.index() as int))),
            panel.spec_type() == old(panel).spec_type(),
            panel.spec_version() == old(panel).spec_version(),
            panel.spec_backup() == old(panel).spec_backup(),
    {
        proof {
            let k = it.index() as int;
            assert(params_view(all.take(k + 1)).drop_last() == params_view(all.take(k)));
            assert(params_view(all.take(k + 1)).last() == crate::firmware_settings_panel::param_spec(all[k]));
        }
        panel.add_parameter(p);
    }
    proof {
        assert(all.take(all.len() as int) == all);
    }
}

impl FirmwareSettingsIntegration {
    /// Create new firmware settings integration
    pub fn new(firmware_type: &str, version: &str) -> (i: Self)
        ensures
            i.firmware_panel.spec_type() == firmware_type@,
            i.firmware_panel.spec_version() == version@,
            i.firmware_panel.spec_parameters().len() == 0,
            i.firmware_panel.spec_backup() is None,
            !i.is_loaded,
    {
        FirmwareSettingsIntegration {
            firmware_panel: FirmwareSettingsPanel::new(firmware_type, version),
            is_loaded: false,
        }
    }

    /// Load GRBL firmware settings
    pub fn load_grbl_defaults(&mut self) -> (r: Result<(), String>)
        ensures
            r is Ok,
            final(self).firmware_panel.spec_type() == "GRBL"@,
            final(self).firmware_panel.spec_version() == "1.1"@,
            final(self).firmware_panel.spec_parameters() == with_params(Seq::empty(), grbl_defaults()),
            final(self).firmware_panel.spec_backup() is None,
            final(self).is_loaded,
    {
        let mut panel = FirmwareSettingsPanel::new("GRBL", "1.1");
        assert(panel.spec_parameters() =~= Seq::empty());
        add_all(&mut panel, grbl_parameters());
        self.firmware_panel = panel;
        self.is_loaded = true;
        Ok(())
    }

    /// Load grblHAL firmware settings (compatible with GRBL but with extensions)
    pub fn load_grblhal_defaults(&mut self) -> (r: Result<(), String>)
        ensures
            r is Ok,
            final(self).firmware_panel.spec_type() == "grblHAL"@,
            final(self).firmware_panel.spec_version() == "1.1f"@,
            final(self).firmware_panel.spec_parameters() == with_params(Seq::empty(), grbl_defaults()),
            final(self).firmware_panel.spec_backup() is None,
            final(self).is_loaded,
    {
        self.load_grbl_defaults()?;
        self.firmware_panel.set_firmware("grblHAL", "1.1f");
        Ok(())
    }

    /// Load FluidNC firmware settings (read-only)
    pub fn load_fluidnc_defaults(&mut self) -> (r: Result<(), String>)
        ensures
            r is Ok,
            final(self).firmware_panel.spec_type() == "FluidNC"@,
            final(self).firmware_panel.spec_version() == "3.0"@,
            final(self).firmware_panel.spec_parameters() == with_params(Seq::empty(), fluidnc_defaults()),
            final(self).firmware_panel.spec_backup() is None,
            final(self).is_loaded,
    {
        let mut panel = FirmwareSettingsPanel::new("FluidNC", "3.0");
        assert(panel.spec_parameters() =~= Seq::empty());
        add_all(&mut panel, fluidnc_parameters());
        self.firmware_panel = panel;
        self.is_loaded = true;
        Ok(())
    }

    /// Add a dialog entry for every parameter, in order, when the firmware
    /// settings are loaded; leave the dialog as it is otherwise.
    pub fn populate_dialog(&self, dialog: &mut Vec<DialogSetting>)
        ensures
            !self.is_loaded ==> final(dialog)@ == old(dialog)@,
            self.is_loaded ==> {
                let ps = self.firmware_panel.spec_parameters();
                &&& final(dialog)@.len() == old(dialog)@.len() + ps.len()
                &&& forall|j: int| 0 <= j < old(dialog)@.len() ==> #[trigger] final(dialog)@[j] == old(dialog)@[j]
                &&& forall|i: int|
                    0 <= i < ps.len() ==> setting_for(#[trigger] final(dialog)@[old(dialog)@.len() + i], ps[i])
            },
    {
        if !self.is_loaded {
            return;
        }
        let params = self.firmware_panel.list_parameters();
        let ghost ps = self.firmware_panel.spec_parameters();
        let ghost start = dialog@.len();
        let mut i: usize = 0;
        while i < params.len()
            invariant
                i <= params@.len(),
                params@.len() == ps.len(),
                forall|k: int| 0 <= k < params@.len() ==> param_spec(*#[trigger] params@[k]) == ps[k],
                start == old(dialog)@.len(),
                dialog@.len() == start + i,
                forall|j: int| 0 <= j < start ==> #[trigger] dialog@[j] == old(dialog)@[j],
                forall|k: int| 0 <= k < i ==> setting_for(#[trigger] dialog@[start + k], ps[k]),
            decreases params@.len() - i,
        {
            let setting = dialog_setting(params[i]);
            let ghost before = dialog@;
            dialog.push(setting);
            proof {
                assert(param_spec(*params@[i as int]) == ps[i as int]);
                assert forall|k: int| 0 <= k < i + 1 implies setting_for(#[trigger] dialog@[start + k], ps[k]) by {
                    if k < i {
                        assert(dialog@[start + k] == before[start + k]);
                    }
                }
            }
            i = i + 1;
        }
    }

    /// Take the values that the dialog holds for the parameters: each
    /// parameter with an entry gets that entry's value where the panel allows
    /// it (read-only and unknown parameters are left as they are).
    pub fn update_from_dialog(&mut self, dialog: &Vec<(String, String)>) -> (r: Result<(), String>)
        ensures
            r is Ok,
            final(self).firmware_panel.spec_parameters() == after_sets(
                old(self).firmware_panel.spec_parameters(),
                dialog_updates(old(self).firmware_panel.spec_parameters(), value_views(dialog@)),
            ),
            final(self).firmware_panel.spec_type() == old(self).firmware_panel.spec_type(),
            final(self).firmware_panel.spec_version() == old(self).firmware_panel.spec_version(),
            final(self).firmware_panel.spec_backup() == old(self).firmware_panel.spec_backup(),
            final(self).is_loaded == old(self).is_loaded,
    {
        let ghost ps = self.firmware_panel.spec_parameters();
        let ghost vv = value_views(dialog@);
        let mut updates: Vec<(String, String)> = Vec::new();
        {
            let params = self.firmware_panel.list_parameters();
            let mut i: usize = 0;
            while i < params.len()
                invariant
                    i <= params@.len(),
                    params@.len() == ps.len(),
                    forall|k: int| 0 <= k < params@.len() ==> param_spec(*#[trigger] params@[k]) == ps[k],
                    vv == value_views(dialog@),
                    value_views(updates@) == dialog_updates(ps.take(i as int), vv),
                decreases params@.len() - i,
            {
                proof {
                    assert(ps.take(i + 1).drop_last() == ps.take(i as int));
                    assert(ps.take(i + 1).last() == param_spec(*params@[i as int]));
                }
                let mut id = String::new();
                push_str(&mut id, "fw_");
                push_str(&mut id, params[i].code.as_str());
                match lookup_value(dialog, id.as_str()) {
                    Some(v) => {
                        let u = (params[i].code.clone(), v.clone());
                        proof {
                            assert(value_views(updates@.push(u)) == value_views(updates@).push((u.0@, u.1@)));
                        }
                        updates.push(u);
                    },
                    None => {},
                }
                i = i + 1;
            }
            proof {
                assert(ps.take(ps.len() as int) == ps);
            }
        }
        let ghost ups = value_views(updates@);
        let mut j: usize = 0;
        while j < updates.len()
            invariant
                j <= updates@.len(),
                ups == value_views(updates@),
                self.firmware_panel.spec_parameters() == after_sets(ps, ups.take(j as int)),
                self.firmware_panel.spec_type() == old(self).firmware_panel.spec_type(),
                self.firmware_panel.spec_version() == old(self).firmware_panel.spec_version(),
                self.firmware_panel.spec_backup() == old(self).firmware_panel.spec_backup(),
                self.is_loaded == old(self).is_loaded,
            decreases updates@.len() - j,
        {
            proof {
                assert(ups.take(j + 1).drop_last() == ups.take(j as int));
                assert(ups.take(j + 1).last() == ups[j as int]);
            }
            let _ = self.firmware_panel.set_parameter_value(updates[j].0.as_str(), updates[j].1.as_str());
            j = j + 1;
        }
        proof {
            assert(ups.take(ups.len() as int) == ups);
        }
        Ok(())
    }

    /// Get modified parameters
    pub fn get_modified_parameters(&self) -> (v: Vec<&FirmwareParameter>)
        ensures
            v@.len() == modified_params(self.firmware_panel.spec_parameters()).len(),
            forall|i: int|
                0 <= i < v@.len() ==> crate::firmware_settings_panel::param_spec(*#[trigger] v@[i])
                    == modified_params(self.firmware_panel.spec_parameters())[i],
    {
        self.firmware_panel.get_modified_parameters()
    }

    /// Create backup of firmware parameters
    pub fn create_backup(&mut self)
        ensures
            final(self).firmware_panel.spec_backup() == Some(old(self).firmware_panel.spec_parameters()),
            final(self).firmware_panel.spec_parameters() == old(self).firmware_panel.spec_parameters(),
            final(self).firmware_panel.spec_type() == old(self).firmware_panel.spec_type(),
            final(self).firmware_panel.spec_version() == old(self).firmware_panel.spec_version(),
            final(self).is_loaded == old(self).is_loaded,
    {
        self.firmware_panel.create_backup();
    }

    /// Restore firmware parameters from backup
    pub fn restore_from_backup(&mut self) -> (r: Result<(), String>)
        ensures
            match old(self).firmware_panel.spec_backup() {
                Some(b) => r is Ok && final(self).firmware_panel.spec_parameters() == b,
                None => r matches Err(e) && e@ == "No backup available"@
                    && final(self).firmware_panel.spec_parameters() == old(self).firmware_panel.spec_parameters(),
            },
            final(self).firmware_panel.spec_backup() == old(self).firmware_panel.spec_backup(),
            final(self).firmware_panel.spec_type() == old(self).firmware_panel.spec_type(),
            final(self).firmware_panel.spec_version() == old(self).firmware_panel.spec_version(),
            final(self).is_loaded == old(self).is_loaded,
    {
        self.firmware_panel.restore_backup()
    }

    /// Reset all parameters to defaults
    pub fn reset_to_defaults(&mut self)
        ensures
            final(self).firmware_panel.spec_parameters() == reset_params(old(self).firmware_panel.spec_parameters()),
            final(self).firmware_panel.spec_backup() == old(self).firmware_panel.spec_backup(),
            final(self).firmware_panel.spec_type() == old(self).firmware_panel.spec_type(),
            final(self).firmware_panel.spec_version() == old(self).firmware_panel.spec_version(),
            final(self).is_loaded == old(self).is_loaded,
    {
        self.firmware_panel.reset_all_to_defaults();
    }

    /// Get firmware type and version
    pub fn firmware_info(&self) -> (r: (String, String))
        ensures
            r.0@ == self.firmware_panel.spec_type(),
            r.1@ == self.firmware_panel.spec_version(),
    {
        (self.firmware_panel.firmware_type_str().to_owned(), self.firmware_panel.firmware_version_str().to_owned())
    }

    /// Check if firmware settings are modified
    pub fn has_changes(&self) -> (b: bool)
        ensures
            b == (modified_params(self.firmware_panel.spec_parameters()).len() > 0),
    {
        self.firmware_panel.get_modified_parameters().len() > 0
    }

    /// Get count of parameters
    pub fn parameter_count(&self) -> (n: usize)
        ensures
            n == self.firmware_panel.spec_parameters().len(),
    {
        self.firmware_panel.parameter_count()
    }
}

impl Default for FirmwareSettingsIntegration {
    fn default() -> (i: Self)
        ensures
            i.firmware_panel.spec_type() == "Unknown"@,
            i.firmware_panel.spec_version() == "Unknown"@,
            i.firmware_panel.spec_parameters().len() == 0,
            !i.is_loaded,
    {
        Self::new("Unknown", "Unknown")
    }
}

} // verus!
