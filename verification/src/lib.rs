//! Verified core of the G-code sender's user-interface panels: the console,
//! coordinate-system identifiers, readout helpers, file management, firmware
//! settings, the G-code editor, the CAM tool catalogue and the line
//! rasteriser of the vector preview.

pub mod text;
pub mod clock;
pub mod coordinate_system;
pub mod dro_panel;
pub mod firmware_settings_panel;
pub mod firmware_integration;
pub mod console_panel;
pub mod file_management;
pub mod gcode_editor;
pub mod raster;
pub mod cam_catalog;
