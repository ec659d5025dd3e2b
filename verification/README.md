# gcodekit5_ui

The logic behind the user-interface panels of a G-code sender for CNC
machines and laser cutters, with its behaviour stated in contracts and proved
with Verus.

- `src/` is the verified library: the console buffer and its filters, the
  work coordinate system identifiers and zero commands, the recent-files list,
  exports, validation, comparison, backups and templates, the firmware
  parameter panel with its default sets and settings-dialog entries, the
  G-code editor's line model with search, replace and editing, the CAM tool
  catalogue filter and the line rasteriser of the vector preview.
- `tests/` runs the library on concrete inputs.
- `app/` holds what the library leaves out: floating-point positions and
  offsets of the readout and the coordinate-system panel, and reading and
  writing files.

Paths are held as text and compared by their components as `std::path` does
on Unix. Editing positions inside a line are byte offsets, as `str` indices
are.
