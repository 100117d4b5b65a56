//! Projection, caching and IPC framing logic of the spindle extensions.

pub mod aerospace;
pub mod clock;
pub mod sketchybar;
pub mod surface;
pub mod text;
pub mod workspace_indicator;
