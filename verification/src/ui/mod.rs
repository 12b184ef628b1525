//! The state and rules behind the user interface components: what the
//! components show and how they answer, apart from the drawing.

pub mod command_palette;
pub mod preferences;
pub mod sidebar;
pub mod tab_bar;
