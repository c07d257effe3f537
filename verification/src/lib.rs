//! Input-agnostic navigation engine for hierarchical on-screen menus.
//!
//! Raw device input (key presses, gamepad buttons, analog sticks, pointer
//! clicks) is normalized into a small alphabet of navigation intents, and a
//! stack-based state machine tracks which screen is active and which row is
//! highlighted on each screen. A redraw policy decides, once per tick, whether
//! the visual tree must be rebuilt. Rendering, asset loading and the host
//! scheduler are external collaborators: the engine works on plain values and
//! leaves all I/O to the host.

pub mod axis;
pub mod input;
pub mod intent;
pub mod laws;
pub mod menu;
pub mod selection;
