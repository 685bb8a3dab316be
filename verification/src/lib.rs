//! A terminal audio spectrum visualizer's verified core: bar colors and
//! their gradients, the command-line settings, the menus that pick the audio
//! host and device, and the live controls of the spectrum view.
pub mod capture;
pub mod cli;
pub mod color;
pub mod controls;
pub mod selection;
pub mod text;

pub use capture::CaptureSource;
pub use cli::{ArgClass, ArgOutcome, CLI};
pub use color::{expand_to_len, fill_gradient, midpoint, ColorError, MyColor};
pub use controls::{
    bar_fills_row, decide_input, spectrum_layout, Adjust, ControlKey, ControlSelection,
    InputAction, SpectrumLayout,
};
pub use selection::{MenuAction, MenuKey, MenuKind, SelectionState};
