//! Verified building blocks of the Hyprland desktop suite's shared crates.

pub mod duration;
pub mod logind;
pub mod singleton;
pub mod slint_runtime;
pub mod span_lines;
pub mod text;
pub mod xdg_paths;
