//! A docked screen magnifier's decision logic: dock layout, capture
//! geometry, pixel access and the text parsing it needs.

pub mod text;
pub mod hyprland;
pub mod pixels;
pub mod dock;
pub mod geometry;
pub mod magnifier;
pub mod focus;
pub mod capture;
pub mod config;
