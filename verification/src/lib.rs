use vstd::prelude::*;

pub mod app;
pub mod brush;
pub mod cell;
pub mod charpicker;
pub mod clicks;
pub mod colorpicker;
pub mod export;
pub mod grid;
pub mod history;
pub mod input;
pub mod laws;
pub mod layer;
pub mod layers;
pub mod palette;
mod rng;
pub mod stroke;
pub mod strutil;
pub mod textarea;
pub mod tools;

verus! {

/// Width of the tool sidebar; canvas clicks arrive offset by this amount.
pub const TOOLBOX_WIDTH: u16 = 30;

/// Smallest permitted brush size.
pub const BRUSH_MIN: u16 = 1;

/// Largest permitted brush size.
pub const BRUSH_MAX: u16 = 21;

} // verus!
