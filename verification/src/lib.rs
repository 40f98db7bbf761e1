//! Hash-based terminal colorization: the same input always gets the same
//! color.

use vstd::prelude::*;

pub mod color;
pub mod colorize;
pub mod config;
pub mod detect;
pub mod exclusion;
pub mod hash;
pub mod input;
pub mod intervals;
pub mod text;

pub use color::{Color, Ground};
pub use colorize::{ColorChoice, ColorSelector, ColorizedText, HuePlan};
pub use detect::ColorSupport;
pub use exclusion::ColorBlindnessMode;

verus! {

} // verus!
