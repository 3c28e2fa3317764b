//! Client core for a local smart-lighting bridge: discovery and pairing
//! response decoding, light-state parsing, state-change transactions, and
//! the RGB <-> CIE xy color conversion in fixed-point arithmetic.
//!
//! The transport layer around this crate performs the HTTPS calls; it
//! hands every response body in as a [`JsonValue`] and sends out the URL
//! and body strings that the library builds.  Everything that decides or
//! computes — which discovery entry is taken, when pairing may be
//! retried, which enumeration entries are skipped, which transaction
//! fields are dropped, and the color mathematics — is verified.

use vstd::prelude::*;

pub mod bridge;
pub mod color;
pub mod fixed;
pub mod json;
pub mod light;
pub mod render;

pub use bridge::{HueBridge, HueError};
pub use color::{Color, ColorRGB, ColorXY};
pub use json::JsonValue;
pub use light::{Light, LightTransaction};

verus! {

} // verus!
