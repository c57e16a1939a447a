//! Decoders for the DVI page-description format and the TFM font-metric format.

pub mod errors;
pub mod util;
pub mod dvi;
pub mod fonts;
