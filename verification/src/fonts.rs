//! Fonts: the TFM font-metric format.

pub mod kpsewhich;
pub mod tfm_format;
pub mod tfm;
pub mod tfm_laws;
