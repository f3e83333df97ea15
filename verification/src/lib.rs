//! Font package management core: the variant-matching model, the per-source
//! refresh/cache protocol, and the multi-source resolution and acquisition
//! algorithms, with machine-checked contracts.

pub mod acquire;
pub mod codec;
pub mod config;
pub mod data;
mod error;
mod font;
pub mod github;
pub mod host;
pub mod install;
pub mod output;
pub mod resolver;
pub mod source;
pub mod util;

pub use error::{classify_transport_error, Error};
pub use font::{
    DefinedFontInstallSpec, DefinedFontStyle, DefinedFontVariantSpec, DefinedFontWeight,
    FontDescription, FontInstallSpec, FontStyle, FontVariantSpec, FontWeight,
};
