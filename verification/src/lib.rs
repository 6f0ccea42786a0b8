//! PSX-style retro rendering support: hex palette files, palette management,
//! nearest-color quantization, and the material and render settings that drive
//! the PSX shader.
//!
//! Colors are held as fixed-point channel values (see [`color`]); everything
//! that depends on the engine (ECS systems, GPU resources, floating-point
//! geometry) lives outside this crate's verified core.

pub mod color;
pub mod error;
pub mod files;
pub mod hex;
pub mod loader;
pub mod manager;
pub mod material;
pub mod palette;
pub mod render;
pub mod text;

pub use color::Rgb;
pub use error::PaletteError;
pub use loader::{PaletteSource, auto_load_palettes};
pub use manager::PaletteManager;
pub use material::{BlendMode, ColorSpace, DitherPattern, PsxMaterialExtension, PsxSettings};
pub use palette::Palette;
pub use render::{PsxRenderSettings, Resolution};
