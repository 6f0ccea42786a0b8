//! Settings of the low-resolution render target.

use vstd::prelude::*;

verus! {

/// A resolution in pixels.
#[derive(Debug, Clone, Copy, PartialEq, Eq, Structural)]
pub struct Resolution {
    pub x: u32,
    pub y: u32,
}

/// Settings for PSX-style rendering.
#[derive(Debug, Clone, Copy, PartialEq, Eq, Structural)]
pub struct PsxRenderSettings {
    /// The resolution the scene is rendered at before being upscaled.
    pub render_resolution: Resolution,
    /// The reference resolution for aspect ratio matching (one dimension of
    /// it is kept while the other follows the window's aspect ratio).
    pub base_resolution: Resolution,
    /// Whether the render resolution follows the window's aspect ratio.
    pub aspect_ratio_matching: bool,
    /// Whether upscaling uses nearest-neighbor filtering.
    pub pixelated: bool,
}

/// The default render settings: a 427x240 render target (16:9 at PSX
/// height), the PSX 320x240 base, aspect ratio matching and pixelated
/// upscaling on.
pub open spec fn default_render_settings() -> PsxRenderSettings {
    PsxRenderSettings {
        render_resolution: Resolution { x: 427, y: 240 },
        base_resolution: Resolution { x: 320, y: 240 },
        aspect_ratio_matching: true,
        pixelated: true,
    }
}

impl Default for PsxRenderSettings {
    fn default() -> (s: PsxRenderSettings)
        ensures
            s == default_render_settings(),
    {
        PsxRenderSettings {
            render_resolution: Resolution { x: 427, y: 240 },
            base_resolution: Resolution { x: 320, y: 240 },
            aspect_ratio_matching: true,
            pixelated: true,
        }
    }
}

impl PsxRenderSettings {
    /// The byte size of the render target's pixel data: four bytes (BGRA) per
    /// pixel of the render resolution.
    pub fn render_target_len(&self) -> (n: u32)
        requires
            self.render_resolution.x * self.render_resolution.y * 4 <= u32::MAX,
        ensures
            n == self.render_resolution.x * self.render_resolution.y * 4,
    {
        let w = self.render_resolution.x;
        let h = self.render_resolution.y;
        assert(w * h <= u32::MAX) by (nonlinear_arith)
            requires
                w * h * 4 <= u32::MAX,
        ;
        w * h * 4
    }
}

} // verus!
