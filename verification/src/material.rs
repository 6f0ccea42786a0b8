//! Settings of the PSX material: vertex snapping, color quantization, palette
//! quantization, dithering, color-space matching, error diffusion and blending.
//!
//! The shader takes every switch as a `u32` (1 on, 0 off) and every choice as
//! a `u32` code. Real-valued settings (snap amount, dither strength, blend
//! factor) are carried as the bit patterns of their `f32` values
//! (`f32::to_bits`): this crate stores and copies them, and never computes
//! with them.

use vstd::prelude::*;
use crate::color::{Rgb, CHANNEL_FULL};
use crate::palette::{Palette, shader_array};

verus! {

/// `f32` bit pattern of 1.0.
pub const F32_ONE: u32 = 0x3f80_0000;
/// `f32` bit pattern of 32.0.
pub const F32_32: u32 = 0x4200_0000;
/// `f32` bit pattern of 64.0.
pub const F32_64: u32 = 0x4280_0000;
/// `f32` bit pattern of 128.0.
pub const F32_128: u32 = 0x4300_0000;
/// `f32` bit pattern of 0.15.
pub const F32_0_15: u32 = 0x3e19_999a;
/// `f32` bit pattern of 0.2.
pub const F32_0_2: u32 = 0x3e4c_cccd;
/// `f32` bit pattern of 0.3.
pub const F32_0_3: u32 = 0x3e99_999a;

/// The number of palette colors the shader holds.
pub const SHADER_PALETTE_SIZE: usize = 256;

/// Dither pattern options.
#[derive(Debug, Clone, Copy, PartialEq, Eq, Structural)]
pub enum DitherPattern {
    Bayer4x4,
    Bayer8x8,
    BlueNoise,
    Random,
}

/// Color space options for palette matching.
#[derive(Debug, Clone, Copy, PartialEq, Eq, Structural)]
pub enum ColorSpace {
    RGB,
    HSV,
    LAB,
}

/// Blend mode options.
#[derive(Debug, Clone, Copy, PartialEq, Eq, Structural)]
pub enum BlendMode {
    Replace,
    Blend,
}

impl DitherPattern {
    /// The shader code of this pattern (0 = Bayer 4x4, 1 = Bayer 8x8,
    /// 2 = blue noise, 3 = random).
    pub open spec fn spec_code(self) -> u32 {
        match self {
            DitherPattern::Bayer4x4 => 0,
            DitherPattern::Bayer8x8 => 1,
            DitherPattern::BlueNoise => 2,
            DitherPattern::Random => 3,
        }
    }

    /// The pattern a shader code stands for; unknown codes read as Bayer 4x4.
    pub open spec fn spec_from_code(code: u32) -> DitherPattern {
        if code == 1 {
            DitherPattern::Bayer8x8
        } else if code == 2 {
            DitherPattern::BlueNoise
        } else if code == 3 {
            DitherPattern::Random
        } else {
            DitherPattern::Bayer4x4
        }
    }

    /// The shader code of this pattern.
    pub fn code(self) -> (c: u32)
        ensures
            c == self.spec_code(),
    {
        match self {
            DitherPattern::Bayer4x4 => 0,
            DitherPattern::Bayer8x8 => 1,
            DitherPattern::BlueNoise => 2,
            DitherPattern::Random => 3,
        }
    }

    /// The pattern a shader code stands for.
    pub fn from_code(code: u32) -> (p: DitherPattern)
        ensures
            p == DitherPattern::spec_from_code(code),
    {
        if code == 1 {
            DitherPattern::Bayer8x8
        } else if code == 2 {
            DitherPattern::BlueNoise
        } else if code == 3 {
            DitherPattern::Random
        } else {
            DitherPattern::Bayer4x4
        }
    }
}

impl ColorSpace {
    /// The shader code of this color space (0 = RGB, 1 = HSV, 2 = LAB).
    pub open spec fn spec_code(self) -> u32 {
        match self {
            ColorSpace::RGB => 0,
            ColorSpace::HSV => 1,
            ColorSpace::LAB => 2,
        }
    }

    /// The color space a shader code stands for; unknown codes read as RGB.
    pub open spec fn spec_from_code(code: u32) -> ColorSpace {
        if code == 1 {
            ColorSpace::HSV
        } else if code == 2 {
            ColorSpace::LAB
        } else {
            ColorSpace::RGB
        }
    }

    /// The shader code of this color space.
    pub fn code(self) -> (c: u32)
        ensures
            c == self.spec_code(),
    {
        match self {
            ColorSpace::RGB => 0,
            ColorSpace::HSV => 1,
            ColorSpace::LAB => 2,
        }
    }

    /// The color space a shader code stands for.
    pub fn from_code(code: u32) -> (c: ColorSpace)
        ensures
            c == ColorSpace::spec_from_code(code),
    {
        if code == 1 {
            ColorSpace::HSV
        } else if code == 2 {
            ColorSpace::LAB
        } else {
            ColorSpace::RGB
        }
    }
}

impl BlendMode {
    /// The shader code of this blend mode (0 = replace, 1 = blend).
    pub open spec fn spec_code(self) -> u32 {
        match self {
            BlendMode::Replace => 0,
            BlendMode::Blend => 1,
        }
    }

    /// The blend mode a shader code stands for; unknown codes read as replace.
    pub open spec fn spec_from_code(code: u32) -> BlendMode {
        if code == 1 {
            BlendMode::Blend
        } else {
            BlendMode::Replace
        }
    }

    /// The shader code of this blend mode.
    pub fn code(self) -> (c: u32)
        ensures
            c == self.spec_code(),
    {
        match self {
            BlendMode::Replace => 0,
            BlendMode::Blend => 1,
        }
    }

    /// The blend mode a shader code stands for.
    pub fn from_code(code: u32) -> (m: BlendMode)
        ensures
            m == BlendMode::spec_from_code(code),
    {
        if code == 1 {
            BlendMode::Blend
        } else {
            BlendMode::Replace
        }
    }
}

/// The shader value of a switch: 1 on, 0 off.
pub open spec fn flag(enabled: bool) -> u32 {
    if enabled {
        1
    } else {
        0
    }
}

fn flag_value(enabled: bool) -> (v: u32)
    ensures
        v == flag(enabled),
{
    if enabled {
        1
    } else {
        0
    }
}


/// The sixteen colors of the built-in material palette: black, white, red,
/// green, blue, yellow, magenta, cyan, gray, dark gray, light gray, dark red,
/// dark green, dark blue, brown, and a second dark green.
pub open spec fn builtin_colors() -> Seq<Rgb> {
    let f = CHANNEL_FULL;
    seq![
        Rgb { r: 0, g: 0, b: 0 },
        Rgb { r: f, g: f, b: f },
        Rgb { r: f, g: 0, b: 0 },
        Rgb { r: 0, g: f, b: 0 },
        Rgb { r: 0, g: 0, b: f },
        Rgb { r: f, g: f, b: 0 },
        Rgb { r: f, g: 0, b: f },
        Rgb { r: 0, g: f, b: f },
        Rgb { r: 510, g: 510, b: 510 },
        Rgb { r: 255, g: 255, b: 255 },
        Rgb { r: 765, g: 765, b: 765 },
        Rgb { r: 510, g: 0, b: 0 },
        Rgb { r: 0, g: 510, b: 0 },
        Rgb { r: 0, g: 0, b: 510 },
        Rgb { r: 510, g: 255, b: 0 },
        Rgb { r: 255, g: 510, b: 255 },
    ]
}

/// The shader palette of a new material: the built-in colors, then black.
pub open spec fn default_palette_colors() -> Seq<Rgb> {
    Seq::new(
        SHADER_PALETTE_SIZE as nat,
        |i: int|
            if i < builtin_colors().len() {
                builtin_colors()[i]
            } else {
                Rgb::spec_black()
            },
    )
}

/// Material extension that carries every PSX effect to the shader.
#[derive(Debug, Clone, PartialEq, Eq)]
pub struct PsxMaterialExtension {
    /// `f32` bit pattern of the snap amount: higher values snap less
    /// (typical PSX values: 64.0 to 256.0).
    pub snap_amount_bits: u32,
    /// Whether vertex snapping is enabled (1 on, 0 off).
    pub snap_enabled: u32,
    /// Number of quantization steps for basic color reduction.
    pub quantize_steps: u32,
    /// Whether basic quantization is enabled (1 on, 0 off).
    pub quantize_enabled: u32,
    /// Whether palette quantization is enabled (1 on, 0 off).
    pub use_palette: u32,
    /// Number of colors in the current palette (for shader optimization).
    pub palette_size: u32,
    /// The shader palette colors.
    pub palette_colors: Vec<Rgb>,
    /// Whether dithering is enabled (1 on, 0 off).
    pub dither_enabled: u32,
    /// `f32` bit pattern of the dithering strength (0.0 to 1.0).
    pub dither_strength_bits: u32,
    /// Dither pattern code (see [`DitherPattern`]).
    pub dither_pattern: u32,
    /// Color space code (see [`ColorSpace`]).
    pub color_space: u32,
    /// Error diffusion (1 on, 0 off).
    pub error_diffusion: u32,
    /// Blend mode code (see [`BlendMode`]).
    pub blend_mode: u32,
    /// `f32` bit pattern of the blend factor used in blend mode
    /// (0.0 = original color, 1.0 = quantized color).
    pub blend_factor_bits: u32,
}

/// A [`PsxMaterialExtension`] with its palette as a color sequence.
pub struct ExtensionView {
    pub snap_amount_bits: u32,
    pub snap_enabled: u32,
    pub quantize_steps: u32,
    pub quantize_enabled: u32,
    pub use_palette: u32,
    pub palette_size: u32,
    pub palette_colors: Seq<Rgb>,
    pub dither_enabled: u32,
    pub dither_strength_bits: u32,
    pub dither_pattern: u32,
    pub color_space: u32,
    pub error_diffusion: u32,
    pub blend_mode: u32,
    pub blend_factor_bits: u32,
}

impl View for PsxMaterialExtension {
    type V = ExtensionView;

    open spec fn view(&self) -> ExtensionView {
        ExtensionView {
            snap_amount_bits: self.snap_amount_bits,
            snap_enabled: self.snap_enabled,
            quantize_steps: self.quantize_steps,
            quantize_enabled: self.quantize_enabled,
            use_palette: self.use_palette,
            palette_size: self.palette_size,
            palette_colors: self.palette_colors@,
            dither_enabled: self.dither_enabled,
            dither_strength_bits: self.dither_strength_bits,
            dither_pattern: self.dither_pattern,
            color_space: self.color_space,
            error_diffusion: self.error_diffusion,
            blend_mode: self.blend_mode,
            blend_factor_bits: self.blend_factor_bits,
        }
    }
}

/// The settings of a new material: snapping at 64, 32 quantization steps,
/// palette quantization off, Bayer 4x4 dithering at strength 0.2, RGB
/// matching, no error diffusion, replace blending at factor 1.0, and the
/// built-in palette.
pub open spec fn default_extension() -> ExtensionView {
    ExtensionView {
        snap_amount_bits: F32_64,
        snap_enabled: 1,
        quantize_steps: 32,
        quantize_enabled: 1,
        use_palette: 0,
        palette_size: 16,
        palette_colors: default_palette_colors(),
        dither_enabled: 1,
        dither_strength_bits: F32_0_2,
        dither_pattern: DitherPattern::Bayer4x4.spec_code(),
        color_space: ColorSpace::RGB.spec_code(),
        error_diffusion: 0,
        blend_mode: BlendMode::Replace.spec_code(),
        blend_factor_bits: F32_ONE,
    }
}

/// Global PSX material settings.
#[derive(Debug, Clone, Copy, PartialEq, Eq)]
pub struct PsxSettings {
    /// `f32` bit pattern of the global snap amount.
    pub snap_amount_bits: u32,
    /// Whether vertex snapping is enabled.
    pub snap_enabled: bool,
    /// Global quantization steps.
    pub quantize_steps: u32,
    /// Whether basic quantization is enabled.
    pub quantize_enabled: bool,
    /// Whether palette quantization is enabled.
    pub use_palette: bool,
    /// Whether dithering is enabled.
    pub dither_enabled: bool,
    /// `f32` bit pattern of the dithering strength (0.0 to 1.0).
    pub dither_strength_bits: u32,
    /// Dither pattern selection.
    pub dither_pattern: DitherPattern,
    /// Color space for palette matching.
    pub color_space: ColorSpace,
    /// Whether error diffusion is enabled.
    pub error_diffusion: bool,
    /// Blend mode for the final output.
    pub blend_mode: BlendMode,
    /// `f32` bit pattern of the blend factor used in blend mode.
    pub blend_factor_bits: u32,
}

/// The default global settings, matching a new material's.
pub open spec fn default_settings() -> PsxSettings {
    PsxSettings {
        snap_amount_bits: F32_64,
        snap_enabled: true,
        quantize_steps: 32,
        quantize_enabled: true,
        use_palette: false,
        dither_enabled: true,
        dither_strength_bits: F32_0_2,
        dither_pattern: DitherPattern::Bayer4x4,
        color_space: ColorSpace::RGB,
        error_diffusion: false,
        blend_mode: BlendMode::Replace,
        blend_factor_bits: F32_ONE,
    }
}

/// Material `e` with the global settings `s` copied in; its palette is kept.
pub open spec fn with_settings(e: ExtensionView, s: PsxSettings) -> ExtensionView {
    ExtensionView {
        snap_amount_bits: s.snap_amount_bits,
        snap_enabled: flag(s.snap_enabled),
        quantize_steps: s.quantize_steps,
        quantize_enabled: flag(s.quantize_enabled),
        use_palette: flag(s.use_palette),
        dither_enabled: flag(s.dither_enabled),
        dither_strength_bits: s.dither_strength_bits,
        dither_pattern: s.dither_pattern.spec_code(),
        color_space: s.color_space.spec_code(),
        error_diffusion: flag(s.error_diffusion),
        blend_mode: s.blend_mode.spec_code(),
        blend_factor_bits: s.blend_factor_bits,
        ..e
    }
}

/// A preset: the values that tell the presets apart.
pub struct PresetValues {
    pub snap_amount_bits: u32,
    pub quantize_steps: u32,
    pub dither_strength_bits: u32,
    pub dither_pattern: DitherPattern,
    pub color_space: ColorSpace,
    pub error_diffusion: bool,
}

/// Material `e` with preset `p`: every effect on (snapping, quantization,
/// palette, dithering), replace blending at factor 1.0, and the preset's own
/// values; its palette is kept.
pub open spec fn with_preset(e: ExtensionView, p: PresetValues) -> ExtensionView {
    ExtensionView {
        snap_amount_bits: p.snap_amount_bits,
        snap_enabled: 1,
        quantize_steps: p.quantize_steps,
        quantize_enabled: 1,
        use_palette: 1,
        dither_enabled: 1,
        dither_strength_bits: p.dither_strength_bits,
        dither_pattern: p.dither_pattern.spec_code(),
        color_space: p.color_space.spec_code(),
        error_diffusion: flag(p.error_diffusion),
        blend_mode: BlendMode::Replace.spec_code(),
        blend_factor_bits: F32_ONE,
        ..e
    }
}

/// The PSX preset: snap 64, 32 steps, Bayer 4x4 at 0.2, RGB, no diffusion.
pub open spec fn psx_preset_values() -> PresetValues {
    PresetValues {
        snap_amount_bits: F32_64,
        quantize_steps: 32,
        dither_strength_bits: F32_0_2,
        dither_pattern: DitherPattern::Bayer4x4,
        color_space: ColorSpace::RGB,
        error_diffusion: false,
    }
}

/// The Game Boy preset: snap 32, 4 steps, Bayer 4x4 at 0.3, RGB, no diffusion.
pub open spec fn gameboy_preset_values() -> PresetValues {
    PresetValues {
        snap_amount_bits: F32_32,
        quantize_steps: 4,
        dither_strength_bits: F32_0_3,
        dither_pattern: DitherPattern::Bayer4x4,
        color_space: ColorSpace::RGB,
        error_diffusion: false,
    }
}

/// The high-quality preset: snap 128, 64 steps, blue noise at 0.15, LAB,
/// error diffusion.
pub open spec fn high_quality_preset_values() -> PresetValues {
    PresetValues {
        snap_amount_bits: F32_128,
        quantize_steps: 64,
        dither_strength_bits: F32_0_15,
        dither_pattern: DitherPattern::BlueNoise,
        color_space: ColorSpace::LAB,
        error_diffusion: true,
    }
}



/// The number of colors of a palette of `n` colors that the shader holds.
pub open spec fn shader_palette_len(n: nat) -> nat {
    if n < SHADER_PALETTE_SIZE {
        n
    } else {
        SHADER_PALETTE_SIZE as nat
    }
}

/// Material `e` with the shader palette taken from palette colors `colors`
/// (see [`shader_array`]); the palette size becomes the number of those
/// colors, at most the shader's 256.
pub open spec fn with_palette(e: ExtensionView, colors: Seq<Rgb>) -> ExtensionView {
    ExtensionView {
        palette_size: shader_palette_len(colors.len()) as u32,
        palette_colors: shader_array(colors, SHADER_PALETTE_SIZE as nat),
        ..e
    }
}

/// Whether any effect that calls for a PSX material is on: snapping,
/// quantization, palette quantization or dithering.
pub open spec fn spec_any_effect(s: PsxSettings) -> bool {
    s.snap_enabled || s.quantize_enabled || s.use_palette || s.dither_enabled
}

impl PsxSettings {
    /// Whether any effect that calls for a PSX material is on (see [`spec_any_effect`]).
    pub fn any_effect_enabled(&self) -> (b: bool)
        ensures
            b == spec_any_effect(*self),
    {
        self.snap_enabled || self.quantize_enabled || self.use_palette || self.dither_enabled
    }
}

impl Default for PsxSettings {
    fn default() -> (s: PsxSettings)
        ensures
            s == default_settings(),
    {
        PsxSettings {
            snap_amount_bits: F32_64,
            snap_enabled: true,
            quantize_steps: 32,
            quantize_enabled: true,
            use_palette: false,
            dither_enabled: true,
            dither_strength_bits: F32_0_2,
            dither_pattern: DitherPattern::Bayer4x4,
            color_space: ColorSpace::RGB,
            error_diffusion: false,
            blend_mode: BlendMode::Replace,
            blend_factor_bits: F32_ONE,
        }
    }
}

fn builtin_palette_vec() -> (v: Vec<Rgb>)
    ensures
        v@ == default_palette_colors(),
{
    let f = CHANNEL_FULL;
    let mut v: Vec<Rgb> = Vec::with_capacity(SHADER_PALETTE_SIZE);
    v.push(Rgb { r: 0, g: 0, b: 0 });
    v.push(Rgb { r: f, g: f, b: f });
    v.push(Rgb { r: f, g: 0, b: 0 });
    v.push(Rgb { r: 0, g: f, b: 0 });
    v.push(Rgb { r: 0, g: 0, b: f });
    v.push(Rgb { r: f, g: f, b: 0 });
    v.push(Rgb { r: f, g: 0, b: f });
    v.push(Rgb { r: 0, g: f, b: f });
    v.push(Rgb { r: 510, g: 510, b: 510 });
    v.push(Rgb { r: 255, g: 255, b: 255 });
    v.push(Rgb { r: 765, g: 765, b: 765 });
    v.push(Rgb { r: 510, g: 0, b: 0 });
    v.push(Rgb { r: 0, g: 510, b: 0 });
    v.push(Rgb { r: 0, g: 0, b: 510 });
    v.push(Rgb { r: 510, g: 255, b: 0 });
    v.push(Rgb { r: 255, g: 510, b: 255 });
    assert(v@ =~= builtin_colors());
    let mut i: usize = 16;
    while i < SHADER_PALETTE_SIZE
        invariant
            16 <= i <= SHADER_PALETTE_SIZE,
            v@ =~= default_palette_colors().take(i as int),
        decreases SHADER_PALETTE_SIZE - i,
    {
        v.push(Rgb::black());
        assert(v@ =~= default_palette_colors().take(i + 1));
        i = i + 1;
    }
    assert(v@ =~= default_palette_colors());
    v
}

impl PsxMaterialExtension {
    /// A material with the default PSX-like settings (see [`default_extension`]).
    pub fn new() -> (e: PsxMaterialExtension)
        ensures
            e@ == default_extension(),
    {
        PsxMaterialExtension::default()
    }

    /// Enable or disable vertex snapping.
    pub fn set_snap_enabled(&mut self, enabled: bool)
        ensures
            final(self)@ == (ExtensionView { snap_enabled: flag(enabled), ..old(self)@ }),
    {
        self.snap_enabled = flag_value(enabled);
    }

    /// Whether vertex snapping is enabled.
    pub fn get_snap_enabled(&self) -> (b: bool)
        ensures
            b == (self.snap_enabled != 0),
    {
        self.snap_enabled != 0
    }

    /// Enable or disable basic quantization.
    pub fn set_quantize_enabled(&mut self, enabled: bool)
        ensures
            final(self)@ == (ExtensionView { quantize_enabled: flag(enabled), ..old(self)@ }),
    {
        self.quantize_enabled = flag_value(enabled);
    }

    /// Whether basic quantization is enabled.
    pub fn get_quantize_enabled(&self) -> (b: bool)
        ensures
            b == (self.quantize_enabled != 0),
    {
        self.quantize_enabled != 0
    }

    /// Enable or disable palette quantization.
    pub fn set_use_palette(&mut self, enabled: bool)
        ensures
            final(self)@ == (ExtensionView { use_palette: flag(enabled), ..old(self)@ }),
    {
        self.use_palette = flag_value(enabled);
    }

    /// Whether palette quantization is enabled.
    pub fn get_use_palette(&self) -> (b: bool)
        ensures
            b == (self.use_palette != 0),
    {
        self.use_palette != 0
    }

    /// Enable or disable dithering.
    pub fn set_dither_enabled(&mut self, enabled: bool)
        ensures
            final(self)@ == (ExtensionView { dither_enabled: flag(enabled), ..old(self)@ }),
    {
        self.dither_enabled = flag_value(enabled);
    }

    /// Whether dithering is enabled.
    pub fn get_dither_enabled(&self) -> (b: bool)
        ensures
            b == (self.dither_enabled != 0),
    {
        self.dither_enabled != 0
    }

    /// Set the dither pattern.
    pub fn set_dither_pattern(&mut self, pattern: DitherPattern)
        ensures
            final(self)@ == (ExtensionView { dither_pattern: pattern.spec_code(), ..old(self)@ }),
    {
        self.dither_pattern = pattern.code();
    }

    /// The dither pattern (an unknown code reads as Bayer 4x4).
    pub fn get_dither_pattern(&self) -> (p: DitherPattern)
        ensures
            p == DitherPattern::spec_from_code(self.dither_pattern),
    {
        DitherPattern::from_code(self.dither_pattern)
    }

    /// Set the color space for palette matching.
    pub fn set_color_space(&mut self, color_space: ColorSpace)
        ensures
            final(self)@ == (ExtensionView { color_space: color_space.spec_code(), ..old(self)@ }),
    {
        self.color_space = color_space.code();
    }

    /// The color space (an unknown code reads as RGB).
    pub fn get_color_space(&self) -> (c: ColorSpace)
        ensures
            c == ColorSpace::spec_from_code(self.color_space),
    {
        ColorSpace::from_code(self.color_space)
    }

    /// Enable or disable error diffusion.
    pub fn set_error_diffusion(&mut self, enabled: bool)
        ensures
            final(self)@ == (ExtensionView { error_diffusion: flag(enabled), ..old(self)@ }),
    {
        self.error_diffusion = flag_value(enabled);
    }

    /// Whether error diffusion is enabled.
    pub fn get_error_diffusion(&self) -> (b: bool)
        ensures
            b == (self.error_diffusion != 0),
    {
        self.error_diffusion != 0
    }

    /// Set the blend mode.
    pub fn set_blend_mode(&mut self, mode: BlendMode)
        ensures
            final(self)@ == (ExtensionView { blend_mode: mode.spec_code(), ..old(self)@ }),
    {
        self.blend_mode = mode.code();
    }

    /// The blend mode (an unknown code reads as replace).
    pub fn get_blend_mode(&self) -> (m: BlendMode)
        ensures
            m == BlendMode::spec_from_code(self.blend_mode),
    {
        BlendMode::from_code(self.blend_mode)
    }

    /// Take the shader palette from `palette` (see [`with_palette`]).
    pub fn update_palette(&mut self, palette: &Palette)
        ensures
            final(self)@ == with_palette(old(self)@, palette@.colors),
    {
        let n = palette.len();
        let size: u32 = if n < SHADER_PALETTE_SIZE {
            n as u32
        } else {
            SHADER_PALETTE_SIZE as u32
        };
        self.palette_size = size;
        self.palette_colors = palette.to_shader_array(SHADER_PALETTE_SIZE);
    }

    fn apply_preset(&mut self, p_snap: u32, p_steps: u32, p_strength: u32, p_pattern: DitherPattern, p_space: ColorSpace, p_diffusion: bool)
        ensures
            final(self)@ == with_preset(
                old(self)@,
                PresetValues {
                    snap_amount_bits: p_snap,
                    quantize_steps: p_steps,
                    dither_strength_bits: p_strength,
                    dither_pattern: p_pattern,
                    color_space: p_space,
                    error_diffusion: p_diffusion,
                },
            ),
    {
        self.set_snap_enabled(true);
        self.snap_amount_bits = p_snap;
        self.quantize_steps = p_steps;
        self.set_quantize_enabled(true);
        self.set_use_palette(true);
        self.set_dither_enabled(true);
        self.dither_strength_bits = p_strength;
        self.set_dither_pattern(p_pattern);
        self.set_color_space(p_space);
        self.set_error_diffusion(p_diffusion);
        self.set_blend_mode(BlendMode::Replace);
        self.blend_factor_bits = F32_ONE;
    }

    /// Quick PSX-like preset with dithering and vertex snapping.
    pub fn psx_preset(&mut self)
        ensures
            final(self)@ == with_preset(old(self)@, psx_preset_values()),
    {
        self.apply_preset(F32_64, 32, F32_0_2, DitherPattern::Bayer4x4, ColorSpace::RGB, false);
    }

    /// Game Boy-like preset.
    pub fn gameboy_preset(&mut self)
        ensures
            final(self)@ == with_preset(old(self)@, gameboy_preset_values()),
    {
        self.apply_preset(F32_32, 4, F32_0_3, DitherPattern::Bayer4x4, ColorSpace::RGB, false);
    }

    /// High quality preset with error diffusion.
    pub fn high_quality_preset(&mut self)
        ensures
            final(self)@ == with_preset(old(self)@, high_quality_preset_values()),
    {
        self.apply_preset(F32_128, 64, F32_0_15, DitherPattern::BlueNoise, ColorSpace::LAB, true);
    }

    /// Copy the global settings into this material (see [`with_settings`]).
    pub fn apply_settings(&mut self, settings: &PsxSettings)
        ensures
            final(self)@ == with_settings(old(self)@, *settings),
    {
        self.snap_amount_bits = settings.snap_amount_bits;
        self.set_snap_enabled(settings.snap_enabled);
        self.quantize_steps = settings.quantize_steps;
        self.set_quantize_enabled(settings.quantize_enabled);
        self.set_use_palette(settings.use_palette);
        self.set_dither_enabled(settings.dither_enabled);
        self.dither_strength_bits = settings.dither_strength_bits;
        self.set_dither_pattern(settings.dither_pattern);
        self.set_color_space(settings.color_space);
        self.set_error_diffusion(settings.error_diffusion);
        self.set_blend_mode(settings.blend_mode);
        self.blend_factor_bits = settings.blend_factor_bits;
    }

    /// The material for a newly converted mesh: the defaults, the global
    /// settings, and the active palette when there is one.
    pub fn from_settings(settings: &PsxSettings, palette: Option<&Palette>) -> (e: PsxMaterialExtension)
        ensures
            e@ == match palette {
                Some(p) => with_palette(with_settings(default_extension(), *settings), p@.colors),
                None => with_settings(default_extension(), *settings),
            },
    {
        let mut e = PsxMaterialExtension::default();
        e.apply_settings(settings);
        if let Some(p) = palette {
            e.update_palette(p);
        }
        e
    }

    /// Bring an existing material up to date: copy the global settings in
    /// when they changed, and take the palette when one is given (the active
    /// palette, when it changed).
    pub fn refresh(&mut self, settings: &PsxSettings, settings_changed: bool, palette: Option<&Palette>)
        ensures
            ({
                let s = if settings_changed {
                    with_settings(old(self)@, *settings)
                } else {
                    old(self)@
                };
                final(self)@ == match palette {
                    Some(p) => with_palette(s, p@.colors),
                    None => s,
                }
            }),
    {
        if settings_changed {
            self.apply_settings(settings);
        }
        if let Some(p) = palette {
            self.update_palette(p);
        }
    }
}

impl Default for PsxMaterialExtension {
    fn default() -> (e: PsxMaterialExtension)
        ensures
            e@ == default_extension(),
    {
        PsxMaterialExtension {
            snap_amount_bits: F32_64,
            snap_enabled: 1,
            quantize_steps: 32,
            quantize_enabled: 1,
            use_palette: 0,
            palette_size: 16,
            palette_colors: builtin_palette_vec(),
            dither_enabled: 1,
            dither_strength_bits: F32_0_2,
            dither_pattern: DitherPattern::Bayer4x4.code(),
            color_space: ColorSpace::RGB.code(),
            error_diffusion: 0,
            blend_mode: BlendMode::Replace.code(),
            blend_factor_bits: F32_ONE,
        }
    }
}

/// Reading a setting back gives what was set: a switch reads as on exactly
/// when it was turned on, and each choice survives its shader code.
pub proof fn law_settings_round_trip(enabled: bool, p: DitherPattern, c: ColorSpace, m: BlendMode)
    ensures
        (flag(enabled) != 0) == enabled,
        DitherPattern::spec_from_code(p.spec_code()) == p,
        ColorSpace::spec_from_code(c.spec_code()) == c,
        BlendMode::spec_from_code(m.spec_code()) == m,
{
}

/// The default global settings give a new material exactly its default state.
pub proof fn law_default_settings_match_default_material()
    ensures
        with_settings(default_extension(), default_settings()) == default_extension(),
{
}

/// The shader's code tables: dither patterns Bayer 4x4, Bayer 8x8, blue
/// noise and random are 0, 1, 2 and 3; color spaces RGB, HSV and LAB are 0, 1
/// and 2; blend modes replace and blend are 0 and 1. Each code reads back as
/// its option, and every other code reads as the first option.
pub proof fn law_shader_code_tables(code: u32)
    ensures
        DitherPattern::Bayer4x4.spec_code() == 0,
        DitherPattern::Bayer8x8.spec_code() == 1,
        DitherPattern::BlueNoise.spec_code() == 2,
        DitherPattern::Random.spec_code() == 3,
        DitherPattern::spec_from_code(0) == DitherPattern::Bayer4x4,
        DitherPattern::spec_from_code(1) == DitherPattern::Bayer8x8,
        DitherPattern::spec_from_code(2) == DitherPattern::BlueNoise,
        DitherPattern::spec_from_code(3) == DitherPattern::Random,
        code > 3 ==> DitherPattern::spec_from_code(code) == DitherPattern::Bayer4x4,
        ColorSpace::RGB.spec_code() == 0,
        ColorSpace::HSV.spec_code() == 1,
        ColorSpace::LAB.spec_code() == 2,
        ColorSpace::spec_from_code(0) == ColorSpace::RGB,
        ColorSpace::spec_from_code(1) == ColorSpace::HSV,
        ColorSpace::spec_from_code(2) == ColorSpace::LAB,
        code > 2 ==> ColorSpace::spec_from_code(code) == ColorSpace::RGB,
        BlendMode::Replace.spec_code() == 0,
        BlendMode::Blend.spec_code() == 1,
        BlendMode::spec_from_code(0) == BlendMode::Replace,
        BlendMode::spec_from_code(1) == BlendMode::Blend,
        code > 1 ==> BlendMode::spec_from_code(code) == BlendMode::Replace,
        flag(true) == 1,
        flag(false) == 0,
{
}

/// Copying global settings into any material sets each switch to 1 exactly
/// when it is on in the settings (0 otherwise), writes each choice as its
/// shader code, copies the numeric settings, and keeps the palette.
pub proof fn law_settings_copied(e: ExtensionView, s: PsxSettings)
    ensures
        ({
            let m = with_settings(e, s);
            &&& m.snap_enabled == (if s.snap_enabled { 1u32 } else { 0u32 })
            &&& m.quantize_enabled == (if s.quantize_enabled { 1u32 } else { 0u32 })
            &&& m.use_palette == (if s.use_palette { 1u32 } else { 0u32 })
            &&& m.dither_enabled == (if s.dither_enabled { 1u32 } else { 0u32 })
            &&& m.error_diffusion == (if s.error_diffusion { 1u32 } else { 0u32 })
            &&& DitherPattern::spec_from_code(m.dither_pattern) == s.dither_pattern
            &&& ColorSpace::spec_from_code(m.color_space) == s.color_space
            &&& BlendMode::spec_from_code(m.blend_mode) == s.blend_mode
            &&& m.snap_amount_bits == s.snap_amount_bits
            &&& m.quantize_steps == s.quantize_steps
            &&& m.dither_strength_bits == s.dither_strength_bits
            &&& m.blend_factor_bits == s.blend_factor_bits
            &&& m.palette_size == e.palette_size
            &&& m.palette_colors == e.palette_colors
        }),
{
}

/// A PSX material is called for exactly when one of its four effects would be
/// on: each of snapping, quantization, palette quantization and dithering on
/// its own calls for one, and with all four off none is called for.
pub proof fn law_any_effect(s: PsxSettings)
    ensures
        s.snap_enabled ==> spec_any_effect(s),
        s.quantize_enabled ==> spec_any_effect(s),
        s.use_palette ==> spec_any_effect(s),
        s.dither_enabled ==> spec_any_effect(s),
        !s.snap_enabled && !s.quantize_enabled && !s.use_palette && !s.dither_enabled
            ==> !spec_any_effect(s),
        spec_any_effect(s) <==> ({
            let m = with_settings(default_extension(), s);
            m.snap_enabled != 0 || m.quantize_enabled != 0 || m.use_palette != 0
                || m.dither_enabled != 0
        }),
{
}

/// The PSX preset, on any material: snapping on at 64.0, 32 quantization
/// steps, quantization, palette and dithering on, Bayer 4x4 dithering at
/// strength 0.2, RGB matching, no error diffusion, replace blending at factor
/// 1.0; the palette is kept.
pub proof fn law_psx_preset(e: ExtensionView)
    ensures
        ({
            let m = with_preset(e, psx_preset_values());
            &&& m.snap_enabled == 1 && m.snap_amount_bits == 0x4280_0000
            &&& m.quantize_steps == 32 && m.quantize_enabled == 1
            &&& m.use_palette == 1 && m.dither_enabled == 1
            &&& m.dither_strength_bits == 0x3e4c_cccd && m.dither_pattern == 0
            &&& m.color_space == 0 && m.error_diffusion == 0
            &&& m.blend_mode == 0 && m.blend_factor_bits == 0x3f80_0000
            &&& m.palette_size == e.palette_size && m.palette_colors == e.palette_colors
        }),
{
}

/// The Game Boy preset, on any material: snapping on at 32.0, 4 quantization
/// steps, quantization, palette and dithering on, Bayer 4x4 dithering at
/// strength 0.3, RGB matching, no error diffusion, replace blending at factor
/// 1.0; the palette is kept.
pub proof fn law_gameboy_preset(e: ExtensionView)
    ensures
        ({
            let m = with_preset(e, gameboy_preset_values());
            &&& m.snap_enabled == 1 && m.snap_amount_bits == 0x4200_0000
            &&& m.quantize_steps == 4 && m.quantize_enabled == 1
            &&& m.use_palette == 1 && m.dither_enabled == 1
            &&& m.dither_strength_bits == 0x3e99_999a && m.dither_pattern == 0
            &&& m.color_space == 0 && m.error_diffusion == 0
            &&& m.blend_mode == 0 && m.blend_factor_bits == 0x3f80_0000
            &&& m.palette_size == e.palette_size && m.palette_colors == e.palette_colors
        }),
{
}

/// The high-quality preset, on any material: snapping on at 128.0, 64
/// quantization steps, quantization, palette and dithering on, blue-noise
/// dithering at strength 0.15, LAB matching, error diffusion on, replace
/// blending at factor 1.0; the palette is kept.
pub proof fn law_high_quality_preset(e: ExtensionView)
    ensures
        ({
            let m = with_preset(e, high_quality_preset_values());
            &&& m.snap_enabled == 1 && m.snap_amount_bits == 0x4300_0000
            &&& m.quantize_steps == 64 && m.quantize_enabled == 1
            &&& m.use_palette == 1 && m.dither_enabled == 1
            &&& m.dither_strength_bits == 0x3e19_999a && m.dither_pattern == 2
            &&& m.color_space == 2 && m.error_diffusion == 1
            &&& m.blend_mode == 0 && m.blend_factor_bits == 0x3f80_0000
            &&& m.palette_size == e.palette_size && m.palette_colors == e.palette_colors
        }),
{
}

/// A new material: snapping on at 64.0, 32 quantization steps with
/// quantization on, palette quantization off, a 16-color palette in a
/// 256-color array, dithering on (Bayer 4x4, strength 0.2), RGB matching, no
/// error diffusion, replace blending at factor 1.0. The default global
/// settings are the same.
pub proof fn law_defaults()
    ensures
        ({
            let m = default_extension();
            &&& m.snap_enabled == 1 && m.snap_amount_bits == 0x4280_0000
            &&& m.quantize_steps == 32 && m.quantize_enabled == 1
            &&& m.use_palette == 0 && m.palette_size == 16
            &&& m.palette_colors.len() == 256
            &&& m.dither_enabled == 1 && m.dither_strength_bits == 0x3e4c_cccd
            &&& m.dither_pattern == 0 && m.color_space == 0
            &&& m.error_diffusion == 0 && m.blend_mode == 0
            &&& m.blend_factor_bits == 0x3f80_0000
        }),
        ({
            let s = default_settings();
            &&& s.snap_enabled && s.snap_amount_bits == 0x4280_0000
            &&& s.quantize_steps == 32 && s.quantize_enabled
            &&& !s.use_palette && s.dither_enabled
            &&& s.dither_strength_bits == 0x3e4c_cccd
            &&& s.dither_pattern == DitherPattern::Bayer4x4 && s.color_space == ColorSpace::RGB
            &&& !s.error_diffusion && s.blend_mode == BlendMode::Replace
            &&& s.blend_factor_bits == 0x3f80_0000
        }),
{
}

/// A new material's shader palette, in channel steps of 1/1020: black,
/// white, red, green, blue, yellow, magenta, cyan, gray (one half), dark gray
/// (one quarter), light gray (three quarters), dark red, dark green, dark
/// blue, brown (half red, quarter green), a second dark green (quarter, half,
/// quarter); every later entry of the 256 is black.
pub proof fn law_default_palette()
    ensures
        ({
            let c = default_extension().palette_colors;
            &&& c.len() == 256
            &&& c[0] == Rgb { r: 0, g: 0, b: 0 }
            &&& c[1] == Rgb { r: 1020, g: 1020, b: 1020 }
            &&& c[2] == Rgb { r: 1020, g: 0, b: 0 }
            &&& c[3] == Rgb { r: 0, g: 1020, b: 0 }
            &&& c[4] == Rgb { r: 0, g: 0, b: 1020 }
            &&& c[5] == Rgb { r: 1020, g: 1020, b: 0 }
            &&& c[6] == Rgb { r: 1020, g: 0, b: 1020 }
            &&& c[7] == Rgb { r: 0, g: 1020, b: 1020 }
            &&& c[8] == Rgb { r: 510, g: 510, b: 510 }
            &&& c[9] == Rgb { r: 255, g: 255, b: 255 }
            &&& c[10] == Rgb { r: 765, g: 765, b: 765 }
            &&& c[11] == Rgb { r: 510, g: 0, b: 0 }
            &&& c[12] == Rgb { r: 0, g: 510, b: 0 }
            &&& c[13] == Rgb { r: 0, g: 0, b: 510 }
            &&& c[14] == Rgb { r: 510, g: 255, b: 0 }
            &&& c[15] == Rgb { r: 255, g: 510, b: 255 }
            &&& forall|i: int| 16 <= i < 256 ==> c[i] == (Rgb { r: 0, g: 0, b: 0 })
        }),
{
}

/// Taking a palette of `n` colors into any material: the palette size becomes
/// `n`, at most 256; the 256 shader entries start with the palette's first
/// colors in order and are padded with its last color; every other setting
/// is kept.
pub proof fn law_update_palette(e: ExtensionView, colors: Seq<Rgb>)
    ensures
        ({
            let m = with_palette(e, colors);
            &&& colors.len() <= 256 ==> m.palette_size == colors.len()
            &&& colors.len() > 256 ==> m.palette_size == 256
            &&& m.palette_colors.len() == 256
            &&& forall|i: int| 0 <= i < 256 && i < colors.len() ==> #[trigger] m.palette_colors[i]
                == colors[i]
            &&& forall|i: int| colors.len() <= i < 256 && colors.len() > 0
                ==> #[trigger] m.palette_colors[i] == colors[colors.len() - 1]
            &&& m.snap_amount_bits == e.snap_amount_bits && m.snap_enabled == e.snap_enabled
            &&& m.quantize_steps == e.quantize_steps && m.quantize_enabled == e.quantize_enabled
            &&& m.use_palette == e.use_palette && m.dither_enabled == e.dither_enabled
            &&& m.dither_strength_bits == e.dither_strength_bits
            &&& m.dither_pattern == e.dither_pattern && m.color_space == e.color_space
            &&& m.error_diffusion == e.error_diffusion && m.blend_mode == e.blend_mode
            &&& m.blend_factor_bits == e.blend_factor_bits
        }),
{
}

} // verus!
