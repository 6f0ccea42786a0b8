use bevy_psx::material::{F32_0_15, F32_0_2, F32_0_3, F32_128, F32_32, F32_64, F32_ONE};
use bevy_psx::{BlendMode, ColorSpace, DitherPattern, Palette, PsxMaterialExtension, PsxSettings, Rgb};

fn rgb(r: u16, g: u16, b: u16) -> Rgb {
    Rgb { r, g, b }
}

#[test]
fn float_bit_patterns() {
    assert_eq!(f32::from_bits(F32_ONE), 1.0);
    assert_eq!(f32::from_bits(F32_32), 32.0);
    assert_eq!(f32::from_bits(F32_64), 64.0);
    assert_eq!(f32::from_bits(F32_128), 128.0);
    assert_eq!(f32::from_bits(F32_0_15), 0.15);
    assert_eq!(f32::from_bits(F32_0_2), 0.2);
    assert_eq!(f32::from_bits(F32_0_3), 0.3);
}

#[test]
fn new_material_defaults() {
    let e = PsxMaterialExtension::new();
    assert_eq!(f32::from_bits(e.snap_amount_bits), 64.0);
    assert_eq!(e.snap_enabled, 1);
    assert_eq!(e.quantize_steps, 32);
    assert_eq!(e.quantize_enabled, 1);
    assert_eq!(e.use_palette, 0);
    assert_eq!(e.palette_size, 16);
    assert_eq!(e.palette_colors.len(), 256);
    assert_eq!(e.palette_colors[0], rgb(0, 0, 0));
    assert_eq!(e.palette_colors[1], rgb(1020, 1020, 1020));
    assert_eq!(e.palette_colors[8], rgb(510, 510, 510));
    assert_eq!(e.palette_colors[14], rgb(510, 255, 0));
    assert_eq!(e.palette_colors[15], rgb(255, 510, 255));
    assert_eq!(e.palette_colors[16], rgb(0, 0, 0));
    assert_eq!(e.palette_colors[255], rgb(0, 0, 0));
    assert_eq!(e.dither_enabled, 1);
    assert_eq!(f32::from_bits(e.dither_strength_bits), 0.2);
    assert_eq!(e.get_dither_pattern(), DitherPattern::Bayer4x4);
    assert_eq!(e.get_color_space(), ColorSpace::RGB);
    assert!(!e.get_error_diffusion());
    assert_eq!(e.get_blend_mode(), BlendMode::Replace);
    assert_eq!(f32::from_bits(e.blend_factor_bits), 1.0);
    assert_eq!(e, PsxMaterialExtension::default());
}

#[test]
fn setters_and_getters_round_trip() {
    let mut e = PsxMaterialExtension::new();
    e.set_snap_enabled(false);
    assert!(!e.get_snap_enabled());
    assert_eq!(e.snap_enabled, 0);
    e.set_quantize_enabled(false);
    assert!(!e.get_quantize_enabled());
    e.set_use_palette(true);
    assert!(e.get_use_palette());
    assert_eq!(e.use_palette, 1);
    e.set_dither_enabled(false);
    assert!(!e.get_dither_enabled());
    e.set_error_diffusion(true);
    assert!(e.get_error_diffusion());
    for p in [DitherPattern::Bayer4x4, DitherPattern::Bayer8x8, DitherPattern::BlueNoise, DitherPattern::Random] {
        e.set_dither_pattern(p);
        assert_eq!(e.get_dither_pattern(), p);
    }
    assert_eq!(e.dither_pattern, 3);
    for c in [ColorSpace::RGB, ColorSpace::HSV, ColorSpace::LAB] {
        e.set_color_space(c);
        assert_eq!(e.get_color_space(), c);
    }
    assert_eq!(e.color_space, 2);
    for m in [BlendMode::Replace, BlendMode::Blend] {
        e.set_blend_mode(m);
        assert_eq!(e.get_blend_mode(), m);
    }
    assert_eq!(e.blend_mode, 1);
}

#[test]
fn unknown_codes_read_as_the_first_option() {
    let mut e = PsxMaterialExtension::new();
    e.dither_pattern = 9;
    e.color_space = 7;
    e.blend_mode = 5;
    assert_eq!(e.get_dither_pattern(), DitherPattern::Bayer4x4);
    assert_eq!(e.get_color_space(), ColorSpace::RGB);
    assert_eq!(e.get_blend_mode(), BlendMode::Replace);
}

#[test]
fn presets() {
    let mut e = PsxMaterialExtension::new();
    e.set_blend_mode(BlendMode::Blend);
    e.psx_preset();
    assert_eq!((e.snap_enabled, e.snap_amount_bits, e.quantize_steps), (1, F32_64, 32));
    assert_eq!((e.quantize_enabled, e.use_palette, e.dither_enabled), (1, 1, 1));
    assert_eq!(e.dither_strength_bits, F32_0_2);
    assert_eq!(e.get_dither_pattern(), DitherPattern::Bayer4x4);
    assert_eq!(e.get_color_space(), ColorSpace::RGB);
    assert!(!e.get_error_diffusion());
    assert_eq!(e.get_blend_mode(), BlendMode::Replace);
    assert_eq!(e.blend_factor_bits, F32_ONE);

    e.gameboy_preset();
    assert_eq!((e.snap_amount_bits, e.quantize_steps, e.dither_strength_bits), (F32_32, 4, F32_0_3));
    assert_eq!(e.get_dither_pattern(), DitherPattern::Bayer4x4);

    e.high_quality_preset();
    assert_eq!((e.snap_amount_bits, e.quantize_steps, e.dither_strength_bits), (F32_128, 64, F32_0_15));
    assert_eq!(e.get_dither_pattern(), DitherPattern::BlueNoise);
    assert_eq!(e.get_color_space(), ColorSpace::LAB);
    assert!(e.get_error_diffusion());
    assert_eq!(e.palette_size, 16);
}

#[test]
fn update_palette_fills_the_whole_shader_array() {
    let mut e = PsxMaterialExtension::new();
    let p = Palette { colors: vec![rgb(4, 4, 4), rgb(8, 8, 8)], name: None };
    e.update_palette(&p);
    assert_eq!(e.palette_size, 2);
    assert_eq!(e.palette_colors.len(), 256);
    assert_eq!(e.palette_colors[0], rgb(4, 4, 4));
    assert_eq!(e.palette_colors[1], rgb(8, 8, 8));
    assert_eq!(e.palette_colors[255], rgb(8, 8, 8));
}

#[test]
fn settings_defaults_and_effects() {
    let s = PsxSettings::default();
    assert_eq!(s.snap_amount_bits, F32_64);
    assert!(s.snap_enabled && s.quantize_enabled && s.dither_enabled && !s.use_palette);
    assert_eq!(s.quantize_steps, 32);
    assert!(s.any_effect_enabled());
    let off = PsxSettings {
        snap_enabled: false,
        quantize_enabled: false,
        use_palette: false,
        dither_enabled: false,
        ..s
    };
    assert!(!off.any_effect_enabled());
    assert!(PsxSettings { use_palette: true, ..off }.any_effect_enabled());
}

#[test]
fn default_settings_give_a_default_material() {
    let e = PsxMaterialExtension::from_settings(&PsxSettings::default(), None);
    assert_eq!(e, PsxMaterialExtension::new());
}

#[test]
fn from_settings_copies_settings_and_palette() {
    let s = PsxSettings {
        snap_amount_bits: F32_128,
        snap_enabled: false,
        quantize_steps: 8,
        quantize_enabled: false,
        use_palette: true,
        dither_enabled: false,
        dither_strength_bits: F32_0_3,
        dither_pattern: DitherPattern::Random,
        color_space: ColorSpace::HSV,
        error_diffusion: true,
        blend_mode: BlendMode::Blend,
        blend_factor_bits: F32_0_15,
    };
    let p = Palette { colors: vec![rgb(12, 12, 12)], name: None };
    let e = PsxMaterialExtension::from_settings(&s, Some(&p));
    assert_eq!((e.snap_amount_bits, e.snap_enabled, e.quantize_steps), (F32_128, 0, 8));
    assert_eq!((e.quantize_enabled, e.use_palette, e.dither_enabled), (0, 1, 0));
    assert_eq!((e.dither_strength_bits, e.dither_pattern, e.color_space), (F32_0_3, 3, 1));
    assert_eq!((e.error_diffusion, e.blend_mode, e.blend_factor_bits), (1, 1, F32_0_15));
    assert_eq!(e.palette_size, 1);
    assert_eq!(e.palette_colors, vec![rgb(12, 12, 12); 256]);
}

#[test]
fn refresh_applies_only_what_changed() {
    let s = PsxSettings { quantize_steps: 7, ..PsxSettings::default() };
    let p = Palette { colors: vec![rgb(1, 2, 3)], name: None };
    let mut e = PsxMaterialExtension::new();
    e.refresh(&s, false, None);
    assert_eq!(e, PsxMaterialExtension::new());
    e.refresh(&s, true, None);
    assert_eq!(e.quantize_steps, 7);
    assert_eq!(e.palette_size, 16);
    e.refresh(&s, false, Some(&p));
    assert_eq!(e.palette_size, 1);
    assert_eq!(e.palette_colors[200], rgb(1, 2, 3));
}

#[test]
fn palette_size_is_capped_at_the_shader_array() {
    let mut e = PsxMaterialExtension::new();
    let big = Palette { colors: vec![rgb(4, 4, 4); 300], name: None };
    e.update_palette(&big);
    assert_eq!(e.palette_size, 256);
    let empty = Palette::new();
    e.update_palette(&empty);
    assert_eq!(e.palette_size, 0);
    assert_eq!(e.palette_colors, vec![rgb(0, 0, 0); 256]);
}
