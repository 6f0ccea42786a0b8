use bevy_psx::files::{file_stem, is_hex_file};
use bevy_psx::render::{PsxRenderSettings, Resolution};

#[test]
fn stems() {
    assert_eq!(file_stem("gameboy.hex"), "gameboy");
    assert_eq!(file_stem("a.b.hex"), "a.b");
    assert_eq!(file_stem("noext"), "noext");
    assert_eq!(file_stem(".hidden"), ".hidden");
    assert_eq!(file_stem("..hex"), ".");
    assert_eq!(file_stem("trailing."), "trailing");
}

#[test]
fn hex_extension() {
    assert!(is_hex_file("gameboy.hex"));
    assert!(is_hex_file(".x.hex"));
    assert!(!is_hex_file(".hex"));
    assert!(!is_hex_file("palette.HEX"));
    assert!(!is_hex_file("palette.hexx"));
    assert!(!is_hex_file("hex"));
    assert!(!is_hex_file("palette.txt"));
}

#[test]
fn render_defaults() {
    let s = PsxRenderSettings::default();
    assert_eq!(s.render_resolution, Resolution { x: 427, y: 240 });
    assert_eq!(s.base_resolution, Resolution { x: 320, y: 240 });
    assert!(s.aspect_ratio_matching);
    assert!(s.pixelated);
    assert_eq!(s.render_target_len(), 427 * 240 * 4);
    let psx = PsxRenderSettings { render_resolution: Resolution { x: 320, y: 240 }, ..s };
    assert_eq!(psx.render_target_len(), 307_200);
}
