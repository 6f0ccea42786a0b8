use bevy_psx::{auto_load_palettes, Palette, PaletteManager, PaletteSource, Rgb};

fn src(id: u32, name: &str, data: Option<&str>) -> PaletteSource {
    PaletteSource { id, name: name.to_string(), data: data.map(|d| d.to_string()) }
}

fn rgb(r: u16, g: u16, b: u16) -> Rgb {
    Rgb { r, g, b }
}

#[test]
fn groups_load_in_ascending_id_order() {
    let sources = vec![
        src(2, "Two", Some("000000")),
        src(0, "Zero", Some("ffffff\n000000")),
        src(1, "One", Some("ff0000")),
    ];
    let mut m = PaletteManager::new();
    assert_eq!(auto_load_palettes(&mut m, &sources), 3);
    assert_eq!(m.palette_names(), vec!["ID0: Zero", "ID1: One", "ID2: Two"]);
    assert_eq!(m.get_palette(0).unwrap().colors, vec![rgb(1020, 1020, 1020), rgb(0, 0, 0)]);
    assert_eq!(m.current_palette_index(), Some(0));
}

#[test]
fn sources_sharing_an_id_are_combined() {
    let sources = vec![
        src(3, "Sirens at night", Some("ff0000\n00ff00")),
        src(4, "Game Boy", Some("0f380f")),
        src(3, "Oil 6", Some("0000ff")),
    ];
    let mut m = PaletteManager::new();
    assert_eq!(auto_load_palettes(&mut m, &sources), 2);
    let combined = m.get_palette(0).unwrap();
    assert_eq!(combined.name.as_deref(), Some("ID3: Sirens at night + Oil 6 (Combined)"));
    assert_eq!(combined.colors, vec![rgb(1020, 0, 0), rgb(0, 1020, 0), rgb(0, 0, 1020)]);
    assert_eq!(m.get_palette(1).unwrap().name.as_deref(), Some("ID4: Game Boy"));
}

#[test]
fn unknown_and_bad_sources_are_skipped() {
    let sources = vec![
        src(5, "Missing", None),
        src(5, "Good", Some("123456")),
        src(6, "Broken", Some("nothex")),
        src(7, "Empty", Some("// nothing")),
    ];
    let mut m = PaletteManager::new();
    assert_eq!(auto_load_palettes(&mut m, &sources), 1);
    // The first member of group 5 did not load, so the joined name starts with the separator.
    assert_eq!(m.get_palette(0).unwrap().name.as_deref(), Some("ID5:  + Good (Combined)"));
    assert_eq!(m.len(), 1);
}

#[test]
fn nothing_loads_into_a_manager_that_has_palettes() {
    let mut m = PaletteManager::new();
    m.add_palette(Palette::with_name("mine".to_string()));
    let sources = vec![src(0, "Zero", Some("000000"))];
    assert_eq!(auto_load_palettes(&mut m, &sources), 0);
    assert_eq!(m.len(), 1);
    assert_eq!(m.palette_names(), vec!["mine"]);
}

#[test]
fn no_sources_no_palettes() {
    let mut m = PaletteManager::new();
    assert_eq!(auto_load_palettes(&mut m, &vec![]), 0);
    assert!(m.is_empty());
    assert_eq!(m.current_palette_index(), None);
}
