use bevy_psx::{Palette, PaletteError, PaletteManager, Rgb};

fn named(name: &str) -> Palette {
    Palette { colors: vec![Rgb { r: 0, g: 0, b: 0 }], name: Some(name.to_string()) }
}

fn unnamed() -> Palette {
    Palette { colors: vec![Rgb { r: 4, g: 4, b: 4 }], name: None }
}

#[test]
fn first_added_palette_becomes_current() {
    let mut m = PaletteManager::new();
    assert!(m.is_empty());
    assert_eq!(m.current_palette_index(), None);
    assert!(m.current_palette().is_none());
    assert_eq!(m.add_palette(named("a")), 0);
    assert_eq!(m.current_palette_index(), Some(0));
    assert_eq!(m.add_palette(named("b")), 1);
    assert_eq!(m.current_palette_index(), Some(0));
    assert_eq!(m.len(), 2);
    assert_eq!(m.current_palette().unwrap().name.as_deref(), Some("a"));
}

#[test]
fn next_and_prev_wrap_around() {
    let mut m = PaletteManager::new();
    m.add_palette(named("a"));
    m.add_palette(named("b"));
    m.add_palette(named("c"));
    assert_eq!(m.next_palette(), Some(1));
    assert_eq!(m.next_palette(), Some(2));
    assert_eq!(m.next_palette(), Some(0));
    assert_eq!(m.prev_palette(), Some(2));
    assert_eq!(m.prev_palette(), Some(1));
    assert_eq!(m.current_palette_index(), Some(1));
}

#[test]
fn prev_undoes_next() {
    let mut m = PaletteManager::new();
    for n in ["a", "b", "c", "d"] {
        m.add_palette(named(n));
    }
    for start in 0..4 {
        m.set_current_palette(start).unwrap();
        m.next_palette();
        m.prev_palette();
        assert_eq!(m.current_palette_index(), Some(start));
        m.prev_palette();
        m.next_palette();
        assert_eq!(m.current_palette_index(), Some(start));
    }
}

#[test]
fn next_as_many_times_as_palettes_returns() {
    let mut m = PaletteManager::new();
    for n in ["a", "b", "c"] {
        m.add_palette(named(n));
    }
    m.set_current_palette(1).unwrap();
    for _ in 0..3 {
        m.next_palette();
    }
    assert_eq!(m.current_palette_index(), Some(1));
}

#[test]
fn switching_with_no_palette_does_nothing() {
    let mut m = PaletteManager::new();
    assert_eq!(m.next_palette(), None);
    assert_eq!(m.prev_palette(), None);
    assert_eq!(m.current_palette_index(), None);
}

#[test]
fn set_current_palette_checks_the_index() {
    let mut m = PaletteManager::new();
    m.add_palette(named("a"));
    m.add_palette(named("b"));
    assert_eq!(m.set_current_palette(1), Ok(()));
    assert_eq!(m.current_palette_index(), Some(1));
    assert_eq!(
        m.set_current_palette(5),
        Err(PaletteError::ParseError("Palette index 5 out of range (have 2 palettes)".to_string()))
    );
    assert_eq!(m.current_palette_index(), Some(1));
}

#[test]
fn names_fall_back_to_the_index() {
    let mut m = PaletteManager::new();
    m.add_palette(named("first"));
    m.add_palette(unnamed());
    m.add_palette(named("third"));
    for _ in 0..8 {
        m.add_palette(unnamed());
    }
    let names = m.palette_names();
    assert_eq!(names[0], "first");
    assert_eq!(names[1], "Palette 1");
    assert_eq!(names[2], "third");
    assert_eq!(names[10], "Palette 10");
    assert_eq!(names.len(), 11);
}

#[test]
fn get_palette_by_index() {
    let mut m = PaletteManager::new();
    m.add_palette(named("a"));
    assert_eq!(m.get_palette(0).unwrap().name.as_deref(), Some("a"));
    assert!(m.get_palette(1).is_none());
}

#[test]
fn clear_removes_everything() {
    let mut m = PaletteManager::new();
    m.add_palette(named("a"));
    m.clear();
    assert!(m.is_empty());
    assert_eq!(m.current_palette_index(), None);
    assert_eq!(m.add_palette(named("b")), 0);
    assert_eq!(m.current_palette_index(), Some(0));
}

#[test]
fn load_embedded_hex() {
    let mut m = PaletteManager::default();
    assert_eq!(m.load_palette_from_embedded_hex("ff0000\n00ff00\n", "two"), Ok(0));
    let p = m.get_palette(0).unwrap();
    assert_eq!(p.name.as_deref(), Some("two"));
    assert_eq!(p.colors.len(), 2);
    assert_eq!(m.current_palette_index(), Some(0));
}

#[test]
fn failed_load_leaves_the_manager_unchanged() {
    let mut m = PaletteManager::new();
    m.add_palette(named("a"));
    assert_eq!(
        m.load_palette_from_embedded_hex("12345", "bad"),
        Err(PaletteError::ParseError(
            "Line 1: Invalid hex color: Invalid hex color length: 12345 (expected 3 or 6 characters)"
                .to_string()
        ))
    );
    assert_eq!(m.load_palette_from_embedded_hex("// empty", "none"), Err(PaletteError::EmptyPalette));
    assert_eq!(m.len(), 1);
    assert_eq!(m.current_palette_index(), Some(0));
}
