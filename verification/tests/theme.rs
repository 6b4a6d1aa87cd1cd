use std::str::FromStr;
use y2kexplorer::theme::{active_palette, cycle_palette, init, parse_palette as parse, Palette, ThemeState};

#[test]
fn parse_palette() {
    assert_eq!(Palette::from_str("midnight").unwrap(), Palette::Midnight);
    assert_eq!(Palette::from_str("dark").unwrap(), Palette::Midnight);
    assert_eq!(Palette::from_str("slate").unwrap(), Palette::Midnight);
    assert_eq!(Palette::from_str("cream").unwrap(), Palette::Cream);
    assert_eq!(Palette::from_str("mono").unwrap(), Palette::Mono);
    assert_eq!(Palette::from_str("paper").unwrap(), Palette::Mono);
    assert_eq!(Palette::from_str("light").unwrap(), Palette::Mono);
    assert_eq!(Palette::from_str("latte").unwrap(), Palette::Latte);
    assert!(Palette::from_str("blah").is_err());
}

#[test]
fn cycle_wraps() {
    let mut state = ThemeState::new();
    init(&mut state, Palette::Latte);
    assert_eq!(cycle_palette(&mut state), Palette::Midnight);
    init(&mut state, Palette::Midnight);
    assert_eq!(cycle_palette(&mut state), Palette::Cream);
}

#[test]
fn four_cycles_come_back() {
    let mut state = ThemeState::new();
    init(&mut state, Palette::Mono);
    for _ in 0..4 {
        cycle_palette(&mut state);
    }
    assert_eq!(active_palette(&state), Palette::Mono);
}

#[test]
fn palette_names_round_trip() {
    for p in [Palette::Midnight, Palette::Cream, Palette::Mono, Palette::Latte] {
        assert_eq!(parse(p.as_str()).unwrap(), p);
    }
    assert_eq!(Palette::Latte.label(), "Latte");
    assert!(Palette::Midnight.is_dark());
    assert!(!Palette::Cream.is_dark());
}

#[test]
fn palette_parse_ignores_case_and_blanks() {
    assert_eq!(parse("  MONO ").unwrap(), Palette::Mono);
    assert_eq!(parse("").unwrap(), Palette::Midnight);
}
