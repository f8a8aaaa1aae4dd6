use rmon::config::ThemeColors;
use rmon::theme::{all_names, dark, from_name, parse_hex, resolve, Rgb};

#[test]
fn known_theme_names_resolve() {
    for name in ["dark", "light", "gruvbox", "dracula", "solarized", "nord"] {
        assert!(from_name(name).is_some(), "{name} should resolve");
        assert!(from_name(&name.to_uppercase()).is_some(), "{name} is case-insensitive");
    }
}

#[test]
fn unknown_theme_falls_back_to_dark() {
    assert!(from_name("neon").is_none());
    assert_eq!(resolve(Some("neon"), None).name, "dark");
}

#[test]
fn hex_parsing() {
    assert_eq!(parse_hex("#ff0000"), Some(Rgb(255, 0, 0)));
    assert_eq!(parse_hex("00ff00"), Some(Rgb(0, 255, 0)));
    assert_eq!(parse_hex("#0000ff"), Some(Rgb(0, 0, 255)));
    assert!(parse_hex("#12345").is_none());
    assert!(parse_hex("#gggggg").is_none());
}

#[test]
fn overrides_replace_colors() {
    let colors = ThemeColors { accent: Some("#ff0000".into()), ..Default::default() };
    let theme = resolve(Some("dark"), Some(&colors));
    assert_eq!(theme.accent, Rgb(255, 0, 0));
    assert_eq!(theme.bg, dark().bg);
}

#[test]
fn theme_names_trim_and_list() {
    assert_eq!(from_name("  Nord\n").map(|t| t.name), Some("nord"));
    assert_eq!(resolve(None, None).name, "dark");
    assert_eq!(all_names(), "dark, light, gruvbox, dracula, solarized, nord");
    let t = from_name("dracula").unwrap();
    assert_eq!(t.bg, Rgb(40, 42, 54));
}

#[test]
fn hex_parsing_edge_cases() {
    assert_eq!(parse_hex("  #0A0b0C  "), Some(Rgb(10, 11, 12)));
    assert!(parse_hex("+f+f+f").is_none());
    assert!(parse_hex("##ff0000").is_none());
    assert!(parse_hex("-fffff").is_none());
    assert!(parse_hex("ffé00").is_none());
    assert!(parse_hex("aé123").is_none());
    assert!(parse_hex("éé1234").is_none());
    assert!(parse_hex("#12g456").is_none());
}

#[test]
fn unreadable_overrides_keep_the_base_colour() {
    let colors = ThemeColors {
        bg: Some("nope".into()),
        danger: Some("#010203".into()),
        ..Default::default()
    };
    let theme = resolve(Some("light"), Some(&colors));
    assert_eq!(theme.name, "light");
    assert_eq!(theme.bg, Rgb(252, 252, 252));
    assert_eq!(theme.danger, Rgb(1, 2, 3));
}
