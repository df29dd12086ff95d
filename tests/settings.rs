use maschine_library::lights::Brightness;
use maschine_library::settings::{brightness_from_name, parse_backlight_brightness, Settings};

#[test]
fn default_settings_are_valid() {
    let s = Settings::default();
    assert_eq!(s.notemaps, vec![48, 49, 50, 51, 44, 45, 46, 47, 40, 41, 42, 43, 36, 37, 38, 39]);
    assert_eq!(s.client_name, "Maschine Mikro MK3");
    assert_eq!(s.port_name, "Maschine Mikro MK3 MIDI Out");
    assert_eq!(s.port_name_in, "Maschine Mikro MK3 MIDI In");
    assert_eq!(s.backlight_brightness, "dim");
    assert!(s.validate().is_ok());
    assert_eq!(s.backlight(), None);
}

#[test]
fn backlight_levels_parse_in_any_case() {
    assert_eq!(parse_backlight_brightness("dim"), Ok(Brightness::Dim));
    assert_eq!(parse_backlight_brightness("  Normal\n"), Ok(Brightness::Normal));
    assert_eq!(parse_backlight_brightness("BRIGHT"), Ok(Brightness::Bright));
    assert!(parse_backlight_brightness("dimmer").is_err());
    assert!(parse_backlight_brightness("").is_err());
    assert_eq!(brightness_from_name("Dim"), Some(Brightness::Dim));
    assert_eq!(brightness_from_name(" dim"), None);
}

#[test]
fn invalid_settings_are_refused() {
    let mut s = Settings::default();
    s.notemaps.pop();
    assert_eq!(s.validate(), Err("The should be 16 pads exactly (found 15)".to_string()));
    s.notemaps = vec![36; 123];
    assert_eq!(s.validate(), Err("The should be 16 pads exactly (found 123)".to_string()));
    s.notemaps = vec![];
    assert_eq!(s.validate(), Err("The should be 16 pads exactly (found 0)".to_string()));

    let mut s = Settings::default();
    s.notemaps[3] = 128;
    assert!(s.validate().is_err());

    let mut s = Settings::default();
    s.client_name = String::new();
    assert!(s.validate().is_err());

    let mut s = Settings::default();
    s.port_name = String::new();
    assert!(s.validate().is_err());

    let mut s = Settings::default();
    s.port_name_in = String::new();
    assert!(s.validate().is_err());

    let mut s = Settings::default();
    s.backlight_brightness = "dark".to_string();
    assert_eq!(
        s.validate(),
        Err("backlight_brightness must be one of: \"dim\", \"normal\", \"bright\"".to_string())
    );
}

#[test]
fn backlight_level_applies_in_night_mode() {
    let mut s = Settings::default();
    s.backlight_buttons = true;
    s.backlight_brightness = " Bright ".to_string();
    assert!(s.validate().is_ok());
    assert_eq!(s.backlight(), Some(Brightness::Bright));
}

#[test]
fn unicode_whitespace_is_trimmed() {
    assert_eq!(parse_backlight_brightness("\u{a0}bright\u{3000}"), Ok(Brightness::Bright));
    assert_eq!(maschine_library::text::trim_str("\u{2003} a b \u{85}"), "a b");
    assert_eq!(maschine_library::text::decimal_string(4096), "4096");
}
