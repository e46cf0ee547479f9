use rebar::config::{
    parse_bool, parse_palette_mode, parse_startup_mode, parse_u64, AppConfig, PaletteMode,
    StartupMode,
};

#[test]
fn default_config_values() {
    let config = AppConfig::default();
    assert_eq!(config.palette_mode, PaletteMode::Balanced);
    assert!(config.hide_windows_taskbar);
    assert!(config.auto_hide_panels_on_focus_loss);
    assert_eq!(config.flyout_animation_ms, 200);
    assert!(!config.launch_on_startup);
    assert_eq!(config.startup_mode, StartupMode::Background);
}

#[test]
fn default_config_text() {
    assert_eq!(
        AppConfig::default().to_toml(),
        "palette = \"balanced\"\nhide_windows_taskbar = true\nauto_hide_panels_on_focus_loss = true\nflyout_animation_ms = 200\nlaunch_on_startup = false\nstartup_mode = \"background\"\n"
    );
}

#[test]
fn written_config_reads_back() {
    let modes = [
        PaletteMode::Balanced,
        PaletteMode::Vibrant,
        PaletteMode::Contrast,
        PaletteMode::Center,
    ];
    for (i, mode) in modes.iter().enumerate() {
        let config = AppConfig {
            palette_mode: *mode,
            hide_windows_taskbar: i % 2 == 0,
            auto_hide_panels_on_focus_loss: i % 3 == 0,
            flyout_animation_ms: [0, 7, 1234567, u64::MAX][i],
            launch_on_startup: i % 2 == 1,
            startup_mode: if i < 2 { StartupMode::Foreground } else { StartupMode::Background },
        };
        assert_eq!(AppConfig::from_toml(&config.to_toml()), Ok(config));
    }
}

#[test]
fn empty_file_gives_defaults() {
    assert_eq!(AppConfig::from_toml(""), Ok(AppConfig::default()));
    assert_eq!(AppConfig::from_toml("\n\n   \n"), Ok(AppConfig::default()));
}

#[test]
fn comments_unknown_keys_and_lines_without_equals_are_ignored() {
    let text = "# palette = \"vibrant\"\nunknown = 5\njust some words\n  flyout_animation_ms = 350  \r\n";
    let config = AppConfig::from_toml(text).unwrap();
    assert_eq!(config.palette_mode, PaletteMode::Balanced);
    assert_eq!(config.flyout_animation_ms, 350);
}

#[test]
fn values_may_be_quoted_either_way() {
    let text = "palette = 'center_bias'\nstartup_mode = \"normal\"\nlaunch_on_startup = \"yes\"\nhide_windows_taskbar = off\nauto_hide_panels_on_focus_loss = 0\nflyout_animation_ms = '+42'\n";
    let config = AppConfig::from_toml(text).unwrap();
    assert_eq!(config.palette_mode, PaletteMode::Center);
    assert_eq!(config.startup_mode, StartupMode::Foreground);
    assert!(config.launch_on_startup);
    assert!(!config.hide_windows_taskbar);
    assert!(!config.auto_hide_panels_on_focus_loss);
    assert_eq!(config.flyout_animation_ms, 42);
}

#[test]
fn later_lines_win() {
    let config = AppConfig::from_toml("palette = vibrant\npalette = contrast\n").unwrap();
    assert_eq!(config.palette_mode, PaletteMode::Contrast);
}

#[test]
fn first_error_stops_reading() {
    assert_eq!(
        AppConfig::from_toml("palette = neon\nhide_windows_taskbar = maybe\n"),
        Err(String::from(
            "Unknown palette mode 'neon' in rebar.toml. Expected balanced, vibrant, contrast, or center."
        ))
    );
}

#[test]
fn value_after_first_equals_sign() {
    assert_eq!(
        AppConfig::from_toml("startup_mode = background = yes\n"),
        Err(String::from(
            "Unknown startup mode 'background = yes' in rebar.toml. Expected foreground or background."
        ))
    );
}

#[test]
fn palette_mode_values() {
    assert_eq!(parse_palette_mode(" \"balanced\" "), Ok(PaletteMode::Balanced));
    assert_eq!(parse_palette_mode("vibrant"), Ok(PaletteMode::Vibrant));
    assert_eq!(parse_palette_mode("'contrast'"), Ok(PaletteMode::Contrast));
    assert_eq!(parse_palette_mode("center"), Ok(PaletteMode::Center));
    assert_eq!(parse_palette_mode("center_bias"), Ok(PaletteMode::Center));
    assert_eq!(
        parse_palette_mode("Balanced"),
        Err(String::from(
            "Unknown palette mode 'Balanced' in rebar.toml. Expected balanced, vibrant, contrast, or center."
        ))
    );
}

#[test]
fn bool_values() {
    for yes in ["true", "1", "yes", "on", "\"true\"", "'on'"] {
        assert_eq!(parse_bool(yes), Ok(true));
    }
    for no in ["false", "0", "no", "off", " \"off\" "] {
        assert_eq!(parse_bool(no), Ok(false));
    }
    assert_eq!(
        parse_bool("TRUE"),
        Err(String::from(
            "Unknown boolean value 'TRUE' in rebar.toml. Expected true or false."
        ))
    );
}

#[test]
fn startup_mode_values() {
    assert_eq!(parse_startup_mode("foreground"), Ok(StartupMode::Foreground));
    assert_eq!(parse_startup_mode("normal"), Ok(StartupMode::Foreground));
    assert_eq!(parse_startup_mode("background"), Ok(StartupMode::Background));
    assert_eq!(
        parse_startup_mode("hidden"),
        Err(String::from(
            "Unknown startup mode 'hidden' in rebar.toml. Expected foreground or background."
        ))
    );
}

#[test]
fn integer_values_and_errors() {
    assert_eq!(parse_u64("200", "flyout_animation_ms"), Ok(200));
    assert_eq!(parse_u64("\"18446744073709551615\"", "k"), Ok(u64::MAX));
    assert_eq!(
        parse_u64("", "flyout_animation_ms"),
        Err(String::from(
            "Invalid integer value '' for flyout_animation_ms in rebar.toml: cannot parse integer from empty string"
        ))
    );
    assert_eq!(
        parse_u64("12ms", "flyout_animation_ms"),
        Err(String::from(
            "Invalid integer value '12ms' for flyout_animation_ms in rebar.toml: invalid digit found in string"
        ))
    );
    assert_eq!(
        parse_u64("-5", "k"),
        Err(String::from(
            "Invalid integer value '-5' for k in rebar.toml: invalid digit found in string"
        ))
    );
    assert_eq!(
        parse_u64("+", "k"),
        Err(String::from(
            "Invalid integer value '+' for k in rebar.toml: invalid digit found in string"
        ))
    );
    assert_eq!(
        parse_u64("18446744073709551616", "k"),
        Err(String::from(
            "Invalid integer value '18446744073709551616' for k in rebar.toml: number too large to fit in target type"
        ))
    );
    assert_eq!(
        parse_u64("99999999999999999999x", "k"),
        Err(String::from(
            "Invalid integer value '99999999999999999999x' for k in rebar.toml: number too large to fit in target type"
        ))
    );
}

#[test]
fn integer_parsing_agrees_with_std() {
    for text in ["0", "007", "+12", "1_000", " 5", "4294967296", "18446744073709551615", "18446744073709551616", "٣"] {
        let ours = parse_u64(text, "k");
        let theirs = text.trim().parse::<u64>();
        match (ours, theirs) {
            (Ok(a), Ok(b)) => assert_eq!(a, b),
            (Err(message), Err(error)) => assert!(message.ends_with(&error.to_string()), "{message}"),
            (a, b) => panic!("{text}: {a:?} vs {b:?}"),
        }
    }
}

#[test]
fn keys_and_startup_argument() {
    assert_eq!(PaletteMode::Balanced.as_key(), "balanced");
    assert_eq!(PaletteMode::Vibrant.as_key(), "vibrant");
    assert_eq!(PaletteMode::Contrast.as_key(), "contrast");
    assert_eq!(PaletteMode::Center.as_key(), "center");
    assert_eq!(StartupMode::Foreground.as_key(), "foreground");
    assert_eq!(StartupMode::Background.as_key(), "background");
    assert_eq!(StartupMode::Foreground.as_startup_arg(), None);
    assert_eq!(StartupMode::Background.as_startup_arg(), Some("--background"));
}

#[test]
fn documented_example_config() {
    let text = "palette = \"balanced\"\nhide_windows_taskbar = true\nauto_hide_panels_on_focus_loss = true\nflyout_animation_ms = 100\nlaunch_on_startup = false\nstartup_mode = \"background\"\n";
    let config = AppConfig::from_toml(text).unwrap();
    assert_eq!(config.palette_mode, PaletteMode::Balanced);
    assert!(config.hide_windows_taskbar);
    assert!(config.auto_hide_panels_on_focus_loss);
    assert_eq!(config.flyout_animation_ms, 100);
    assert!(!config.launch_on_startup);
    assert_eq!(config.startup_mode, StartupMode::Background);
}

#[test]
fn keys_read_back_with_padding_and_quotes() {
    for mode in [PaletteMode::Balanced, PaletteMode::Vibrant, PaletteMode::Contrast, PaletteMode::Center] {
        let key = mode.as_key();
        for text in [key.to_string(), format!("  {key}\t"), format!(" \"{key}\" "), format!("'{key}'")] {
            assert_eq!(parse_palette_mode(&text), Ok(mode));
        }
    }
    for mode in [StartupMode::Foreground, StartupMode::Background] {
        let key = mode.as_key();
        for text in [key.to_string(), format!("\u{3000}{key} "), format!("\"{key}\""), format!(" '{key}'\r")] {
            assert_eq!(parse_startup_mode(&text), Ok(mode));
        }
    }
}
