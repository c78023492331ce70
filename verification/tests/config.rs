use std::path::PathBuf;

use ratty::config::{
    default_config_path, parse_hex_color, resolve_config_path,
    resolve_relative_paths, BindingsConfig, ConfigPath, FontConfig, FontStyleConfig, HexColorError,
    ShellConfig, TerminalConfig, ThemeConfig, ThemePaletteConfig, APP_NAME, CONFIG_PATH,
};

fn path(relative: bool, nested: bool, exists: bool) -> ConfigPath {
    ConfigPath {
        expanded: PathBuf::from("given"),
        relative,
        nested,
        in_config_dir: PathBuf::from("config/given"),
        in_config_dir_exists: exists,
    }
}

#[test]
fn defaults_are_those_of_the_documentation() {
    assert_eq!(
        TerminalConfig::default(),
        TerminalConfig { default_cols: 104, default_rows: 32, scrollback: 2_000 }
    );
    assert!(ShellConfig::default().program.is_none());
    assert!(ShellConfig::default().args.is_empty());
    assert!(BindingsConfig::default().keys.is_empty());
    let font = FontConfig::default();
    assert_eq!(font.family, "DejaVu Sans Mono");
    assert_eq!(font.style, FontStyleConfig::Regular);
    assert_eq!(font.size, 18);
    assert_eq!(FontStyleConfig::default(), FontStyleConfig::Regular);
    assert_eq!(APP_NAME, "ratty");
    assert_eq!(CONFIG_PATH, "config/ratty.toml");
}

#[test]
fn palettes_hold_sixteen_colors() {
    let theme = ThemeConfig::default();
    assert_eq!(theme.foreground, [220, 215, 186]);
    assert_eq!(theme.background, [31, 31, 40]);
    assert_eq!(theme.cursor, [126, 156, 216]);
    let palette = theme.palette();
    assert_eq!(palette[0], [0, 0, 0]);
    assert_eq!(palette[1], ThemePaletteConfig::default_normal().red);
    assert_eq!(palette[7], [229, 229, 229]);
    assert_eq!(palette[8], [102, 102, 102]);
    assert_eq!(palette[12], [59, 142, 234]);
    assert_eq!(palette[15], ThemePaletteConfig::default_bright().white);
}

#[test]
fn hex_colors_are_parsed() {
    assert_eq!(parse_hex_color("#1f1f28"), Ok([0x1f, 0x1f, 0x28]));
    assert_eq!(parse_hex_color("FFaa00"), Ok([0xff, 0xaa, 0x00]));
    assert_eq!(parse_hex_color("#+1+2+3"), Ok([1, 2, 3]));
}

#[test]
fn broken_hex_colors_are_refused() {
    assert_eq!(parse_hex_color(""), Err(HexColorError::Format));
    assert_eq!(parse_hex_color("#12345"), Err(HexColorError::Format));
    assert_eq!(parse_hex_color("##12345"), Err(HexColorError::Red));
    assert_eq!(parse_hex_color("#gg0000"), Err(HexColorError::Red));
    assert_eq!(parse_hex_color("#00g000"), Err(HexColorError::Green));
    assert_eq!(parse_hex_color("#0000-1"), Err(HexColorError::Blue));
    assert_eq!(parse_hex_color("ééé"), Err(HexColorError::Red));
}

#[test]
fn only_six_hex_digits_make_a_color() {
    for text in ["", "#", "#fff", "##12345", "12345g", "1234567", "a\u{e9}aaa", "0\u{e9}000",
        "000\u{e9}0", "\u{ff11}23456"] {
        assert!(parse_hex_color(text).is_err(), "{text}");
    }
    assert_eq!(parse_hex_color("a\u{e9}aaa"), Err(HexColorError::Red));
    assert_eq!(parse_hex_color("00\u{e9}00"), Err(HexColorError::Green));
    assert_eq!(parse_hex_color("0000\u{e9}"), Err(HexColorError::Blue));
    assert_eq!(parse_hex_color("#AbCdEf"), Ok([0xab, 0xcd, 0xef]));
}

#[test]
fn color_errors_name_the_text() {
    assert_eq!(
        HexColorError::Format.message("abc"),
        "expected hex color in #RRGGBB format, got abc"
    );
    assert_eq!(HexColorError::Red.message("x"), "invalid red component in x");
    assert_eq!(HexColorError::Green.message("x"), "invalid green component in x");
    assert_eq!(HexColorError::Blue.message("x"), "invalid blue component in x");
}

#[test]
fn relative_paths_belong_to_the_config_directory() {
    let given = PathBuf::from("given");
    let below = PathBuf::from("config/given");
    assert_eq!(resolve_config_path(path(false, true, true)), given);
    assert_eq!(resolve_config_path(path(true, true, false)), below);
    assert_eq!(resolve_config_path(path(true, false, true)), below);
    assert_eq!(resolve_config_path(path(true, false, false)), given);
    let paths = resolve_relative_paths(path(true, true, false), None, Some(path(true, false, false)));
    assert_eq!(paths.model, below);
    assert_eq!(paths.texture, None);
    assert_eq!(paths.program, Some(given));
}

#[test]
fn system_config_is_preferred() {
    let system = || PathBuf::from("system");
    let local = || PathBuf::from("local");
    assert_eq!(default_config_path(system(), true, local(), true), Some(system()));
    assert_eq!(default_config_path(system(), false, local(), true), Some(local()));
    assert_eq!(default_config_path(system(), false, local(), false), None);
}

#[test]
fn colors_are_read_back_in_every_written_form() {
    for (red, green, blue) in [(0, 0, 0), (255, 255, 255), (0x0a, 0xf0, 0x5c), (9, 0x10, 0xab)] {
        let lower = format!("{red:02x}{green:02x}{blue:02x}");
        let upper = format!("{red:02X}{green:02X}{blue:02X}");
        for text in [lower.clone(), format!("#{lower}"), upper.clone(), format!("#{upper}")] {
            assert_eq!(parse_hex_color(&text), Ok([red, green, blue]), "{text}");
        }
    }
}
