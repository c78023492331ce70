//! Application configuration types and rules.

use std::path::PathBuf;

use vstd::prelude::*;
use vstd::string::*;
use vstd::utf8::*;

use crate::text::lemma_ascii_head;

verus! {

/// Application name used for config discovery.
pub const APP_NAME: &'static str = "ratty";

/// Local fallback config path.
pub const CONFIG_PATH: &'static str = "config/ratty.toml";

/// A file system path.
#[verifier::external_type_specification]
#[verifier::external_body]
pub struct ExPathBuf(PathBuf);

/// Terminal grid configuration.
#[derive(Clone, Copy, PartialEq, Eq, Structural, Debug)]
pub struct TerminalConfig {
    /// Default terminal column count.
    pub default_cols: u16,
    /// Default terminal row count.
    pub default_rows: u16,
    /// Scrollback line count.
    pub scrollback: usize,
}

impl Default for TerminalConfig {
    fn default() -> (config: Self)
        ensures
            config == (TerminalConfig { default_cols: 104, default_rows: 32, scrollback: 2_000 }),
    {
        TerminalConfig { default_cols: 104, default_rows: 32, scrollback: 2_000 }
    }
}

/// Shell configuration.
#[derive(Clone, Debug)]
pub struct ShellConfig {
    /// Shell program path.
    pub program: Option<PathBuf>,
    /// Shell arguments.
    pub args: Vec<String>,
}

impl Default for ShellConfig {
    fn default() -> (config: Self)
        ensures
            config.program is None,
            config.args@ == Seq::<String>::empty(),
    {
        ShellConfig { program: None, args: Vec::new() }
    }
}

/// Key binding configuration.
#[derive(Clone, Debug)]
pub struct BindingsConfig {
    /// Configured key bindings.
    pub keys: Vec<KeyBindingConfig>,
}

impl Default for BindingsConfig {
    fn default() -> (config: Self)
        ensures
            config.keys@ == Seq::<KeyBindingConfig>::empty(),
    {
        BindingsConfig { keys: Vec::new() }
    }
}

/// Single key binding entry.
#[derive(Clone, Debug)]
pub struct KeyBindingConfig {
    /// Key name.
    pub key: String,
    /// Modifier expression.
    pub with: String,
    /// Bound action.
    pub action: BindingAction,
}

/// Terminal binding action.
#[derive(Clone, Copy, PartialEq, Eq, Structural, Debug)]
pub enum BindingAction {
    /// Disables a binding.
    Disabled,
    /// Toggles between the flat and warped terminal views.
    Toggle3DMode,
    /// Toggles the Mobius-strip terminal view.
    ToggleMobiusMode,
    /// Scrolls one page up through scrollback.
    ScrollPageUp,
    /// Scrolls one page down through scrollback.
    ScrollPageDown,
    /// Scrolls one line up through scrollback.
    ScrollUp,
    /// Scrolls one line down through scrollback.
    ScrollDown,
    /// Increases plane warp.
    IncreaseWarp,
    /// Decreases plane warp.
    DecreaseWarp,
    /// Copies the current selection.
    Copy,
    /// Pastes clipboard contents.
    Paste,
    /// Increases the font size.
    IncreaseFontSize,
    /// Decreases the font size.
    DecreaseFontSize,
    /// Resets the font size.
    ResetFontSize,
}

/// Font configuration.
#[derive(Clone, Debug)]
pub struct FontConfig {
    /// Font family name.
    pub family: String,
    /// Font style override.
    pub style: FontStyleConfig,
    /// Font size in points (1pt = 4/3 logical pixels).
    pub size: i32,
}

/// Font size that configurations start from and resets return to.
pub const DEFAULT_FONT_SIZE: i32 = 18;

impl Default for FontConfig {
    fn default() -> (config: Self)
        ensures
            config.family@ == "DejaVu Sans Mono"@,
            config.style == FontStyleConfig::Regular,
            config.size == DEFAULT_FONT_SIZE,
    {
        FontConfig {
            family: "DejaVu Sans Mono".to_owned(),
            style: FontStyleConfig::Regular,
            size: DEFAULT_FONT_SIZE,
        }
    }
}

/// Font style override.
#[derive(Clone, Copy, PartialEq, Eq, Structural, Debug)]
pub enum FontStyleConfig {
    /// Regular font style.
    Regular,
    /// Bold font style.
    Bold,
    /// Italic font style.
    Italic,
    /// Bold italic font style.
    BoldItalic,
}

impl Default for FontStyleConfig {
    fn default() -> (style: Self)
        ensures
            style == FontStyleConfig::Regular,
    {
        FontStyleConfig::Regular
    }
}

/// Terminal theme configuration.
#[derive(Clone, Copy, Debug)]
pub struct ThemeConfig {
    /// Default foreground color.
    pub foreground: [u8; 3],
    /// Default background color.
    pub background: [u8; 3],
    /// Cursor color.
    pub cursor: [u8; 3],
    /// ANSI 0..7 colors.
    pub normal: ThemePaletteConfig,
    /// ANSI 8..15 colors.
    pub bright: ThemePaletteConfig,
}

impl Default for ThemeConfig {
    fn default() -> (config: Self)
        ensures
            config.foreground@ == seq![220u8, 215, 186],
            config.background@ == seq![31u8, 31, 40],
            config.cursor@ == seq![126u8, 156, 216],
            config.normal.colors() == normal_colors(),
            config.bright.colors() == bright_colors(),
    {
        ThemeConfig {
            foreground: [220, 215, 186],
            background: [31, 31, 40],
            cursor: [126, 156, 216],
            normal: ThemePaletteConfig::default_normal(),
            bright: ThemePaletteConfig::default_bright(),
        }
    }
}

impl ThemeConfig {
    /// The ANSI 0..15 colors of the theme.
    pub open spec fn ansi_colors(&self) -> Seq<Seq<u8>> {
        self.normal.colors() + self.bright.colors()
    }

    /// Returns the ANSI 0..15 palette.
    pub fn palette(&self) -> (palette: [[u8; 3]; 16])
        ensures
            color_values(palette@) == self.normal.colors() + self.bright.colors(),
            color_values(palette@) == self.ansi_colors(),
    {
        let palette: [[u8; 3]; 16] = [
            self.normal.black,
            self.normal.red,
            self.normal.green,
            self.normal.yellow,
            self.normal.blue,
            self.normal.magenta,
            self.normal.cyan,
            self.normal.white,
            self.bright.black,
            self.bright.red,
            self.bright.green,
            self.bright.yellow,
            self.bright.blue,
            self.bright.magenta,
            self.bright.cyan,
            self.bright.white,
        ];
        assert(color_values(palette@) =~= self.normal.colors() + self.bright.colors());
        palette
    }
}

/// The components of each color.
pub open spec fn color_values(colors: Seq<[u8; 3]>) -> Seq<Seq<u8>> {
    colors.map_values(|color: [u8; 3]| color@)
}

/// Eight-color theme palette.
#[derive(Clone, Copy, Debug)]
pub struct ThemePaletteConfig {
    /// Black color.
    pub black: [u8; 3],
    /// Red color.
    pub red: [u8; 3],
    /// Green color.
    pub green: [u8; 3],
    /// Yellow color.
    pub yellow: [u8; 3],
    /// Blue color.
    pub blue: [u8; 3],
    /// Magenta color.
    pub magenta: [u8; 3],
    /// Cyan color.
    pub cyan: [u8; 3],
    /// White color.
    pub white: [u8; 3],
}

/// The default ANSI 0..7 colors.
pub open spec fn normal_colors() -> Seq<Seq<u8>> {
    seq![
        seq![0u8, 0, 0],
        seq![205u8, 49, 49],
        seq![13u8, 188, 121],
        seq![229u8, 229, 16],
        seq![36u8, 114, 200],
        seq![188u8, 63, 188],
        seq![17u8, 168, 205],
        seq![229u8, 229, 229],
    ]
}

/// The default ANSI 8..15 colors.
pub open spec fn bright_colors() -> Seq<Seq<u8>> {
    seq![
        seq![102u8, 102, 102],
        seq![241u8, 76, 76],
        seq![35u8, 209, 139],
        seq![245u8, 245, 67],
        seq![59u8, 142, 234],
        seq![214u8, 112, 214],
        seq![41u8, 184, 219],
        seq![255u8, 255, 255],
    ]
}

impl ThemePaletteConfig {
    /// The colors of the palette in ANSI order.
    pub open spec fn colors(&self) -> Seq<Seq<u8>> {
        seq![
            self.black@,
            self.red@,
            self.green@,
            self.yellow@,
            self.blue@,
            self.magenta@,
            self.cyan@,
            self.white@,
        ]
    }

    /// Returns the default ANSI 0..7 palette.
    pub fn default_normal() -> (palette: Self)
        ensures
            palette.colors() == normal_colors(),
    {
        let palette = ThemePaletteConfig {
            black: [0, 0, 0],
            red: [205, 49, 49],
            green: [13, 188, 121],
            yellow: [229, 229, 16],
            blue: [36, 114, 200],
            magenta: [188, 63, 188],
            cyan: [17, 168, 205],
            white: [229, 229, 229],
        };
        assert(palette.colors() =~~= normal_colors());
        palette
    }

    /// Returns the default ANSI 8..15 palette.
    pub fn default_bright() -> (palette: Self)
        ensures
            palette.colors() == bright_colors(),
    {
        let palette = ThemePaletteConfig {
            black: [102, 102, 102],
            red: [241, 76, 76],
            green: [35, 209, 139],
            yellow: [245, 245, 67],
            blue: [59, 142, 234],
            magenta: [214, 112, 214],
            cyan: [41, 184, 219],
            white: [255, 255, 255],
        };
        assert(palette.colors() =~~= bright_colors());
        palette
    }
}

/// Why a color text was refused.
#[derive(Clone, Copy, PartialEq, Eq, Structural, Debug)]
pub enum HexColorError {
    /// The text does not have six bytes after an optional number sign.
    Format,
    /// The red component is not a hexadecimal number.
    Red,
    /// The green component is not a hexadecimal number.
    Green,
    /// The blue component is not a hexadecimal number.
    Blue,
}

impl HexColorError {
    /// The first part of the message, which the refused text follows.
    pub open spec fn reason(self) -> Seq<char> {
        match self {
            HexColorError::Format => "expected hex color in #RRGGBB format, got "@,
            HexColorError::Red => "invalid red component in "@,
            HexColorError::Green => "invalid green component in "@,
            HexColorError::Blue => "invalid blue component in "@,
        }
    }

    /// Describes why a color text was refused.
    pub fn message(self, value: &str) -> (message: String)
        ensures
            message@ == self.reason() + value@,
    {
        let mut message: String = match self {
            HexColorError::Format => "expected hex color in #RRGGBB format, got ".to_owned(),
            HexColorError::Red => "invalid red component in ".to_owned(),
            HexColorError::Green => "invalid green component in ".to_owned(),
            HexColorError::Blue => "invalid blue component in ".to_owned(),
        };
        message.append(value);
        message
    }
}

/// The value of a hexadecimal digit.
pub open spec fn hex_digit(b: u8) -> Option<u8> {
    if 0x30 <= b <= 0x39 {
        Some((b - 0x30) as u8)
    } else if 0x41 <= b <= 0x46 {
        Some((b - 0x41 + 10) as u8)
    } else if 0x61 <= b <= 0x66 {
        Some((b - 0x61 + 10) as u8)
    } else {
        None
    }
}

/// The value of a two-byte hexadecimal number, whose first byte may be a plus
/// sign.
pub open spec fn hex_pair(first: u8, second: u8) -> Option<u8> {
    match (hex_digit(first), hex_digit(second)) {
        (Some(high), Some(low)) => Some((high * 16 + low) as u8),
        (None, Some(low)) if first == 0x2b => Some(low),
        _ => None,
    }
}

/// A color text after an optional number sign.
pub open spec fn without_number_sign(value: Seq<char>) -> Seq<char> {
    if value.len() > 0 && value[0] == '#' {
        value.skip(1)
    } else {
        value
    }
}

/// The bytes of a color text after an optional number sign.
pub open spec fn hex_bytes(value: Seq<char>) -> Seq<u8> {
    encode_utf8(without_number_sign(value))
}

/// The color that a text stands for.
pub open spec fn hex_color(value: Seq<char>) -> Result<Seq<u8>, HexColorError> {
    let bytes = hex_bytes(value);
    if bytes.len() != 6 {
        Err(HexColorError::Format)
    } else {
        match (
            hex_pair(bytes[0], bytes[1]),
            hex_pair(bytes[2], bytes[3]),
            hex_pair(bytes[4], bytes[5]),
        ) {
            (None, _, _) => Err(HexColorError::Red),
            (_, None, _) => Err(HexColorError::Green),
            (_, _, None) => Err(HexColorError::Blue),
            (Some(red), Some(green), Some(blue)) => Ok(seq![red, green, blue]),
        }
    }
}

/// Reads a hexadecimal digit.
fn read_hex_digit(b: u8) -> (digit: Option<u8>)
    ensures
        digit == hex_digit(b),
        digit is Some ==> digit->0 < 16,
{
    if 0x30 <= b && b <= 0x39 {
        Some(b - 0x30)
    } else if 0x41 <= b && b <= 0x46 {
        Some(b - 0x41 + 10)
    } else if 0x61 <= b && b <= 0x66 {
        Some(b - 0x61 + 10)
    } else {
        None
    }
}

/// Reads a two-byte hexadecimal number.
fn read_hex_pair(first: u8, second: u8) -> (value: Option<u8>)
    ensures
        value == hex_pair(first, second),
{
    match (read_hex_digit(first), read_hex_digit(second)) {
        (Some(high), Some(low)) => Some(high * 16 + low),
        (None, Some(low)) => if first == 0x2b {
            Some(low)
        } else {
            None
        },
        _ => None,
    }
}

/// The position at which the digits of a color text start.
fn hex_start(value: &str) -> (start: usize)
    ensures
        start <= value.spec_bytes().len(),
        hex_bytes(value@) == value.spec_bytes().skip(start as int),
{
    if !value.is_empty() && value.get_char(0) == '#' {
        proof {
            lemma_ascii_head(value@);
            assert(value@.drop_first() == value@.skip(1));
            assert(value.spec_bytes().skip(1) =~= encode_utf8(value@.skip(1)));
        }
        1
    } else {
        assert(value.spec_bytes().skip(0) =~= value.spec_bytes());
        0
    }
}

/// Reads a color in `#RRGGBB` format.
pub fn parse_hex_color(value: &str) -> (color: Result<[u8; 3], HexColorError>)
    ensures
        match color {
            Ok(color) => hex_color(value@) == Ok::<Seq<u8>, HexColorError>(color@),
            Err(error) => hex_color(value@) == Err::<Seq<u8>, HexColorError>(error),
        },
{
    let start: usize = hex_start(value);
    let bytes = value.as_bytes();
    if bytes.len() - start != 6 {
        return Err(HexColorError::Format);
    }
    let red: u8 = match read_hex_pair(bytes[start], bytes[start + 1]) {
        Some(red) => red,
        None => return Err(HexColorError::Red),
    };
    let green: u8 = match read_hex_pair(bytes[start + 2], bytes[start + 3]) {
        Some(green) => green,
        None => return Err(HexColorError::Green),
    };
    let blue: u8 = match read_hex_pair(bytes[start + 4], bytes[start + 5]) {
        Some(blue) => blue,
        None => return Err(HexColorError::Blue),
    };
    let color: [u8; 3] = [red, green, blue];
    assert(color@ =~= seq![red, green, blue]);
    Ok(color)
}

/// The hexadecimal digits of a byte, in lowercase or in uppercase.
pub open spec fn hex_text(byte: u8, upper: bool) -> Seq<char> {
    seq![hex_char(byte / 16, upper), hex_char(byte % 16, upper)]
}

/// The hexadecimal digit of a number below sixteen, in lowercase or in uppercase.
pub open spec fn hex_char(n: u8, upper: bool) -> char {
    if n < 10 {
        (0x30 + n) as char
    } else if upper {
        (0x41 + n - 10) as char
    } else {
        (0x61 + n - 10) as char
    }
}

/// A color written as three pairs of hexadecimal digits, in lowercase or in
/// uppercase, with or without a number sign in front.
pub open spec fn written_color(red: u8, green: u8, blue: u8, upper: bool, sign: bool) -> Seq<
    char,
> {
    let digits = hex_text(red, upper) + hex_text(green, upper) + hex_text(blue, upper);
    if sign {
        seq!['#'] + digits
    } else {
        digits
    }
}

/// A written color is read back.
pub proof fn written_colors_are_read_back(
    red: u8,
    green: u8,
    blue: u8,
    upper: bool,
    sign: bool,
)
    ensures
        hex_color(written_color(red, green, blue, upper, sign)) == Ok::<Seq<u8>, HexColorError>(
            seq![red, green, blue],
        ),
{
    let text = written_color(red, green, blue, upper, sign);
    let digits = hex_text(red, upper) + hex_text(green, upper) + hex_text(blue, upper);
    let hex = without_number_sign(text);
    assert(digits[0] != '#');
    assert(hex =~= digits);
    assert(is_ascii_chars(hex));
    is_ascii_chars_encode_utf8(hex);
    let bytes = encode_utf8(hex);
    assert(bytes.len() == 6);
    assert(hex[0] == hex_char(red / 16, upper) && hex[1] == hex_char(red % 16, upper));
    assert(hex[2] == hex_char(green / 16, upper) && hex[3] == hex_char(green % 16, upper));
    assert(hex[4] == hex_char(blue / 16, upper) && hex[5] == hex_char(blue % 16, upper));
    assert(bytes[0] == hex[0] as u8 && bytes[1] == hex[1] as u8 && bytes[2] == hex[2] as u8
        && bytes[3] == hex[3] as u8 && bytes[4] == hex[4] as u8 && bytes[5] == hex[5] as u8);
}

/// A character with a small scalar value is an ASCII character.
proof fn lemma_small_scalar(c: char)
    requires
        c as u32 <= 0x7f,
    ensures
        '\0' <= c <= '\u{7f}',
{
}

/// A text whose encoding holds only ASCII bytes holds only ASCII characters.
proof fn lemma_ascii_bytes(chars: Seq<char>)
    requires
        forall|k: int| 0 <= k < encode_utf8(chars).len() ==> #[trigger] encode_utf8(chars)[k]
            < 0x80,
    ensures
        is_ascii_chars(chars),
    decreases chars.len(),
{
    if chars.len() > 0 {
        let bytes = encode_utf8(chars);
        let rest = chars.drop_first();
        let head = encode_scalar(chars[0] as u32);
        encode_utf8_first_scalar(chars);
        let first = bytes[0];
        assert(first < 0x80);
        assert((first & 0x7f) <= 0x7f) by (bit_vector);
        assert(chars[0] as u32 <= 0x7f);
        lemma_small_scalar(chars[0]);
        assert forall|k: int| 0 <= k < encode_utf8(rest).len() implies #[trigger] encode_utf8(
            rest,
        )[k] < 0x80 by {
            assert(bytes[k + head.len()] == encode_utf8(rest)[k]);
        }
        lemma_ascii_bytes(rest);
        assert forall|i: int| 0 <= i < chars.len() implies '\0' <= #[trigger] chars[i]
            <= '\u{7f}' by {
            if i > 0 {
                assert(chars[i] == rest[i - 1]);
            }
        }
    }
}

/// Whether a text is made of exactly six hexadecimal digits.
pub open spec fn is_six_hex_digits(text: Seq<char>) -> bool {
    &&& text.len() == 6
    &&& forall|i: int|
        0 <= i < 6 ==> {
            ||| '0' <= #[trigger] text[i] <= '9'
            ||| 'A' <= text[i] <= 'F'
            ||| 'a' <= text[i] <= 'f'
        }
}

/// A text without plus signs is a color exactly where six hexadecimal digits
/// are left of it after an optional number sign.
pub proof fn only_hex_digits_are_colors(value: Seq<char>)
    requires
        !value.contains('+'),
    ensures
        hex_color(value) is Ok <==> is_six_hex_digits(without_number_sign(value)),
{
    let text = without_number_sign(value);
    let bytes = hex_bytes(value);
    if hex_color(value) is Ok {
        assert forall|k: int| 0 <= k < bytes.len() implies #[trigger] bytes[k] < 0x80 by {
            assert(k == 0 || k == 1 || k == 2 || k == 3 || k == 4 || k == 5);
        }
        lemma_ascii_bytes(text);
        is_ascii_chars_encode_utf8(text);
        assert forall|i: int| 0 <= i < 6 implies bytes[i] == #[trigger] text[i] as u8 && bytes[i]
            != 0x2b by {
            let at = if text == value {
                i
            } else {
                i + 1
            };
            assert(value[at] == text[i]);
        }
        assert(hex_digit(bytes[0]) is Some && hex_digit(bytes[1]) is Some && hex_digit(bytes[2])
            is Some && hex_digit(bytes[3]) is Some && hex_digit(bytes[4]) is Some && hex_digit(
            bytes[5],
        ) is Some) by {
            assert(text[0] as u8 != 0x2b && text[2] as u8 != 0x2b && text[4] as u8 != 0x2b);
        }
        assert forall|i: int| 0 <= i < 6 implies {
            ||| '0' <= #[trigger] text[i] <= '9'
            ||| 'A' <= text[i] <= 'F'
            ||| 'a' <= text[i] <= 'f'
        } by {
            assert(i == 0 || i == 1 || i == 2 || i == 3 || i == 4 || i == 5);
            assert(bytes[i] == text[i] as u8);
        }
    }
    if is_six_hex_digits(text) {
        assert(is_ascii_chars(text));
        is_ascii_chars_encode_utf8(text);
        assert forall|i: int| 0 <= i < 6 implies hex_digit(#[trigger] bytes[i]) is Some by {
            assert(bytes[i] == text[i] as u8);
        }
    }
}

/// What is known of a configured path once it has been expanded.
pub struct ConfigPath {
    /// The expanded path.
    pub expanded: PathBuf,
    /// Whether the expanded path is relative.
    pub relative: bool,
    /// Whether the expanded path names a directory in front of its last
    /// component.
    pub nested: bool,
    /// The expanded path below the directory of the config file.
    pub in_config_dir: PathBuf,
    /// Whether a file exists there.
    pub in_config_dir_exists: bool,
}

/// The path that a configured path stands for: relative paths belong to the
/// directory of the config file, except bare names that are not found there.
pub open spec fn resolved_path(path: ConfigPath) -> PathBuf {
    if path.relative && (path.nested || path.in_config_dir_exists) {
        path.in_config_dir
    } else {
        path.expanded
    }
}

/// Resolves a configured path against the directory of the config file.
pub fn resolve_config_path(path: ConfigPath) -> (resolved: PathBuf)
    ensures
        resolved == resolved_path(path),
{
    if !path.relative {
        return path.expanded;
    }
    if path.nested || path.in_config_dir_exists {
        path.in_config_dir
    } else {
        path.expanded
    }
}

/// Paths of a configuration that may be relative to its file.
pub struct ConfigPaths {
    /// Cursor asset path.
    pub model: PathBuf,
    /// Base-color texture of the cursor model.
    pub texture: Option<PathBuf>,
    /// Shell program path.
    pub program: Option<PathBuf>,
}

/// The path that an optional configured path stands for.
pub open spec fn resolved_option(path: Option<ConfigPath>) -> Option<PathBuf> {
    match path {
        Some(path) => Some(resolved_path(path)),
        None => None,
    }
}

/// Resolves an optional configured path.
fn resolve_option(path: Option<ConfigPath>) -> (resolved: Option<PathBuf>)
    ensures
        resolved == resolved_option(path),
{
    match path {
        Some(path) => Some(resolve_config_path(path)),
        None => None,
    }
}

/// The paths that the configured paths of a configuration stand for.
pub open spec fn resolved_paths(
    model: ConfigPath,
    texture: Option<ConfigPath>,
    program: Option<ConfigPath>,
) -> ConfigPaths {
    ConfigPaths {
        model: resolved_path(model),
        texture: resolved_option(texture),
        program: resolved_option(program),
    }
}

/// Resolves the paths of a configuration against the directory of its file.
pub fn resolve_relative_paths(
    model: ConfigPath,
    texture: Option<ConfigPath>,
    program: Option<ConfigPath>,
) -> (paths: ConfigPaths)
    ensures
        paths.model == resolved_path(model),
        paths.texture == resolved_option(texture),
        paths.program == resolved_option(program),
        paths == resolved_paths(model, texture, program),
{
    ConfigPaths {
        model: resolve_config_path(model),
        texture: resolve_option(texture),
        program: resolve_option(program),
    }
}

/// The config file that is loaded when none is named.
pub open spec fn chosen_config(
    system_path: PathBuf,
    system_exists: bool,
    local_path: PathBuf,
    local_exists: bool,
) -> Option<PathBuf> {
    if system_exists {
        Some(system_path)
    } else if local_exists {
        Some(local_path)
    } else {
        None
    }
}

/// Chooses the config file that is loaded when none is named: the system file
/// is preferred over the local fallback when both exist.
pub fn default_config_path(
    system_path: PathBuf,
    system_exists: bool,
    local_path: PathBuf,
    local_exists: bool,
) -> (path: Option<PathBuf>)
    ensures
        system_exists ==> path == Some(system_path),
        !system_exists && local_exists ==> path == Some(local_path),
        !system_exists && !local_exists ==> path is None,
        path == chosen_config(system_path, system_exists, local_path, local_exists),
{
    if system_exists {
        Some(system_path)
    } else if local_exists {
        Some(local_path)
    } else {
        None
    }
}

/// The colors of a palette come in ANSI order: black, red, green, yellow, blue,
/// magenta, cyan and white, first the normal ones and then the bright ones.
pub proof fn palettes_are_in_order(theme: ThemeConfig)
    ensures
        theme.ansi_colors().len() == 16,
        theme.ansi_colors()[0] == theme.normal.black@,
        theme.ansi_colors()[1] == theme.normal.red@,
        theme.ansi_colors()[2] == theme.normal.green@,
        theme.ansi_colors()[3] == theme.normal.yellow@,
        theme.ansi_colors()[4] == theme.normal.blue@,
        theme.ansi_colors()[5] == theme.normal.magenta@,
        theme.ansi_colors()[6] == theme.normal.cyan@,
        theme.ansi_colors()[7] == theme.normal.white@,
        theme.ansi_colors()[8] == theme.bright.black@,
        theme.ansi_colors()[9] == theme.bright.red@,
        theme.ansi_colors()[10] == theme.bright.green@,
        theme.ansi_colors()[11] == theme.bright.yellow@,
        theme.ansi_colors()[12] == theme.bright.blue@,
        theme.ansi_colors()[13] == theme.bright.magenta@,
        theme.ansi_colors()[14] == theme.bright.cyan@,
        theme.ansi_colors()[15] == theme.bright.white@,
{
}

/// Every bright default color is at least as bright as the normal one in each
/// component.
pub proof fn bright_colors_are_brighter(color: int, component: int)
    requires
        0 <= color < 8,
        0 <= component < 3,
    ensures
        normal_colors().len() == 8,
        bright_colors().len() == 8,
        normal_colors()[color].len() == 3,
        bright_colors()[color].len() == 3,
        normal_colors()[color][component] <= bright_colors()[color][component],
{
    assert(color == 0 || color == 1 || color == 2 || color == 3 || color == 4 || color == 5 || color
        == 6 || color == 7);
    assert(component == 0 || component == 1 || component == 2);
}

/// A digit stands for the value that it has in base sixteen, in either case, and no
/// other byte does.
pub proof fn hex_digits_have_values(b: u8)
    ensures
        48 <= b <= 57 ==> hex_digit(b) == Some((b - 48) as u8),
        65 <= b <= 70 ==> hex_digit(b) == Some((b - 55) as u8),
        97 <= b <= 102 ==> hex_digit(b) == Some((b - 87) as u8),
        hex_digit(b) is Some <==> 48 <= b <= 57 || 65 <= b <= 70 || 97 <= b <= 102,
{
}

/// Two digits stand for their number in base sixteen, the first one counting
/// sixteenfold. A plus sign can stand in for the first one, and nothing else can.
pub proof fn hex_pairs_have_values(first: u8, second: u8)
    ensures
        hex_digit(first) is Some && hex_digit(second) is Some ==> hex_pair(first, second) is Some
            && hex_pair(first, second)->0 == 16 * hex_digit(first)->0 + hex_digit(second)->0,
        first == 43 ==> hex_pair(first, second) == hex_digit(second),
        hex_digit(second) is None ==> hex_pair(first, second) is None,
        hex_digit(first) is None && first != 43 ==> hex_pair(first, second) is None,
{
}

/// A text of another length than six bytes after an optional number sign is refused
/// for its format. Of one with six bytes, the first pair that is no number is named,
/// and where all three are numbers they are red, green and blue.
pub proof fn refusals_name_the_first_cause(value: Seq<char>)
    ensures
        ({
            let bytes = hex_bytes(value);
            let red = hex_pair(bytes[0], bytes[1]);
            let green = hex_pair(bytes[2], bytes[3]);
            let blue = hex_pair(bytes[4], bytes[5]);
            let color = hex_color(value);
            &&& bytes.len() != 6 <==> color == Err::<Seq<u8>, HexColorError>(HexColorError::Format)
            &&& bytes.len() == 6 ==> {
                &&& red is None ==> color == Err::<Seq<u8>, HexColorError>(HexColorError::Red)
                &&& red is Some && green is None ==> color == Err::<Seq<u8>, HexColorError>(
                    HexColorError::Green,
                )
                &&& red is Some && green is Some && blue is None ==> color == Err::<
                    Seq<u8>,
                    HexColorError,
                >(HexColorError::Blue)
                &&& red is Some && green is Some && blue is Some ==> color is Ok && color->Ok_0
                    == seq![red->0, green->0, blue->0]
            }
        }),
{
}

/// One number sign in front of a color text makes no difference, unless there is
/// one already.
pub proof fn number_signs_are_optional(value: Seq<char>)
    requires
        value.len() == 0 || value[0] != '#',
    ensures
        hex_color(seq!['#'] + value) == hex_color(value),
        hex_bytes(seq!['#'] + value) == encode_utf8(value),
        hex_bytes(value) == encode_utf8(value),
{
    assert((seq!['#'] + value).skip(1) =~= value);
}

/// Each refusal has a message of its own.
pub proof fn refusals_have_messages()
    ensures
        HexColorError::Format.reason() == "expected hex color in #RRGGBB format, got "@,
        HexColorError::Red.reason() == "invalid red component in "@,
        HexColorError::Green.reason() == "invalid green component in "@,
        HexColorError::Blue.reason() == "invalid blue component in "@,
{
}

/// An absolute path is taken as it is, a relative one with a directory in front is
/// looked for beside the config file, and a bare name is where it exists there.
pub proof fn relative_paths_belong_to_the_config(path: ConfigPath)
    ensures
        !path.relative ==> resolved_path(path) == path.expanded,
        path.relative && path.nested ==> resolved_path(path) == path.in_config_dir,
        path.relative && path.in_config_dir_exists ==> resolved_path(path) == path.in_config_dir,
        path.relative && !path.nested && !path.in_config_dir_exists ==> resolved_path(path)
            == path.expanded,
{
}

/// Each path of a configuration is resolved by itself, and one that is not
/// configured stays so.
pub proof fn paths_are_resolved_one_by_one(
    model: ConfigPath,
    texture: ConfigPath,
    program: ConfigPath,
)
    ensures
        ({
            let all = resolved_paths(model, Some(texture), Some(program));
            &&& all.model == resolved_path(model)
            &&& all.texture == Some(resolved_path(texture))
            &&& all.program == Some(resolved_path(program))
        }),
        ({
            let plain = resolved_paths(model, None, Some(program));
            plain.texture is None && plain.program is Some
        }),
        ({
            let bare = resolved_paths(model, Some(texture), None);
            bare.texture is Some && bare.program is None
        }),
{
}

/// The system file is loaded wherever it exists, the local one only where the other
/// does not, and no file where neither does.
pub proof fn system_files_are_preferred(
    system_path: PathBuf,
    system_exists: bool,
    local_path: PathBuf,
    local_exists: bool,
)
    ensures
        chosen_config(system_path, true, local_path, local_exists) == Some(system_path),
        chosen_config(system_path, false, local_path, true) == Some(local_path),
        chosen_config(system_path, system_exists, local_path, local_exists) is None
            <==> !system_exists && !local_exists,
{
}

/// The components of a list of colors are those of its colors, in their order.
pub proof fn colors_have_their_components(colors: Seq<[u8; 3]>, i: int)
    requires
        0 <= i < colors.len(),
    ensures
        color_values(colors).len() == colors.len(),
        color_values(colors)[i] == colors[i]@,
{
}

} // verus!
