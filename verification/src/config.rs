//! User-customizable colors: the theme as it is configured, in hex
//! strings, and as it is used, in color values.


use vstd::prelude::*;
use vstd::string::StringSliceAdditionalSpecFns;

verus! {

/// A color by its red, green and blue parts.
#[derive(Debug, Clone, Copy, PartialEq, Eq, Structural)]
pub struct Rgb {
    pub r: u8,
    pub g: u8,
    pub b: u8,
}

/// The color that stands in for a hex string too short to hold a color.
pub open spec fn gray_spec() -> Rgb {
    Rgb { r: 160, g: 160, b: 160 }
}

/// The color that stands in for a hex string too short to hold a color.
pub fn gray() -> (c: Rgb)
    ensures
        c == gray_spec(),
{
    Rgb { r: 160, g: 160, b: 160 }
}

/// The value of a hexadecimal digit, of either case.
pub open spec fn hex_value(byte: u8) -> Option<u8> {
    if 0x30 <= byte <= 0x39 {
        Some((byte - 0x30) as u8)
    } else if 0x61 <= byte <= 0x66 {
        Some((byte - 0x61 + 10) as u8)
    } else if 0x41 <= byte <= 0x46 {
        Some((byte - 0x41 + 10) as u8)
    } else {
        None
    }
}

/// The number that two bytes spell in hexadecimal: two digits, or a plus
/// sign and one digit. `None` for anything else.
pub open spec fn hex_pair(high: u8, low: u8) -> Option<u8> {
    match (hex_value(high), hex_value(low)) {
        (Some(h), Some(l)) => Some((16 * h + l) as u8),
        (None, Some(l)) => if high == 0x2b {
            Some(l)
        } else {
            None
        },
        _ => None,
    }
}

/// Number of `#` bytes at the head of the text.
pub open spec fn leading_hashes(bytes: Seq<u8>) -> nat
    decreases bytes.len(),
{
    if bytes.len() > 0 && bytes[0] == 0x23 {
        1 + leading_hashes(bytes.drop_first())
    } else {
        0
    }
}

/// A pair of hex digits as a color part, 0 where it spells no number.
pub open spec fn part_or_zero(high: u8, low: u8) -> u8 {
    match hex_pair(high, low) {
        Some(v) => v,
        None => 0,
    }
}

/// The color that a hex string spells: after any `#` at the head, three
/// pairs of hex digits for red, green and blue, a pair that spells no
/// number counting as 0; what follows them is ignored. Gray where fewer
/// than six bytes follow the `#`.
pub open spec fn parse_hex_color_spec(bytes: Seq<u8>) -> Rgb {
    let rest = bytes.skip(leading_hashes(bytes) as int);
    if rest.len() >= 6 {
        Rgb {
            r: part_or_zero(rest[0], rest[1]),
            g: part_or_zero(rest[2], rest[3]),
            b: part_or_zero(rest[4], rest[5]),
        }
    } else {
        gray_spec()
    }
}

/// The color that a hex string of exactly six digits spells, with or
/// without one `#` before them. `None` for any other string.
pub open spec fn parse_hex_strict_spec(bytes: Seq<u8>) -> Option<Rgb> {
    let rest = if bytes.len() > 0 && bytes[0] == 0x23 {
        bytes.drop_first()
    } else {
        bytes
    };
    if rest.len() != 6 {
        None
    } else {
        match (hex_pair(rest[0], rest[1]), hex_pair(rest[2], rest[3]), hex_pair(rest[4], rest[5])) {
            (Some(r), Some(g), Some(b)) => Some(Rgb { r, g, b }),
            _ => None,
        }
    }
}

/// The value of a hexadecimal digit.
fn hex_digit(byte: u8) -> (v: Option<u8>)
    ensures
        v == hex_value(byte),
        v matches Some(d) ==> d < 16,
{
    if 0x30 <= byte && byte <= 0x39 {
        Some(byte - 0x30)
    } else if 0x61 <= byte && byte <= 0x66 {
        Some(byte - 0x61 + 10)
    } else if 0x41 <= byte && byte <= 0x46 {
        Some(byte - 0x41 + 10)
    } else {
        None
    }
}

/// The number that two bytes spell in hexadecimal.
pub fn parse_hex_pair(high: u8, low: u8) -> (v: Option<u8>)
    ensures
        v == hex_pair(high, low),
{
    match (hex_digit(high), hex_digit(low)) {
        (Some(h), Some(l)) => Some(16 * h + l),
        (None, Some(l)) => if high == 0x2b {
            Some(l)
        } else {
            None
        },
        _ => None,
    }
}

/// Parse hex color string to a color.
pub fn parse_hex_color(hex: &str) -> (color: Rgb)
    ensures
        color == parse_hex_color_spec(hex.spec_bytes()),
{
    let bytes = hex.as_bytes();
    let mut start: usize = 0;
    proof {
        assert(bytes@.skip(0) =~= bytes@);
    }
    while start < bytes.len() && bytes[start] == 0x23
        invariant
            start <= bytes@.len(),
            leading_hashes(bytes@) == start + leading_hashes(bytes@.skip(start as int)),
        decreases bytes@.len() - start,
    {
        proof {
            assert(bytes@.skip(start as int).drop_first() =~= bytes@.skip(start + 1));
        }
        start += 1;
    }
    if bytes.len() - start >= 6 {
        let r = parse_hex_pair(bytes[start], bytes[start + 1]);
        let g = parse_hex_pair(bytes[start + 2], bytes[start + 3]);
        let b = parse_hex_pair(bytes[start + 4], bytes[start + 5]);
        Rgb {
            r: match r {
                Some(v) => v,
                None => 0,
            },
            g: match g {
                Some(v) => v,
                None => 0,
            },
            b: match b {
                Some(v) => v,
                None => 0,
            },
        }
    } else {
        gray()
    }
}

/// Parse a hex color string of six digits, with or without a `#` before
/// them, to a color.
pub fn parse_hex_strict(hex: &str) -> (color: Option<Rgb>)
    ensures
        color == parse_hex_strict_spec(hex.spec_bytes()),
{
    let bytes = hex.as_bytes();
    let start: usize = if bytes.len() > 0 && bytes[0] == 0x23 {
        1
    } else {
        0
    };
    if bytes.len() - start != 6 {
        return None;
    }
    let r = parse_hex_pair(bytes[start], bytes[start + 1]);
    let g = parse_hex_pair(bytes[start + 2], bytes[start + 3]);
    let b = parse_hex_pair(bytes[start + 4], bytes[start + 5]);
    match (r, g, b) {
        (Some(r), Some(g), Some(b)) => Some(Rgb { r, g, b }),
        _ => None,
    }
}

/// The upper-case hexadecimal digit of a value below 16.
pub open spec fn hex_char(v: u8) -> char {
    if v < 10 {
        (0x30 + v) as char
    } else {
        (0x41 + v - 10) as char
    }
}

/// A color as a hex string: `#`, then two upper-case digits for each of
/// red, green and blue.
pub open spec fn color_to_hex_spec(color: Rgb) -> Seq<char> {
    seq![
        '#',
        hex_char(color.r / 16),
        hex_char(color.r % 16),
        hex_char(color.g / 16),
        hex_char(color.g % 16),
        hex_char(color.b / 16),
        hex_char(color.b % 16),
    ]
}

/// The upper-case hexadecimal digit of a value below 16.
fn to_hex_char(v: u8) -> (c: char)
    requires
        v < 16,
    ensures
        c == hex_char(v),
{
    if v < 10 {
        (0x30 + v) as char
    } else {
        (0x41 + v - 10) as char
    }
}

/// Convert a color to its hex string.
pub fn color_to_hex(color: Rgb) -> (hex: String)
    ensures
        hex@ == color_to_hex_spec(color),
{
    let mut hex = String::new();
    hex.push('#');
    hex.push(to_hex_char(color.r / 16));
    hex.push(to_hex_char(color.r % 16));
    hex.push(to_hex_char(color.g / 16));
    hex.push(to_hex_char(color.g % 16));
    hex.push(to_hex_char(color.b / 16));
    hex.push(to_hex_char(color.b % 16));
    assert(hex@ =~= color_to_hex_spec(color));
    hex
}

/// Theme/color configuration: each color as a hex string.
#[derive(Debug, Clone)]
pub struct ThemeConfig {
    /// Main background color (hex).
    pub background: String,
    /// Panel/surface color.
    pub surface: String,
    /// Lighter surface (hover).
    pub surface_light: String,
    /// Primary text color.
    pub text: String,
    /// Dimmed text color.
    pub text_dim: String,
    /// Primary accent color.
    pub primary: String,
    /// Secondary accent color.
    pub secondary: String,
    /// Border color.
    pub border: String,
    /// Selection color.
    pub selection: String,
    // Terminal ANSI colors
    pub black: String,
    pub red: String,
    pub green: String,
    pub yellow: String,
    pub blue: String,
    pub magenta: String,
    pub cyan: String,
    pub white: String,
    pub bright_black: String,
    pub bright_red: String,
    pub bright_green: String,
    pub bright_yellow: String,
    pub bright_blue: String,
    pub bright_magenta: String,
    pub bright_cyan: String,
    pub bright_white: String,
}

impl Default for ThemeConfig {
    /// The dark brown theme.
    fn default() -> (theme: Self)
        ensures
            theme.background@ == "#2E1A16"@,
            theme.surface@ == "#3A241E"@,
            theme.surface_light@ == "#462E26"@,
            theme.text@ == "#F4F1DE"@,
            theme.text_dim@ == "#A0968A"@,
            theme.primary@ == "#E07A5F"@,
            theme.secondary@ == "#81B29A"@,
            theme.border@ == "#4A2E28"@,
            theme.selection@ == "#462E26"@,
            theme.black@ == "#2E1A16"@,
            theme.red@ == "#E07A5F"@,
            theme.green@ == "#81B29A"@,
            theme.yellow@ == "#F2CC8F"@,
            theme.blue@ == "#3D405C"@,
            theme.magenta@ == "#B56576"@,
            theme.cyan@ == "#6EA4A4"@,
            theme.white@ == "#F4F1DE"@,
            theme.bright_black@ == "#4A2E28"@,
            theme.bright_red@ == "#E88C74"@,
            theme.bright_green@ == "#9AC4AD"@,
            theme.bright_yellow@ == "#F5D9A6"@,
            theme.bright_blue@ == "#5A5D7A"@,
            theme.bright_magenta@ == "#C87E8E"@,
            theme.bright_cyan@ == "#8ABABA"@,
            theme.bright_white@ == "#FFFFF0"@,
    {
        ThemeConfig {
            background: "#2E1A16".to_owned(),
            surface: "#3A241E".to_owned(),
            surface_light: "#462E26".to_owned(),
            text: "#F4F1DE".to_owned(),
            text_dim: "#A0968A".to_owned(),
            primary: "#E07A5F".to_owned(),
            secondary: "#81B29A".to_owned(),
            border: "#4A2E28".to_owned(),
            selection: "#462E26".to_owned(),
            black: "#2E1A16".to_owned(),
            red: "#E07A5F".to_owned(),
            green: "#81B29A".to_owned(),
            yellow: "#F2CC8F".to_owned(),
            blue: "#3D405C".to_owned(),
            magenta: "#B56576".to_owned(),
            cyan: "#6EA4A4".to_owned(),
            white: "#F4F1DE".to_owned(),
            bright_black: "#4A2E28".to_owned(),
            bright_red: "#E88C74".to_owned(),
            bright_green: "#9AC4AD".to_owned(),
            bright_yellow: "#F5D9A6".to_owned(),
            bright_blue: "#5A5D7A".to_owned(),
            bright_magenta: "#C87E8E".to_owned(),
            bright_cyan: "#8ABABA".to_owned(),
            bright_white: "#FFFFF0".to_owned(),
        }
    }
}

/// The color that a hex string spells.
pub open spec fn hex_color_of(text: Seq<char>) -> Rgb {
    parse_hex_color_spec(vstd::utf8::encode_utf8(text))
}

/// Runtime theme colors (parsed from config).
#[derive(Debug, Clone, Copy)]
pub struct RuntimeTheme {
    pub background: Rgb,
    pub surface: Rgb,
    pub surface_light: Rgb,
    pub text: Rgb,
    pub text_dim: Rgb,
    pub primary: Rgb,
    pub secondary: Rgb,
    pub border: Rgb,
    pub selection: Rgb,
    pub black: Rgb,
    pub red: Rgb,
    pub green: Rgb,
    pub yellow: Rgb,
    pub blue: Rgb,
    pub magenta: Rgb,
    pub cyan: Rgb,
    pub white: Rgb,
    pub bright_black: Rgb,
    pub bright_red: Rgb,
    pub bright_green: Rgb,
    pub bright_yellow: Rgb,
    pub bright_blue: Rgb,
    pub bright_magenta: Rgb,
    pub bright_cyan: Rgb,
    pub bright_white: Rgb,
}

impl RuntimeTheme {
    /// The colors that the hex strings of a configured theme spell.
    pub fn from_config(config: &ThemeConfig) -> (theme: Self)
        ensures
            theme.background == hex_color_of(config.background@),
            theme.surface == hex_color_of(config.surface@),
            theme.surface_light == hex_color_of(config.surface_light@),
            theme.text == hex_color_of(config.text@),
            theme.text_dim == hex_color_of(config.text_dim@),
            theme.primary == hex_color_of(config.primary@),
            theme.secondary == hex_color_of(config.secondary@),
            theme.border == hex_color_of(config.border@),
            theme.selection == hex_color_of(config.selection@),
            theme.black == hex_color_of(config.black@),
            theme.red == hex_color_of(config.red@),
            theme.green == hex_color_of(config.green@),
            theme.yellow == hex_color_of(config.yellow@),
            theme.blue == hex_color_of(config.blue@),
            theme.magenta == hex_color_of(config.magenta@),
            theme.cyan == hex_color_of(config.cyan@),
            theme.white == hex_color_of(config.white@),
            theme.bright_black == hex_color_of(config.bright_black@),
            theme.bright_red == hex_color_of(config.bright_red@),
            theme.bright_green == hex_color_of(config.bright_green@),
            theme.bright_yellow == hex_color_of(config.bright_yellow@),
            theme.bright_blue == hex_color_of(config.bright_blue@),
            theme.bright_magenta == hex_color_of(config.bright_magenta@),
            theme.bright_cyan == hex_color_of(config.bright_cyan@),
            theme.bright_white == hex_color_of(config.bright_white@),
    {
        RuntimeTheme {
            background: parse_hex_color(config.background.as_str()),
            surface: parse_hex_color(config.surface.as_str()),
            surface_light: parse_hex_color(config.surface_light.as_str()),
            text: parse_hex_color(config.text.as_str()),
            text_dim: parse_hex_color(config.text_dim.as_str()),
            primary: parse_hex_color(config.primary.as_str()),
            secondary: parse_hex_color(config.secondary.as_str()),
            border: parse_hex_color(config.border.as_str()),
            selection: parse_hex_color(config.selection.as_str()),
            black: parse_hex_color(config.black.as_str()),
            red: parse_hex_color(config.red.as_str()),
            green: parse_hex_color(config.green.as_str()),
            yellow: parse_hex_color(config.yellow.as_str()),
            blue: parse_hex_color(config.blue.as_str()),
            magenta: parse_hex_color(config.magenta.as_str()),
            cyan: parse_hex_color(config.cyan.as_str()),
            white: parse_hex_color(config.white.as_str()),
            bright_black: parse_hex_color(config.bright_black.as_str()),
            bright_red: parse_hex_color(config.bright_red.as_str()),
            bright_green: parse_hex_color(config.bright_green.as_str()),
            bright_yellow: parse_hex_color(config.bright_yellow.as_str()),
            bright_blue: parse_hex_color(config.bright_blue.as_str()),
            bright_magenta: parse_hex_color(config.bright_magenta.as_str()),
            bright_cyan: parse_hex_color(config.bright_cyan.as_str()),
            bright_white: parse_hex_color(config.bright_white.as_str()),
        }
    }
}

} // verus!
