//! The configuration: refresh rates, default modules, output defaults and
//! the theme of the dashboard, with the built-in values of each.

use vstd::prelude::*;
use crate::engine::texts_of;
use crate::error::GimError;
use crate::text::{lower, same_chars, to_chars, to_lower};

verus! {

/// The whole configuration.
#[derive(Debug)]
pub struct Config {
    pub general: GeneralConfig,
    pub print: PrintConfig,
    pub tui: TuiConfig,
    pub theme: ThemeConfig,
}

/// What holds for every mode.
#[derive(Debug)]
pub struct GeneralConfig {
    /// Milliseconds between two rounds of collection.
    pub refresh_ms: u64,
    /// The modules that are shown where none are asked for.
    pub default_modules: Vec<String>,
}

/// The defaults of the print mode.
#[derive(Debug)]
pub struct PrintConfig {
    pub output: String,
    pub show_units: bool,
    pub watch: bool,
}

/// The settings of the dashboard.
#[derive(Debug)]
pub struct TuiConfig {
    /// Milliseconds between two rounds in the dashboard, where they differ
    /// from the general rate.
    pub refresh_ms: Option<u64>,
    pub borders: BorderStyle,
    pub show_help: bool,
}

/// How the frames of the dashboard are drawn.
#[derive(Clone, Copy, PartialEq, Eq, Structural, Debug)]
pub enum BorderStyle {
    /// No frames.
    Off,
    Plain,
    Rounded,
}

/// The colors and labels of the dashboard.
#[derive(Debug)]
pub struct ThemeConfig {
    pub cpu: ModuleTheme,
    pub memory: ModuleTheme,
    pub disk: ModuleTheme,
    pub network: ModuleTheme,
    pub process: ModuleTheme,
    pub system: ModuleTheme,
    pub chrome: ChromeTheme,
}

/// The label and colors of one module.
#[derive(Debug)]
pub struct ModuleTheme {
    pub label: String,
    pub fg: String,
    pub accent: String,
}

/// The colors of what surrounds the modules.
#[derive(Debug)]
pub struct ChromeTheme {
    pub border: String,
    pub title: String,
    pub header: String,
    pub error: String,
}

/// A color of the terminal.
#[derive(Clone, Copy, PartialEq, Eq, Structural, Debug)]
pub enum Color {
    Black,
    Red,
    Green,
    Yellow,
    Blue,
    Magenta,
    Cyan,
    Gray,
    DarkGray,
    LightRed,
    LightGreen,
    LightYellow,
    LightBlue,
    LightMagenta,
    LightCyan,
    White,
    Rgb(u8, u8, u8),
}

impl ModuleTheme {
    /// Whether the theme holds these three texts.
    pub open spec fn holds(&self, label: Seq<char>, fg: Seq<char>, accent: Seq<char>) -> bool {
        self.label@ == label && self.fg@ == fg && self.accent@ == accent
    }

    /// The theme with these three texts.
    pub fn of(label: &str, fg: &str, accent: &str) -> (r: ModuleTheme)
        ensures
            r.holds(label@, fg@, accent@),
    {
        ModuleTheme { label: label.to_owned(), fg: fg.to_owned(), accent: accent.to_owned() }
    }
}

impl Default for ModuleTheme {
    fn default() -> (r: ModuleTheme)
        ensures
            r.holds(Seq::empty(), "white"@, "gray"@),
    {
        ModuleTheme { label: String::new(), fg: "white".to_owned(), accent: "gray".to_owned() }
    }
}

impl ChromeTheme {
    /// Whether the theme holds these four colors.
    pub open spec fn holds(
        &self,
        border: Seq<char>,
        title: Seq<char>,
        header: Seq<char>,
        error: Seq<char>,
    ) -> bool {
        self.border@ == border && self.title@ == title && self.header@ == header && self.error@
            == error
    }
}

impl Default for ChromeTheme {
    fn default() -> (r: ChromeTheme)
        ensures
            r.holds("gray"@, "white"@, "white"@, "red"@),
    {
        ChromeTheme {
            border: "gray".to_owned(),
            title: "white".to_owned(),
            header: "white".to_owned(),
            error: "red".to_owned(),
        }
    }
}

impl ThemeConfig {
    /// Whether this is the built-in theme.
    pub open spec fn is_builtin(&self) -> bool {
        &&& self.cpu.holds("CPU"@, "cyan"@, "light_cyan"@)
        &&& self.memory.holds("Memory"@, "green"@, "light_green"@)
        &&& self.disk.holds("Disk"@, "yellow"@, "light_yellow"@)
        &&& self.network.holds("Network"@, "magenta"@, "light_magenta"@)
        &&& self.process.holds("Processes"@, "red"@, "light_red"@)
        &&& self.system.holds("System"@, "blue"@, "light_blue"@)
        &&& self.chrome.holds("gray"@, "white"@, "white"@, "red"@)
    }
}

impl Default for ThemeConfig {
    fn default() -> (r: ThemeConfig)
        ensures
            r.is_builtin(),
    {
        ThemeConfig {
            cpu: ModuleTheme::of("CPU", "cyan", "light_cyan"),
            memory: ModuleTheme::of("Memory", "green", "light_green"),
            disk: ModuleTheme::of("Disk", "yellow", "light_yellow"),
            network: ModuleTheme::of("Network", "magenta", "light_magenta"),
            process: ModuleTheme::of("Processes", "red", "light_red"),
            system: ModuleTheme::of("System", "blue", "light_blue"),
            chrome: ChromeTheme::default(),
        }
    }
}

impl Default for BorderStyle {
    fn default() -> (r: BorderStyle)
        ensures
            r == BorderStyle::Rounded,
    {
        BorderStyle::Rounded
    }
}

impl TuiConfig {
    /// Whether these are the built-in settings.
    pub open spec fn is_builtin(&self) -> bool {
        self.refresh_ms is None && self.borders == BorderStyle::Rounded && self.show_help
    }
}

impl Default for TuiConfig {
    fn default() -> (r: TuiConfig)
        ensures
            r.is_builtin(),
    {
        TuiConfig { refresh_ms: None, borders: BorderStyle::Rounded, show_help: true }
    }
}

impl PrintConfig {
    /// Whether these are the built-in defaults.
    pub open spec fn is_builtin(&self) -> bool {
        self.output@ == "table"@ && self.show_units && !self.watch
    }
}

impl Default for PrintConfig {
    fn default() -> (r: PrintConfig)
        ensures
            r.is_builtin(),
    {
        PrintConfig { output: "table".to_owned(), show_units: true, watch: false }
    }
}

impl GeneralConfig {
    /// Whether these are the built-in settings: a round each second, and all
    /// six modules with the system first.
    pub open spec fn is_builtin(&self) -> bool {
        self.refresh_ms == 1000 && texts_of(self.default_modules@) == seq![
            "system"@,
            "cpu"@,
            "memory"@,
            "disk"@,
            "network"@,
            "process"@,
        ]
    }
}

impl Default for GeneralConfig {
    fn default() -> (r: GeneralConfig)
        ensures
            r.is_builtin(),
    {
        let mut default_modules: Vec<String> = Vec::new();
        default_modules.push("system".to_owned());
        default_modules.push("cpu".to_owned());
        default_modules.push("memory".to_owned());
        default_modules.push("disk".to_owned());
        default_modules.push("network".to_owned());
        default_modules.push("process".to_owned());
        proof {
            assert(texts_of(default_modules@) =~= seq![
                "system"@,
                "cpu"@,
                "memory"@,
                "disk"@,
                "network"@,
                "process"@,
            ]);
        }
        GeneralConfig { refresh_ms: 1000, default_modules }
    }
}

impl Config {
    /// Whether this is the built-in configuration.
    pub open spec fn is_builtin(&self) -> bool {
        self.general.is_builtin() && self.print.is_builtin() && self.tui.is_builtin()
            && self.theme.is_builtin()
    }

    /// The milliseconds between two rounds in the dashboard.
    pub open spec fn refresh_interval(&self) -> u64 {
        match self.tui.refresh_ms {
            Some(ms) => ms,
            None => self.general.refresh_ms,
        }
    }

    /// The milliseconds between two rounds in the dashboard: its own rate
    /// where one is set, else the general one.
    pub fn tui_refresh_ms(&self) -> (ms: u64)
        ensures
            ms == self.refresh_interval(),
    {
        match self.tui.refresh_ms {
            Some(ms) => ms,
            None => self.general.refresh_ms,
        }
    }
}

impl Default for Config {
    fn default() -> (r: Config)
        ensures
            r.is_builtin(),
    {
        Config {
            general: GeneralConfig::default(),
            print: PrintConfig::default(),
            tui: TuiConfig::default(),
            theme: ThemeConfig::default(),
        }
    }
}

/// The value of a hexadecimal digit in either case, if it is one.
pub open spec fn hex_value(c: char) -> Option<int> {
    if '0' <= c && c <= '9' {
        Some((c as u8) - 48)
    } else if 'a' <= c && c <= 'f' {
        Some((c as u8) - 87)
    } else if 'A' <= c && c <= 'F' {
        Some((c as u8) - 55)
    } else {
        None::<int>
    }
}

/// One component of a color: the number that two hexadecimal digits write;
/// none where a character is no such digit.
pub open spec fn component(high: char, low: char) -> Option<int> {
    match (hex_value(high), hex_value(low)) {
        (Some(h), Some(l)) => Some(16 * h + l),
        _ => None,
    }
}

/// The color that `#` and exactly six hexadecimal digits write, two digits
/// each for red, green and blue; none for any other text.
pub open spec fn hex_color(name: Seq<char>) -> Option<Color> {
    if name.len() == 7 && name[0] == '#' {
        match (
            component(name[1], name[2]),
            component(name[3], name[4]),
            component(name[5], name[6]),
        ) {
            (Some(r), Some(g), Some(b)) => Some(Color::Rgb(r as u8, g as u8, b as u8)),
            _ => None,
        }
    } else {
        None
    }
}

/// Whether a text in lower case is a name of the palette.
pub open spec fn palette_name(name: Seq<char>) -> bool {
    ||| name == "black"@
    ||| name == "red"@
    ||| name == "green"@
    ||| name == "yellow"@
    ||| name == "blue"@
    ||| name == "magenta"@
    ||| name == "cyan"@
    ||| name == "gray"@
    ||| name == "grey"@
    ||| name == "dark_gray"@
    ||| name == "dark_grey"@
    ||| name == "light_red"@
    ||| name == "light_green"@
    ||| name == "light_yellow"@
    ||| name == "light_blue"@
    ||| name == "light_magenta"@
    ||| name == "light_cyan"@
    ||| name == "white"@
}

/// The color of a name in lower case: one of the sixteen of the palette, or
/// `#` and exactly six hexadecimal digits; white for anything else.
pub open spec fn color_named(name: Seq<char>) -> Color {
    if name == "black"@ {
        Color::Black
    } else if name == "red"@ {
        Color::Red
    } else if name == "green"@ {
        Color::Green
    } else if name == "yellow"@ {
        Color::Yellow
    } else if name == "blue"@ {
        Color::Blue
    } else if name == "magenta"@ {
        Color::Magenta
    } else if name == "cyan"@ {
        Color::Cyan
    } else if name == "gray"@ || name == "grey"@ {
        Color::Gray
    } else if name == "dark_gray"@ || name == "dark_grey"@ {
        Color::DarkGray
    } else if name == "light_red"@ {
        Color::LightRed
    } else if name == "light_green"@ {
        Color::LightGreen
    } else if name == "light_yellow"@ {
        Color::LightYellow
    } else if name == "light_blue"@ {
        Color::LightBlue
    } else if name == "light_magenta"@ {
        Color::LightMagenta
    } else if name == "light_cyan"@ {
        Color::LightCyan
    } else if name == "white"@ {
        Color::White
    } else {
        match hex_color(name) {
            Some(color) => color,
            None => Color::White,
        }
    }
}

/// The color that a text names, whatever the case of its ASCII letters.
pub open spec fn color_of(text: Seq<char>) -> Color {
    color_named(lower(text))
}

/// A text is a color by its components exactly where, in lower case, it is
/// `#` and six hexadecimal digits; and a text that is neither that nor a
/// name of the palette is white.
pub proof fn unrecognized_is_white(text: Seq<char>)
    ensures
        hex_color(lower(text)) matches Some(color) ==> color_of(text) == color,
        color_of(text) is Rgb <==> hex_color(lower(text)) is Some,
        !palette_name(lower(text)) && hex_color(lower(text)) is None ==> color_of(text)
            == Color::White,
{
    reveal_strlit("black");
    reveal_strlit("red");
    reveal_strlit("green");
    reveal_strlit("yellow");
    reveal_strlit("blue");
    reveal_strlit("magenta");
    reveal_strlit("cyan");
    reveal_strlit("gray");
    reveal_strlit("grey");
    reveal_strlit("dark_gray");
    reveal_strlit("dark_grey");
    reveal_strlit("light_red");
    reveal_strlit("light_green");
    reveal_strlit("light_yellow");
    reveal_strlit("light_blue");
    reveal_strlit("light_magenta");
    reveal_strlit("light_cyan");
    reveal_strlit("white");
    let name = lower(text);
    if hex_color(name) is Some {
        assert(name[0] == '#');
        assert(!palette_name(name));
    }
}

/// The value of a hexadecimal digit, if the character is one.
pub fn hex_digit(c: char) -> (r: Option<u8>)
    ensures
        match r {
            Some(v) => hex_value(c) == Some(v as int) && v < 16,
            None => hex_value(c) is None,
        },
{
    if '0' <= c && c <= '9' {
        Some((c as u8) - 48)
    } else if 'a' <= c && c <= 'f' {
        Some((c as u8) - 87)
    } else if 'A' <= c && c <= 'F' {
        Some((c as u8) - 55)
    } else {
        None
    }
}

/// One component of a color: the number that two hexadecimal digits write.
pub fn parse_component(high: char, low: char) -> (r: Option<u8>)
    ensures
        match r {
            Some(v) => component(high, low) == Some(v as int),
            None => component(high, low) is None,
        },
{
    match (hex_digit(high), hex_digit(low)) {
        (Some(h), Some(l)) => Some(16 * h + l),
        _ => None,
    }
}

/// The color that `#` and exactly six hexadecimal digits write.
pub fn parse_hex_color(name: &Vec<char>) -> (r: Option<Color>)
    ensures
        r == hex_color(name@),
{
    if name.len() == 7 && name[0] == '#' {
        match (
            parse_component(name[1], name[2]),
            parse_component(name[3], name[4]),
            parse_component(name[5], name[6]),
        ) {
            (Some(r), Some(g), Some(b)) => Some(Color::Rgb(r, g, b)),
            _ => None,
        }
    } else {
        None
    }
}

/// Whether the characters are those of the string.
fn is(chars: &Vec<char>, word: &str) -> (r: bool)
    ensures
        r == (chars@ == word@),
{
    same_chars(chars, &to_chars(word))
}

/// The color that a text names: one of the sixteen of the palette in any
/// case, or `#` and exactly six hexadecimal digits; white for anything else.
pub fn parse_color(color_str: &str) -> (color: Color)
    ensures
        color == color_of(color_str@),
{
    let name = to_lower(&to_chars(color_str));
    if is(&name, "black") {
        Color::Black
    } else if is(&name, "red") {
        Color::Red
    } else if is(&name, "green") {
        Color::Green
    } else if is(&name, "yellow") {
        Color::Yellow
    } else if is(&name, "blue") {
        Color::Blue
    } else if is(&name, "magenta") {
        Color::Magenta
    } else if is(&name, "cyan") {
        Color::Cyan
    } else if is(&name, "gray") || is(&name, "grey") {
        Color::Gray
    } else if is(&name, "dark_gray") || is(&name, "dark_grey") {
        Color::DarkGray
    } else if is(&name, "light_red") {
        Color::LightRed
    } else if is(&name, "light_green") {
        Color::LightGreen
    } else if is(&name, "light_yellow") {
        Color::LightYellow
    } else if is(&name, "light_blue") {
        Color::LightBlue
    } else if is(&name, "light_magenta") {
        Color::LightMagenta
    } else if is(&name, "light_cyan") {
        Color::LightCyan
    } else if is(&name, "white") {
        Color::White
    } else {
        match parse_hex_color(&name) {
            Some(color) => color,
            None => Color::White,
        }
    }
}

/// Which configuration file is read: the one that was asked for, which must
/// exist; else the one at the default place, if there is one; else none, and
/// the built-in configuration holds.
pub open spec fn config_choice(
    asked: Option<Seq<char>>,
    asked_exists: bool,
    usual: Option<Seq<char>>,
    usual_exists: bool,
) -> Option<Seq<char>> {
    match asked {
        Some(path) => Some(path),
        None => if usual is Some && usual_exists {
            usual
        } else {
            None
        },
    }
}

/// Chooses the configuration file to read. `asked` is the path that the user
/// gave, `usual` the default place; the flags say whether a file is there.
/// It fails where the user's file is missing.
pub fn choose_config_path(
    asked: Option<&str>,
    asked_exists: bool,
    usual: Option<&str>,
    usual_exists: bool,
) -> (r: Result<Option<String>, GimError>)
    ensures
        r is Err <==> asked is Some && !asked_exists,
        r matches Err(e) ==> (e matches GimError::ConfigLoad { path, source } && path@
            == asked->0@ && source@ == "config file not found"@),
        r matches Ok(chosen) ==> (match chosen {
            Some(path) => Some(path@),
            None => None,
        }) == config_choice(
            match asked {
                Some(p) => Some(p@),
                None => None,
            },
            asked_exists,
            match usual {
                Some(p) => Some(p@),
                None => None,
            },
            usual_exists,
        ),
{
    match asked {
        Some(path) => {
            if asked_exists {
                Ok(Some(path.to_owned()))
            } else {
                Err(
                    GimError::ConfigLoad {
                        path: path.to_owned(),
                        source: "config file not found".to_owned(),
                    },
                )
            }
        },
        None => match usual {
            Some(path) => if usual_exists {
                Ok(Some(path.to_owned()))
            } else {
                Ok(None)
            },
            None => Ok(None),
        },
    }
}

} // verus!
