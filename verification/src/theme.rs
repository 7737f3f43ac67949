//! Colours and fonts of the desktop application.

use vstd::prelude::*;

use crate::platform::Platform;
use crate::text::str_texts;

verus! {

#[derive(Debug, Clone, Copy, PartialEq, Eq, Structural)]
pub enum ThemeMode {
    Light,
    Dark,
}

impl ThemeMode {
    pub open spec fn opposite(self) -> ThemeMode {
        match self {
            ThemeMode::Light => ThemeMode::Dark,
            ThemeMode::Dark => ThemeMode::Light,
        }
    }

    /// The other mode.
    pub fn toggled(self) -> (mode: ThemeMode)
        ensures
            mode == self.opposite(),
    {
        match self {
            ThemeMode::Light => ThemeMode::Dark,
            ThemeMode::Dark => ThemeMode::Light,
        }
    }

    /// The sign on the switch: that of the other mode.
    pub fn switch_sign(self) -> (sign: &'static str)
        ensures
            sign@ == (match self {
                ThemeMode::Light => "🌙"@,
                ThemeMode::Dark => "☀"@,
            }),
    {
        match self {
            ThemeMode::Light => "🌙",
            ThemeMode::Dark => "☀",
        }
    }
}

/// A colour by its red, green and blue parts.
#[derive(Debug, Clone, Copy, PartialEq, Eq, Structural)]
pub struct Rgb {
    pub r: u8,
    pub g: u8,
    pub b: u8,
}

/// What a colour is used for.
#[derive(Debug, Clone, Copy, PartialEq, Eq, Structural)]
pub enum Role {
    Background,
    Surface,
    SurfaceAlt,
    Border,
    Text,
    TextMuted,
    Primary,
    PrimarySoft,
    Success,
    SuccessSoft,
    Warning,
    WarningSoft,
    Danger,
    LogBackground,
    LogText,
    White,
}

/// The colours of one mode.
#[derive(Debug, Clone, Copy, PartialEq, Eq, Structural)]
pub struct Theme {
    pub bg: Rgb,
    pub surface: Rgb,
    pub surface_alt: Rgb,
    pub border: Rgb,
    pub text: Rgb,
    pub text_muted: Rgb,
    pub primary: Rgb,
    pub primary_soft: Rgb,
    pub success: Rgb,
    pub success_soft: Rgb,
    pub warning: Rgb,
    pub warning_soft: Rgb,
    pub danger: Rgb,
    pub log_bg: Rgb,
    pub log_text: Rgb,
}

/// The colours of the light mode.
pub open spec fn light_theme() -> Theme {
    Theme {
        bg: Rgb { r: 244, g: 246, b: 251 },
        surface: Rgb { r: 255, g: 255, b: 255 },
        surface_alt: Rgb { r: 244, g: 247, b: 252 },
        border: Rgb { r: 225, g: 231, b: 240 },
        text: Rgb { r: 15, g: 23, b: 42 },
        text_muted: Rgb { r: 100, g: 116, b: 139 },
        primary: Rgb { r: 99, g: 102, b: 241 },
        primary_soft: Rgb { r: 238, g: 242, b: 255 },
        success: Rgb { r: 16, g: 185, b: 129 },
        success_soft: Rgb { r: 220, g: 252, b: 231 },
        warning: Rgb { r: 217, g: 119, b: 6 },
        warning_soft: Rgb { r: 254, g: 243, b: 199 },
        danger: Rgb { r: 220, g: 38, b: 38 },
        log_bg: Rgb { r: 248, g: 250, b: 252 },
        log_text: Rgb { r: 51, g: 65, b: 85 },
    }
}

/// The colours of the dark mode.
pub open spec fn dark_theme() -> Theme {
    Theme {
        bg: Rgb { r: 11, g: 15, b: 26 },
        surface: Rgb { r: 19, g: 24, b: 38 },
        surface_alt: Rgb { r: 27, g: 33, b: 51 },
        border: Rgb { r: 43, g: 53, b: 76 },
        text: Rgb { r: 232, g: 236, b: 245 },
        text_muted: Rgb { r: 143, g: 152, b: 173 },
        primary: Rgb { r: 129, g: 140, b: 248 },
        primary_soft: Rgb { r: 34, g: 41, b: 71 },
        success: Rgb { r: 52, g: 211, b: 153 },
        success_soft: Rgb { r: 13, g: 41, b: 36 },
        warning: Rgb { r: 251, g: 191, b: 36 },
        warning_soft: Rgb { r: 54, g: 36, b: 9 },
        danger: Rgb { r: 248, g: 113, b: 113 },
        log_bg: Rgb { r: 13, g: 18, b: 30 },
        log_text: Rgb { r: 190, g: 200, b: 220 },
    }
}

/// The colours of a mode.
pub open spec fn theme_of(mode: ThemeMode) -> Theme {
    match mode {
        ThemeMode::Light => light_theme(),
        ThemeMode::Dark => dark_theme(),
    }
}

fn rgb(r: u8, g: u8, b: u8) -> (colour: Rgb)
    ensures
        colour == (Rgb { r, g, b }),
{
    Rgb { r, g, b }
}

impl Theme {
    pub fn for_mode(mode: ThemeMode) -> (theme: Self)
        ensures
            theme == theme_of(mode),
    {
        match mode {
            ThemeMode::Light => Theme {
                bg: rgb(244, 246, 251),
                surface: rgb(255, 255, 255),
                surface_alt: rgb(244, 247, 252),
                border: rgb(225, 231, 240),
                text: rgb(15, 23, 42),
                text_muted: rgb(100, 116, 139),
                primary: rgb(99, 102, 241),
                primary_soft: rgb(238, 242, 255),
                success: rgb(16, 185, 129),
                success_soft: rgb(220, 252, 231),
                warning: rgb(217, 119, 6),
                warning_soft: rgb(254, 243, 199),
                danger: rgb(220, 38, 38),
                log_bg: rgb(248, 250, 252),
                log_text: rgb(51, 65, 85),
            },
            ThemeMode::Dark => Theme {
                bg: rgb(11, 15, 26),
                surface: rgb(19, 24, 38),
                surface_alt: rgb(27, 33, 51),
                border: rgb(43, 53, 76),
                text: rgb(232, 236, 245),
                text_muted: rgb(143, 152, 173),
                primary: rgb(129, 140, 248),
                primary_soft: rgb(34, 41, 71),
                success: rgb(52, 211, 153),
                success_soft: rgb(13, 41, 36),
                warning: rgb(251, 191, 36),
                warning_soft: rgb(54, 36, 9),
                danger: rgb(248, 113, 113),
                log_bg: rgb(13, 18, 30),
                log_text: rgb(190, 200, 220),
            },
        }
    }

    /// The colour for a use.
    pub open spec fn of(self, role: Role) -> Rgb {
        match role {
            Role::Background => self.bg,
            Role::Surface => self.surface,
            Role::SurfaceAlt => self.surface_alt,
            Role::Border => self.border,
            Role::Text => self.text,
            Role::TextMuted => self.text_muted,
            Role::Primary => self.primary,
            Role::PrimarySoft => self.primary_soft,
            Role::Success => self.success,
            Role::SuccessSoft => self.success_soft,
            Role::Warning => self.warning,
            Role::WarningSoft => self.warning_soft,
            Role::Danger => self.danger,
            Role::LogBackground => self.log_bg,
            Role::LogText => self.log_text,
            Role::White => (Rgb { r: 255, g: 255, b: 255 }),
        }
    }

    pub fn colour(&self, role: Role) -> (colour: Rgb)
        ensures
            colour == self.of(role),
    {
        match role {
            Role::Background => self.bg,
            Role::Surface => self.surface,
            Role::SurfaceAlt => self.surface_alt,
            Role::Border => self.border,
            Role::Text => self.text,
            Role::TextMuted => self.text_muted,
            Role::Primary => self.primary,
            Role::PrimarySoft => self.primary_soft,
            Role::Success => self.success,
            Role::SuccessSoft => self.success_soft,
            Role::Warning => self.warning,
            Role::WarningSoft => self.warning_soft,
            Role::Danger => self.danger,
            Role::LogBackground => self.log_bg,
            Role::LogText => self.log_text,
            Role::White => rgb(255, 255, 255),
        }
    }

    /// Whether the colours are those of a dark screen.
    pub fn is_dark(&self) -> (dark: bool)
        ensures
            dark == (self.bg.r < 80),
    {
        self.bg.r < 80
    }
}

/// The background tells the modes apart.
pub proof fn law_background_tells_the_mode(mode: ThemeMode)
    ensures
        theme_of(mode).bg.r < 80 <==> mode == ThemeMode::Dark,
{
}

// ---------------------------------------------------------------------
// Fonts
// ---------------------------------------------------------------------

/// The font files of the system for scripts that the built-in fonts lack.
pub open spec fn font_files(platform: Platform) -> Seq<Seq<char>> {
    match platform {
        Platform::Windows => seq![
            "C:\\Windows\\Fonts\\malgun.ttf"@,
            "C:\\Windows\\Fonts\\meiryo.ttc"@,
            "C:\\Windows\\Fonts\\msgothic.ttc"@,
            "C:\\Windows\\Fonts\\msyh.ttc"@,
            "C:\\Windows\\Fonts\\msjh.ttc"@,
            "C:\\Windows\\Fonts\\seguiemj.ttf"@,
        ],
        Platform::MacOs => seq![
            "/System/Library/Fonts/AppleSDGothicNeo.ttc"@,
            "/System/Library/Fonts/PingFang.ttc"@,
            "/System/Library/Fonts/Hiragino Sans GB.ttc"@,
            "/System/Library/Fonts/ヒラギノ角ゴシック W3.ttc"@,
            "/System/Library/Fonts/Apple Color Emoji.ttc"@,
        ],
        Platform::Linux => seq![
            "/usr/share/fonts/opentype/noto/NotoSansCJK-Regular.ttc"@,
            "/usr/share/fonts/opentype/noto/NotoSansCJKkr-Regular.otf"@,
            "/usr/share/fonts/opentype/noto/NotoSansCJKjp-Regular.otf"@,
            "/usr/share/fonts/opentype/noto/NotoSansCJKsc-Regular.otf"@,
            "/usr/share/fonts/truetype/noto/NotoSansCJK-Regular.ttc"@,
            "/usr/share/fonts/truetype/dejavu/DejaVuSans.ttf"@,
        ],
        Platform::Other => Seq::empty(),
    }
}

pub fn system_font_candidates(platform: Platform) -> (paths: Vec<&'static str>)
    ensures
        str_texts(paths@) == font_files(platform),
{
    let mut paths: Vec<&'static str> = Vec::new();
    match platform {
        Platform::Windows => {
            paths.push("C:\\Windows\\Fonts\\malgun.ttf");
            paths.push("C:\\Windows\\Fonts\\meiryo.ttc");
            paths.push("C:\\Windows\\Fonts\\msgothic.ttc");
            paths.push("C:\\Windows\\Fonts\\msyh.ttc");
            paths.push("C:\\Windows\\Fonts\\msjh.ttc");
            paths.push("C:\\Windows\\Fonts\\seguiemj.ttf");
        },
        Platform::MacOs => {
            paths.push("/System/Library/Fonts/AppleSDGothicNeo.ttc");
            paths.push("/System/Library/Fonts/PingFang.ttc");
            paths.push("/System/Library/Fonts/Hiragino Sans GB.ttc");
            paths.push("/System/Library/Fonts/ヒラギノ角ゴシック W3.ttc");
            paths.push("/System/Library/Fonts/Apple Color Emoji.ttc");
        },
        Platform::Linux => {
            paths.push("/usr/share/fonts/opentype/noto/NotoSansCJK-Regular.ttc");
            paths.push("/usr/share/fonts/opentype/noto/NotoSansCJKkr-Regular.otf");
            paths.push("/usr/share/fonts/opentype/noto/NotoSansCJKjp-Regular.otf");
            paths.push("/usr/share/fonts/opentype/noto/NotoSansCJKsc-Regular.otf");
            paths.push("/usr/share/fonts/truetype/noto/NotoSansCJK-Regular.ttc");
            paths.push("/usr/share/fonts/truetype/dejavu/DejaVuSans.ttf");
        },
        Platform::Other => {},
    }
    assert(str_texts(paths@) =~= font_files(platform));
    paths
}

/// The name under which a font of the system is known.
pub fn font_name(stem: &str) -> (name: String)
    ensures
        name@ == "system-"@ + stem@,
{
    let mut name: String = "system-".to_owned();
    name.append(stem);
    name
}

// ---------------------------------------------------------------------
// Laws
// ---------------------------------------------------------------------

/// There are two modes, and switching goes from one to the other and back.
pub proof fn law_modes_take_turns(mode: ThemeMode)
    ensures
        mode.opposite() != mode,
        mode.opposite().opposite() == mode,
{
}

/// Each use has the colour of its own, and white is white in every mode.
pub proof fn law_colours_of_the_uses(theme: Theme)
    ensures
        theme.of(Role::Background) == theme.bg,
        theme.of(Role::Surface) == theme.surface,
        theme.of(Role::SurfaceAlt) == theme.surface_alt,
        theme.of(Role::Border) == theme.border,
        theme.of(Role::Text) == theme.text,
        theme.of(Role::TextMuted) == theme.text_muted,
        theme.of(Role::Primary) == theme.primary,
        theme.of(Role::PrimarySoft) == theme.primary_soft,
        theme.of(Role::Success) == theme.success,
        theme.of(Role::SuccessSoft) == theme.success_soft,
        theme.of(Role::Warning) == theme.warning,
        theme.of(Role::WarningSoft) == theme.warning_soft,
        theme.of(Role::Danger) == theme.danger,
        theme.of(Role::LogBackground) == theme.log_bg,
        theme.of(Role::LogText) == theme.log_text,
        theme.of(Role::White).r == 255 && theme.of(Role::White).g == 255 && theme.of(Role::White).b
            == 255,
{
}

/// Letters stand out from their ground: in the light mode the ground is lighter than the text, in
/// the dark mode the text is lighter than the ground.
pub proof fn law_text_stands_out(mode: ThemeMode)
    ensures
        mode == ThemeMode::Light ==> theme_of(mode).text.r < theme_of(mode).bg.r
            && theme_of(mode).text.g < theme_of(mode).bg.g && theme_of(mode).text.b
            < theme_of(mode).bg.b && theme_of(mode).log_text.r < theme_of(mode).log_bg.r,
        mode == ThemeMode::Dark ==> theme_of(mode).text.r > theme_of(mode).bg.r
            && theme_of(mode).text.g > theme_of(mode).bg.g && theme_of(mode).text.b
            > theme_of(mode).bg.b && theme_of(mode).log_text.r > theme_of(mode).log_bg.r,
{
}

} // verus!
