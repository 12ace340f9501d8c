//! The interface's colour themes: GitHub Dark (the default), GitHub Light and
//! a high-contrast Vaporwave theme.
use vstd::prelude::*;

verus! {

/// An 8-bit-per-channel colour with alpha.
#[derive(Clone, Copy, Debug, PartialEq, Eq, Structural)]
pub struct Rgba {
    pub r: u8,
    pub g: u8,
    pub b: u8,
    pub a: u8,
}

/// An opaque colour.
pub open spec fn rgb(r: u8, g: u8, b: u8) -> Rgba {
    Rgba { r, g, b, a: 255 }
}

impl Rgba {
    /// The opaque colour with the given channels.
    pub fn from_rgb(r: u8, g: u8, b: u8) -> (c: Rgba)
        ensures
            c == rgb(r, g, b),
    {
        Rgba { r, g, b, a: 255 }
    }

    /// Opaque white.
    pub fn white() -> (c: Rgba)
        ensures
            c == rgb(255, 255, 255),
    {
        Rgba::from_rgb(255, 255, 255)
    }

    /// Fully transparent black.
    pub fn transparent() -> (c: Rgba)
        ensures
            c == (Rgba { r: 0, g: 0, b: 0, a: 0 }),
    {
        Rgba { r: 0, g: 0, b: 0, a: 0 }
    }
}

/// The theme choices of the interface.
#[derive(Clone, Copy, Debug, PartialEq, Eq, Structural)]
pub enum ThemeMode {
    GitHubDark,
    GitHubLight,
    Vaporwave,
}

impl Default for ThemeMode {
    /// GitHub Dark is the default theme.
    fn default() -> (m: ThemeMode)
        ensures
            m == ThemeMode::GitHubDark,
    {
        ThemeMode::GitHubDark
    }
}

/// The colours of one theme.
#[derive(Clone, Copy, Debug, PartialEq, Eq, Structural)]
pub struct AppTheme {
    pub is_dark: bool,
    // Backgrounds
    pub bg_base: Rgba,
    pub bg_surface: Rgba,
    pub bg_panel: Rgba,
    pub bg_card: Rgba,
    pub bg_card_alt: Rgba,
    pub bg_input: Rgba,
    pub bg_code: Rgba,
    // Borders
    pub border: Rgba,
    pub border_subtle: Rgba,
    pub border_focus: Rgba,
    // Text hierarchy
    pub text_primary: Rgba,
    pub text_secondary: Rgba,
    pub text_muted: Rgba,
    pub text_on_accent: Rgba,
    // Accents and actions
    pub accent: Rgba,
    pub accent_hover: Rgba,
    pub success: Rgba,
    pub success_hover: Rgba,
    pub warning: Rgba,
    pub error: Rgba,
    pub folder: Rgba,
    pub row_selected: Rgba,
    pub row_hover: Rgba,
}

/// The palette of each theme. In the two GitHub themes every text colour
/// (primary, secondary, muted) reaches the WCAG AAA contrast ratio of 7:1
/// against each surface that text is set on (base, surface, panel, card,
/// input and code backgrounds): see `lemma_github_text_contrast`.
pub open spec fn theme_palette(mode: ThemeMode) -> AppTheme {
    match mode {
        ThemeMode::GitHubDark => AppTheme {
            is_dark: true,
            bg_base: rgb(13, 17, 23),
            bg_surface: rgb(22, 27, 34),
            bg_panel: rgb(22, 27, 34),
            bg_card: rgb(33, 38, 45),
            bg_card_alt: rgb(48, 54, 61),
            bg_input: rgb(13, 17, 23),
            bg_code: rgb(10, 12, 16),
            border: rgb(48, 54, 61),
            border_subtle: rgb(33, 38, 45),
            border_focus: rgb(88, 166, 255),
            text_primary: rgb(240, 246, 252),
            text_secondary: rgb(201, 209, 217),
            text_muted: rgb(170, 177, 184),
            text_on_accent: rgb(255, 255, 255),
            accent: rgb(88, 166, 255),
            accent_hover: rgb(121, 192, 255),
            success: rgb(35, 134, 54),
            success_hover: rgb(46, 160, 67),
            warning: rgb(210, 153, 34),
            error: rgb(248, 81, 73),
            folder: rgb(121, 192, 255),
            row_selected: rgb(30, 48, 75),
            row_hover: rgb(28, 33, 40),
        },
        ThemeMode::GitHubLight => AppTheme {
            is_dark: false,
            bg_base: rgb(255, 255, 255),
            bg_surface: rgb(246, 248, 250),
            bg_panel: rgb(246, 248, 250),
            bg_card: rgb(255, 255, 255),
            bg_card_alt: rgb(234, 238, 242),
            bg_input: rgb(255, 255, 255),
            bg_code: rgb(246, 248, 250),
            border: rgb(208, 215, 222),
            border_subtle: rgb(234, 238, 242),
            border_focus: rgb(9, 105, 218),
            text_primary: rgb(31, 35, 40),
            text_secondary: rgb(72, 78, 86),
            text_muted: rgb(80, 85, 92),
            text_on_accent: rgb(255, 255, 255),
            accent: rgb(9, 105, 218),
            accent_hover: rgb(4, 82, 178),
            success: rgb(31, 136, 61),
            success_hover: rgb(26, 127, 55),
            warning: rgb(154, 103, 0),
            error: rgb(207, 34, 46),
            folder: rgb(9, 105, 218),
            row_selected: rgb(221, 234, 254),
            row_hover: rgb(240, 243, 246),
        },
        ThemeMode::Vaporwave => AppTheme {
            is_dark: true,
            bg_base: rgb(18, 12, 34),
            bg_surface: rgb(28, 18, 52),
            bg_panel: rgb(28, 18, 52),
            bg_card: rgb(44, 26, 80),
            bg_card_alt: rgb(60, 36, 108),
            bg_input: rgb(24, 14, 44),
            bg_code: rgb(12, 8, 24),
            border: rgb(90, 50, 150),
            border_subtle: rgb(66, 34, 118),
            border_focus: rgb(1, 205, 254),
            text_primary: rgb(255, 255, 255),
            text_secondary: rgb(230, 220, 250),
            text_muted: rgb(180, 160, 215),
            text_on_accent: rgb(18, 12, 34),
            accent: rgb(1, 205, 254),
            accent_hover: rgb(90, 225, 255),
            success: rgb(5, 255, 161),
            success_hover: rgb(50, 255, 180),
            warning: rgb(255, 251, 150),
            error: rgb(255, 113, 206),
            folder: rgb(1, 205, 254),
            row_selected: rgb(55, 32, 100),
            row_hover: rgb(38, 22, 70),
        },
    }
}

/// The short name under which the theme picker shows a theme.
pub open spec fn theme_label(mode: ThemeMode) -> Seq<char> {
    match mode {
        ThemeMode::GitHubDark => "🌙 Dark"@,
        ThemeMode::GitHubLight => "☀️ Light"@,
        ThemeMode::Vaporwave => "🌴 Vaporwave"@,
    }
}

impl ThemeMode {
    /// The colours of this theme.
    pub fn get_theme(self) -> (theme: AppTheme)
        ensures
            theme == theme_palette(self),
    {
        match self {
            ThemeMode::GitHubDark => AppTheme {
                is_dark: true,
                bg_base: Rgba::from_rgb(13, 17, 23),
                bg_surface: Rgba::from_rgb(22, 27, 34),
                bg_panel: Rgba::from_rgb(22, 27, 34),
                bg_card: Rgba::from_rgb(33, 38, 45),
                bg_card_alt: Rgba::from_rgb(48, 54, 61),
                bg_input: Rgba::from_rgb(13, 17, 23),
                bg_code: Rgba::from_rgb(10, 12, 16),
                border: Rgba::from_rgb(48, 54, 61),
                border_subtle: Rgba::from_rgb(33, 38, 45),
                border_focus: Rgba::from_rgb(88, 166, 255),
                text_primary: Rgba::from_rgb(240, 246, 252),
                text_secondary: Rgba::from_rgb(201, 209, 217),
                text_muted: Rgba::from_rgb(170, 177, 184),
                text_on_accent: Rgba::white(),
                accent: Rgba::from_rgb(88, 166, 255),
                accent_hover: Rgba::from_rgb(121, 192, 255),
                success: Rgba::from_rgb(35, 134, 54),
                success_hover: Rgba::from_rgb(46, 160, 67),
                warning: Rgba::from_rgb(210, 153, 34),
                error: Rgba::from_rgb(248, 81, 73),
                folder: Rgba::from_rgb(121, 192, 255),
                row_selected: Rgba::from_rgb(30, 48, 75),
                row_hover: Rgba::from_rgb(28, 33, 40),
            },
            ThemeMode::GitHubLight => AppTheme {
                is_dark: false,
                bg_base: Rgba::from_rgb(255, 255, 255),
                bg_surface: Rgba::from_rgb(246, 248, 250),
                bg_panel: Rgba::from_rgb(246, 248, 250),
                bg_card: Rgba::from_rgb(255, 255, 255),
                bg_card_alt: Rgba::from_rgb(234, 238, 242),
                bg_input: Rgba::from_rgb(255, 255, 255),
                bg_code: Rgba::from_rgb(246, 248, 250),
                border: Rgba::from_rgb(208, 215, 222),
                border_subtle: Rgba::from_rgb(234, 238, 242),
                border_focus: Rgba::from_rgb(9, 105, 218),
                text_primary: Rgba::from_rgb(31, 35, 40),
                text_secondary: Rgba::from_rgb(72, 78, 86),
                text_muted: Rgba::from_rgb(80, 85, 92),
                text_on_accent: Rgba::white(),
                accent: Rgba::from_rgb(9, 105, 218),
                accent_hover: Rgba::from_rgb(4, 82, 178),
                success: Rgba::from_rgb(31, 136, 61),
                success_hover: Rgba::from_rgb(26, 127, 55),
                warning: Rgba::from_rgb(154, 103, 0),
                error: Rgba::from_rgb(207, 34, 46),
                folder: Rgba::from_rgb(9, 105, 218),
                row_selected: Rgba::from_rgb(221, 234, 254),
                row_hover: Rgba::from_rgb(240, 243, 246),
            },
            ThemeMode::Vaporwave => AppTheme {
                is_dark: true,
                bg_base: Rgba::from_rgb(18, 12, 34),
                bg_surface: Rgba::from_rgb(28, 18, 52),
                bg_panel: Rgba::from_rgb(28, 18, 52),
                bg_card: Rgba::from_rgb(44, 26, 80),
                bg_card_alt: Rgba::from_rgb(60, 36, 108),
                bg_input: Rgba::from_rgb(24, 14, 44),
                bg_code: Rgba::from_rgb(12, 8, 24),
                border: Rgba::from_rgb(90, 50, 150),
                border_subtle: Rgba::from_rgb(66, 34, 118),
                border_focus: Rgba::from_rgb(1, 205, 254),
                text_primary: Rgba::from_rgb(255, 255, 255),
                text_secondary: Rgba::from_rgb(230, 220, 250),
                text_muted: Rgba::from_rgb(180, 160, 215),
                text_on_accent: Rgba::from_rgb(18, 12, 34),
                accent: Rgba::from_rgb(1, 205, 254),
                accent_hover: Rgba::from_rgb(90, 225, 255),
                success: Rgba::from_rgb(5, 255, 161),
                success_hover: Rgba::from_rgb(50, 255, 180),
                warning: Rgba::from_rgb(255, 251, 150),
                error: Rgba::from_rgb(255, 113, 206),
                folder: Rgba::from_rgb(1, 205, 254),
                row_selected: Rgba::from_rgb(55, 32, 100),
                row_hover: Rgba::from_rgb(38, 22, 70),
            },
        }
    }

    /// The short name shown for this theme in the theme picker.
    pub fn label(self) -> (s: &'static str)
        ensures
            s@ == theme_label(self),
    {
        match self {
            ThemeMode::GitHubDark => "🌙 Dark",
            ThemeMode::GitHubLight => "☀️ Light",
            ThemeMode::Vaporwave => "🌴 Vaporwave",
        }
    }
}

impl AppTheme {
    /// The fill of selected text: a deep blue on dark themes, a pale blue on
    /// the light one.
    pub fn selection_fill(&self) -> (c: Rgba)
        ensures
            c == (if self.is_dark {
                rgb(40, 75, 120)
            } else {
                rgb(180, 215, 255)
            }),
    {
        if self.is_dark {
            Rgba::from_rgb(40, 75, 120)
        } else {
            Rgba::from_rgb(180, 215, 255)
        }
    }
}

/// Every theme but GitHub Light is dark.
pub proof fn lemma_dark_themes(mode: ThemeMode)
    ensures
        theme_palette(mode).is_dark <==> mode != ThemeMode::GitHubLight,
{
}

/// Every colour of every palette is opaque.
pub proof fn lemma_palettes_opaque(mode: ThemeMode)
    ensures
        ({
            let t = theme_palette(mode);
            &&& t.bg_base.a == 255 && t.bg_surface.a == 255 && t.bg_panel.a == 255
            &&& t.bg_card.a == 255 && t.bg_card_alt.a == 255 && t.bg_input.a == 255
            &&& t.bg_code.a == 255 && t.border.a == 255 && t.border_subtle.a == 255
            &&& t.border_focus.a == 255 && t.text_primary.a == 255 && t.text_secondary.a == 255
            &&& t.text_muted.a == 255 && t.text_on_accent.a == 255 && t.accent.a == 255
            &&& t.accent_hover.a == 255 && t.success.a == 255 && t.success_hover.a == 255
            &&& t.warning.a == 255 && t.error.a == 255 && t.folder.a == 255
            &&& t.row_selected.a == 255 && t.row_hover.a == 255
        }),
{
}


// ---------------------------------------------------------------------------
// Contrast (WCAG 2)
// ---------------------------------------------------------------------------

/// One million: the bounds below are in parts per million.
pub open spec fn ppm() -> int {
    1000000
}

pub open spec fn pow5(x: int) -> int {
    x * x * x * x * x
}

pub open spec fn pow12(x: int) -> int {
    let y = x * x * x;
    y * y * y * y
}

/// The linear value of sRGB channel value `c` is at least `n` parts per
/// million. WCAG 2 takes `c / 255 / 12.92` (that is `10c / 32946`) for
/// `c / 255 <= 0.04045`, that is `c <= 10`, and else
/// `((c / 255 + 0.055) / 1.055) ^ 2.4`, that is
/// `((1000c + 14025) / 269025) ^ (12/5)`, compared here by fifth powers.
pub open spec fn linear_at_least(c: u8, n: int) -> bool {
    &&& 0 <= n
    &&& if c <= 10 {
        n * 32946 <= 10 * c * ppm()
    } else {
        pow5(n) * pow12(269025) <= pow12(1000 * c + 14025) * pow5(ppm())
    }
}

/// The linear value of sRGB channel value `c` is at most `n` parts per
/// million (see `linear_at_least`).
pub open spec fn linear_at_most(c: u8, n: int) -> bool {
    &&& 0 <= n
    &&& if c <= 10 {
        n * 32946 >= 10 * c * ppm()
    } else {
        pow5(n) * pow12(269025) >= pow12(1000 * c + 14025) * pow5(ppm())
    }
}

/// `light` reaches the WCAG AAA contrast ratio of 7:1 over `dark`: with the
/// relative luminance `L = 0.2126 R + 0.7152 G + 0.0722 B` of the linear
/// channels, `L(light) + 0.05 >= 7 (L(dark) + 0.05)`. It is shown by a lower
/// bound on each linear channel of `light` and an upper bound on each of
/// `dark`, in parts per million (luminances below are scaled by 10^10).
pub open spec fn reaches_aaa(light: Rgba, dark: Rgba) -> bool {
    exists|lr: int, lg: int, lb: int, dr: int, dg: int, db: int|
        #![trigger linear_at_least(light.r, lr), linear_at_least(light.g, lg), linear_at_least(light.b, lb), linear_at_most(dark.r, dr), linear_at_most(dark.g, dg), linear_at_most(dark.b, db)]
        {
            &&& linear_at_least(light.r, lr)
            &&& linear_at_least(light.g, lg)
            &&& linear_at_least(light.b, lb)
            &&& linear_at_most(dark.r, dr)
            &&& linear_at_most(dark.g, dg)
            &&& linear_at_most(dark.b, db)
            &&& 2126 * lr + 7152 * lg + 722 * lb + 500 * ppm() >= 7 * (2126 * dr + 7152 * dg
                + 722 * db + 500 * ppm())
        }
}

/// `light` reaches a contrast ratio of at least `tenths / 10` over `dark`:
/// `10 (L(light) + 0.05) >= tenths (L(dark) + 0.05)`, shown by bounds on the
/// linear channels as in `reaches_aaa`.
pub open spec fn reaches_ratio(light: Rgba, dark: Rgba, tenths: int) -> bool {
    exists|lr: int, lg: int, lb: int, dr: int, dg: int, db: int|
        #![trigger linear_at_least(light.r, lr), linear_at_least(light.g, lg), linear_at_least(light.b, lb), linear_at_most(dark.r, dr), linear_at_most(dark.g, dg), linear_at_most(dark.b, db)]
        {
            &&& linear_at_least(light.r, lr)
            &&& linear_at_least(light.g, lg)
            &&& linear_at_least(light.b, lb)
            &&& linear_at_most(dark.r, dr)
            &&& linear_at_most(dark.g, dg)
            &&& linear_at_most(dark.b, db)
            &&& 10 * (2126 * lr + 7152 * lg + 722 * lb + 500 * ppm()) >= tenths * (2126 * dr
                + 7152 * dg + 722 * db + 500 * ppm())
        }
}

/// Text colour `text` reaches AAA contrast on background `bg` of theme `t`
/// (on a dark theme the text is the lighter colour, on a light one the
/// background is).
pub open spec fn contrast_on(t: AppTheme, text: Rgba, bg: Rgba) -> bool {
    if t.is_dark {
        reaches_aaa(text, bg)
    } else {
        reaches_aaa(bg, text)
    }
}

/// Text colour `text` reaches AAA contrast on every background of theme `t`
/// that text is set on.
pub open spec fn text_reaches_aaa(t: AppTheme, text: Rgba) -> bool {
    &&& contrast_on(t, text, t.bg_base)
    &&& contrast_on(t, text, t.bg_surface)
    &&& contrast_on(t, text, t.bg_panel)
    &&& contrast_on(t, text, t.bg_card)
    &&& contrast_on(t, text, t.bg_input)
    &&& contrast_on(t, text, t.bg_code)
}

proof fn lemma_reaches_aaa(
    light: Rgba,
    dark: Rgba,
    lr: int,
    lg: int,
    lb: int,
    dr: int,
    dg: int,
    db: int,
)
    requires
        linear_at_least(light.r, lr),
        linear_at_least(light.g, lg),
        linear_at_least(light.b, lb),
        linear_at_most(dark.r, dr),
        linear_at_most(dark.g, dg),
        linear_at_most(dark.b, db),
        2126 * lr + 7152 * lg + 722 * lb + 500 * ppm() >= 7 * (2126 * dr + 7152 * dg + 722 * db
            + 500 * ppm()),
    ensures
        reaches_aaa(light, dark),
{
}

proof fn lemma_reaches_ratio(
    light: Rgba,
    dark: Rgba,
    tenths: int,
    lr: int,
    lg: int,
    lb: int,
    dr: int,
    dg: int,
    db: int,
)
    requires
        linear_at_least(light.r, lr),
        linear_at_least(light.g, lg),
        linear_at_least(light.b, lb),
        linear_at_most(dark.r, dr),
        linear_at_most(dark.g, dg),
        linear_at_most(dark.b, db),
        10 * (2126 * lr + 7152 * lg + 722 * lb + 500 * ppm()) >= tenths * (2126 * dr + 7152 * dg
            + 722 * db + 500 * ppm()),
    ensures
        reaches_ratio(light, dark, tenths),
{
}

/// Bounds on the linear value of each channel value of the accents and the
/// labels set on them.
proof fn lemma_accent_channel_bounds()
    ensures
        linear_at_least(1u8, 303),
        linear_at_least(205u8, 610495),
        linear_at_least(254u8, 991102),
        linear_at_least(255u8, 1000000),
        linear_at_most(9u8, 2732),
        linear_at_most(12u8, 3677),
        linear_at_most(18u8, 6049),
        linear_at_most(34u8, 15997),
        linear_at_most(88u8, 97588),
        linear_at_most(105u8, 141264),
        linear_at_most(166u8, 381327),
        linear_at_most(218u8, 701102),
        linear_at_most(255u8, 1000000),
{
    assert(linear_at_least(1u8, 303)) by (nonlinear_arith);
    assert(linear_at_least(205u8, 610495)) by (nonlinear_arith);
    assert(linear_at_least(254u8, 991102)) by (nonlinear_arith);
    assert(linear_at_least(255u8, 1000000)) by (nonlinear_arith);
    assert(linear_at_most(9u8, 2732)) by (nonlinear_arith);
    assert(linear_at_most(12u8, 3677)) by (nonlinear_arith);
    assert(linear_at_most(18u8, 6049)) by (nonlinear_arith);
    assert(linear_at_most(34u8, 15997)) by (nonlinear_arith);
    assert(linear_at_most(88u8, 97588)) by (nonlinear_arith);
    assert(linear_at_most(105u8, 141264)) by (nonlinear_arith);
    assert(linear_at_most(166u8, 381327)) by (nonlinear_arith);
    assert(linear_at_most(218u8, 701102)) by (nonlinear_arith);
    assert(linear_at_most(255u8, 1000000)) by (nonlinear_arith);
}

/// The labels of the accent buttons stand out from the accent in every
/// theme: they are white in the two GitHub themes, and the lighter of label
/// and accent reaches a contrast ratio of at least 2.5:1 over the darker in
/// GitHub Dark, 4.5:1 (WCAG AA) in GitHub Light and 7:1 (WCAG AAA) in
/// Vaporwave, where the label is dark on the light accent.
pub proof fn lemma_text_on_accent(mode: ThemeMode)
    ensures
        ({
            let t = theme_palette(mode);
            &&& mode != ThemeMode::Vaporwave ==> t.text_on_accent == rgb(255, 255, 255)
            &&& t.text_on_accent != t.accent
            &&& mode == ThemeMode::GitHubDark ==> reaches_ratio(t.text_on_accent, t.accent, 25)
            &&& mode == ThemeMode::GitHubLight ==> reaches_ratio(t.text_on_accent, t.accent, 45)
            &&& mode == ThemeMode::Vaporwave ==> reaches_aaa(t.accent, t.text_on_accent)
        }),
{
    lemma_accent_channel_bounds();
    match mode {
        ThemeMode::GitHubDark => {
            lemma_reaches_ratio(rgb(255, 255, 255), rgb(88, 166, 255), 25, 1000000, 1000000, 1000000, 97588, 381327, 1000000);
        },
        ThemeMode::GitHubLight => {
            lemma_reaches_ratio(rgb(255, 255, 255), rgb(9, 105, 218), 45, 1000000, 1000000, 1000000, 2732, 141264, 701102);
        },
        ThemeMode::Vaporwave => {
            lemma_reaches_aaa(rgb(1, 205, 254), rgb(18, 12, 34), 303, 610495, 991102, 6049, 3677, 15997);
        },
    }
}

/// Bounds on the linear value of each channel value that the GitHub
/// themes' text colours and backgrounds use.
proof fn lemma_channel_bounds()
    ensures
        linear_at_least(170u8, 401977),
        linear_at_least(177u8, 439657),
        linear_at_least(184u8, 479320),
        linear_at_least(201u8, 584078),
        linear_at_least(209u8, 637596),
        linear_at_least(217u8, 693871),
        linear_at_least(240u8, 871367),
        linear_at_least(246u8, 921581),
        linear_at_least(248u8, 938685),
        linear_at_least(250u8, 955973),
        linear_at_least(252u8, 973445),
        linear_at_least(255u8, 1000000),
        linear_at_most(10u8, 3036),
        linear_at_most(12u8, 3677),
        linear_at_most(13u8, 4025),
        linear_at_most(16u8, 5182),
        linear_at_most(17u8, 5606),
        linear_at_most(22u8, 8024),
        linear_at_most(23u8, 8569),
        linear_at_most(27u8, 10961),
        linear_at_most(31u8, 13703),
        linear_at_most(33u8, 15209),
        linear_at_most(34u8, 15997),
        linear_at_most(35u8, 16808),
        linear_at_most(38u8, 19383),
        linear_at_most(40u8, 21220),
        linear_at_most(45u8, 26242),
        linear_at_most(72u8, 64804),
        linear_at_most(78u8, 76186),
        linear_at_most(80u8, 80220),
        linear_at_most(85u8, 90842),
        linear_at_most(86u8, 93059),
        linear_at_most(92u8, 107024),
{
    assert(linear_at_least(170u8, 401977)) by (nonlinear_arith);
    assert(linear_at_least(177u8, 439657)) by (nonlinear_arith);
    assert(linear_at_least(184u8, 479320)) by (nonlinear_arith);
    assert(linear_at_least(201u8, 584078)) by (nonlinear_arith);
    assert(linear_at_least(209u8, 637596)) by (nonlinear_arith);
    assert(linear_at_least(217u8, 693871)) by (nonlinear_arith);
    assert(linear_at_least(240u8, 871367)) by (nonlinear_arith);
    assert(linear_at_least(246u8, 921581)) by (nonlinear_arith);
    assert(linear_at_least(248u8, 938685)) by (nonlinear_arith);
    assert(linear_at_least(250u8, 955973)) by (nonlinear_arith);
    assert(linear_at_least(252u8, 973445)) by (nonlinear_arith);
    assert(linear_at_least(255u8, 1000000)) by (nonlinear_arith);
    assert(linear_at_most(10u8, 3036)) by (nonlinear_arith);
    assert(linear_at_most(12u8, 3677)) by (nonlinear_arith);
    assert(linear_at_most(13u8, 4025)) by (nonlinear_arith);
    assert(linear_at_most(16u8, 5182)) by (nonlinear_arith);
    assert(linear_at_most(17u8, 5606)) by (nonlinear_arith);
    assert(linear_at_most(22u8, 8024)) by (nonlinear_arith);
    assert(linear_at_most(23u8, 8569)) by (nonlinear_arith);
    assert(linear_at_most(27u8, 10961)) by (nonlinear_arith);
    assert(linear_at_most(31u8, 13703)) by (nonlinear_arith);
    assert(linear_at_most(33u8, 15209)) by (nonlinear_arith);
    assert(linear_at_most(34u8, 15997)) by (nonlinear_arith);
    assert(linear_at_most(35u8, 16808)) by (nonlinear_arith);
    assert(linear_at_most(38u8, 19383)) by (nonlinear_arith);
    assert(linear_at_most(40u8, 21220)) by (nonlinear_arith);
    assert(linear_at_most(45u8, 26242)) by (nonlinear_arith);
    assert(linear_at_most(72u8, 64804)) by (nonlinear_arith);
    assert(linear_at_most(78u8, 76186)) by (nonlinear_arith);
    assert(linear_at_most(80u8, 80220)) by (nonlinear_arith);
    assert(linear_at_most(85u8, 90842)) by (nonlinear_arith);
    assert(linear_at_most(86u8, 93059)) by (nonlinear_arith);
    assert(linear_at_most(92u8, 107024)) by (nonlinear_arith);
}

/// In GitHub Dark and GitHub Light, the primary, secondary and muted text
/// colours all reach the WCAG AAA contrast ratio of 7:1 on every background
/// that text is set on.
pub proof fn lemma_github_text_contrast(mode: ThemeMode)
    requires
        mode != ThemeMode::Vaporwave,
    ensures
        ({
            let t = theme_palette(mode);
            &&& text_reaches_aaa(t, t.text_primary)
            &&& text_reaches_aaa(t, t.text_secondary)
            &&& text_reaches_aaa(t, t.text_muted)
        }),
{
    lemma_channel_bounds();
    if mode == ThemeMode::GitHubDark {
        lemma_reaches_aaa(rgb(240, 246, 252), rgb(13, 17, 23), 871367, 921581, 973445, 4025, 5606, 8569);
        lemma_reaches_aaa(rgb(240, 246, 252), rgb(22, 27, 34), 871367, 921581, 973445, 8024, 10961, 15997);
        lemma_reaches_aaa(rgb(240, 246, 252), rgb(33, 38, 45), 871367, 921581, 973445, 15209, 19383, 26242);
        lemma_reaches_aaa(rgb(240, 246, 252), rgb(10, 12, 16), 871367, 921581, 973445, 3036, 3677, 5182);
        lemma_reaches_aaa(rgb(201, 209, 217), rgb(13, 17, 23), 584078, 637596, 693871, 4025, 5606, 8569);
        lemma_reaches_aaa(rgb(201, 209, 217), rgb(22, 27, 34), 584078, 637596, 693871, 8024, 10961, 15997);
        lemma_reaches_aaa(rgb(201, 209, 217), rgb(33, 38, 45), 584078, 637596, 693871, 15209, 19383, 26242);
        lemma_reaches_aaa(rgb(201, 209, 217), rgb(10, 12, 16), 584078, 637596, 693871, 3036, 3677, 5182);
        lemma_reaches_aaa(rgb(170, 177, 184), rgb(13, 17, 23), 401977, 439657, 479320, 4025, 5606, 8569);
        lemma_reaches_aaa(rgb(170, 177, 184), rgb(22, 27, 34), 401977, 439657, 479320, 8024, 10961, 15997);
        lemma_reaches_aaa(rgb(170, 177, 184), rgb(33, 38, 45), 401977, 439657, 479320, 15209, 19383, 26242);
        lemma_reaches_aaa(rgb(170, 177, 184), rgb(10, 12, 16), 401977, 439657, 479320, 3036, 3677, 5182);
    } else {
        lemma_reaches_aaa(rgb(255, 255, 255), rgb(31, 35, 40), 1000000, 1000000, 1000000, 13703, 16808, 21220);
        lemma_reaches_aaa(rgb(246, 248, 250), rgb(31, 35, 40), 921581, 938685, 955973, 13703, 16808, 21220);
        lemma_reaches_aaa(rgb(255, 255, 255), rgb(72, 78, 86), 1000000, 1000000, 1000000, 64804, 76186, 93059);
        lemma_reaches_aaa(rgb(246, 248, 250), rgb(72, 78, 86), 921581, 938685, 955973, 64804, 76186, 93059);
        lemma_reaches_aaa(rgb(255, 255, 255), rgb(80, 85, 92), 1000000, 1000000, 1000000, 80220, 90842, 107024);
        lemma_reaches_aaa(rgb(246, 248, 250), rgb(80, 85, 92), 921581, 938685, 955973, 80220, 90842, 107024);
    }
}

} // verus!
