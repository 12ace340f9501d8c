use ghgrab_gui::theme::{AppTheme, Rgba, ThemeMode};

fn rgb(r: u8, g: u8, b: u8) -> Rgba {
    Rgba { r, g, b, a: 255 }
}

#[test]
fn default_theme_is_github_dark() {
    assert_eq!(ThemeMode::default(), ThemeMode::GitHubDark);
}

#[test]
fn github_dark_palette() {
    let t: AppTheme = ThemeMode::GitHubDark.get_theme();
    assert!(t.is_dark);
    assert_eq!(t.bg_base, rgb(13, 17, 23));
    assert_eq!(t.bg_surface, rgb(22, 27, 34));
    assert_eq!(t.bg_code, rgb(10, 12, 16));
    assert_eq!(t.text_primary, rgb(240, 246, 252));
    assert_eq!(t.text_on_accent, rgb(255, 255, 255));
    assert_eq!(t.accent, rgb(88, 166, 255));
    assert_eq!(t.success, rgb(35, 134, 54));
    assert_eq!(t.error, rgb(248, 81, 73));
    assert_eq!(t.row_selected, rgb(30, 48, 75));
    assert_eq!(t.row_hover, rgb(28, 33, 40));
}

#[test]
fn github_light_palette() {
    let t = ThemeMode::GitHubLight.get_theme();
    assert!(!t.is_dark);
    assert_eq!(t.bg_base, rgb(255, 255, 255));
    assert_eq!(t.border, rgb(208, 215, 222));
    assert_eq!(t.text_primary, rgb(31, 35, 40));
    assert_eq!(t.accent, rgb(9, 105, 218));
    assert_eq!(t.warning, rgb(154, 103, 0));
    assert_eq!(t.row_selected, rgb(221, 234, 254));
}

#[test]
fn vaporwave_palette() {
    let t = ThemeMode::Vaporwave.get_theme();
    assert!(t.is_dark);
    assert_eq!(t.bg_base, rgb(18, 12, 34));
    assert_eq!(t.text_on_accent, rgb(18, 12, 34));
    assert_eq!(t.accent, rgb(1, 205, 254));
    assert_eq!(t.success, rgb(5, 255, 161));
    assert_eq!(t.error, rgb(255, 113, 206));
    assert_eq!(t.folder, rgb(1, 205, 254));
}

#[test]
fn only_light_theme_is_light() {
    for mode in [ThemeMode::GitHubDark, ThemeMode::GitHubLight, ThemeMode::Vaporwave] {
        assert_eq!(mode.get_theme().is_dark, mode != ThemeMode::GitHubLight);
    }
}

#[test]
fn palettes_are_opaque() {
    for mode in [ThemeMode::GitHubDark, ThemeMode::GitHubLight, ThemeMode::Vaporwave] {
        let t = mode.get_theme();
        for c in [
            t.bg_base, t.bg_surface, t.bg_panel, t.bg_card, t.bg_card_alt, t.bg_input, t.bg_code,
            t.border, t.border_subtle, t.border_focus, t.text_primary, t.text_secondary,
            t.text_muted, t.text_on_accent, t.accent, t.accent_hover, t.success, t.success_hover,
            t.warning, t.error, t.folder, t.row_selected, t.row_hover,
        ] {
            assert_eq!(c.a, 255);
        }
    }
}

#[test]
fn theme_labels() {
    assert_eq!(ThemeMode::GitHubDark.label(), "🌙 Dark");
    assert_eq!(ThemeMode::GitHubLight.label(), "☀️ Light");
    assert_eq!(ThemeMode::Vaporwave.label(), "🌴 Vaporwave");
}

#[test]
fn selection_fill_follows_darkness() {
    assert_eq!(ThemeMode::GitHubDark.get_theme().selection_fill(), rgb(40, 75, 120));
    assert_eq!(ThemeMode::Vaporwave.get_theme().selection_fill(), rgb(40, 75, 120));
    assert_eq!(ThemeMode::GitHubLight.get_theme().selection_fill(), rgb(180, 215, 255));
}

#[test]
fn color_constructors() {
    assert_eq!(Rgba::from_rgb(1, 2, 3), Rgba { r: 1, g: 2, b: 3, a: 255 });
    assert_eq!(Rgba::white(), rgb(255, 255, 255));
    assert_eq!(Rgba::transparent(), Rgba { r: 0, g: 0, b: 0, a: 0 });
}

fn linear(c: u8) -> f64 {
    let c = c as f64 / 255.0;
    if c <= 0.04045 {
        c / 12.92
    } else {
        ((c + 0.055) / 1.055).powf(2.4)
    }
}

fn luminance(c: Rgba) -> f64 {
    0.2126 * linear(c.r) + 0.7152 * linear(c.g) + 0.0722 * linear(c.b)
}

fn contrast(a: Rgba, b: Rgba) -> f64 {
    let (la, lb) = (luminance(a), luminance(b));
    (la.max(lb) + 0.05) / (la.min(lb) + 0.05)
}

#[test]
fn github_themes_meet_aaa_text_contrast() {
    for mode in [ThemeMode::GitHubDark, ThemeMode::GitHubLight] {
        let t = mode.get_theme();
        for text in [t.text_primary, t.text_secondary, t.text_muted] {
            for bg in [t.bg_base, t.bg_surface, t.bg_panel, t.bg_card, t.bg_input, t.bg_code] {
                assert!(contrast(text, bg) >= 7.0, "{:?} on {:?}", text, bg);
            }
        }
    }
}

#[test]
fn github_text_colours() {
    assert_eq!(ThemeMode::GitHubDark.get_theme().text_muted, rgb(170, 177, 184));
    assert_eq!(ThemeMode::GitHubLight.get_theme().text_secondary, rgb(72, 78, 86));
    assert_eq!(ThemeMode::GitHubLight.get_theme().text_muted, rgb(80, 85, 92));
}
