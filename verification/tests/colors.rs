use vault64::config::AppTheme;
use vault64::launcher::Vault64App;
use vault64::palette::{Rgb, Surface};

fn app(theme: AppTheme) -> Vault64App {
    let mut app = Vault64App::new(None).0;
    app.config.theme = theme;
    app
}

fn rgb(r: u8, g: u8, b: u8) -> Rgb {
    Rgb { r, g, b }
}

#[test]
fn colors_of_the_dark_themes() {
    let dark = app(AppTheme::Dark);
    let neon = app(AppTheme::Neon);
    for app in [&dark, &neon] {
        assert!(app.is_dark());
        assert_eq!(app.text_color(), rgb(240, 242, 248));
        assert_eq!(app.subtle_text(), rgb(145, 150, 165));
        assert_eq!(app.panel_bg(), rgb(13, 14, 19));
        assert_eq!(app.bottom_bg(), rgb(11, 12, 16));
        assert_eq!(app.card_bg(), rgb(26, 28, 36));
        assert_eq!(app.card_hover_bg(), rgb(35, 39, 52));
        assert_eq!(app.shadow_strength(Surface::SignIn), 120);
        assert_eq!(app.shadow_strength(Surface::GameCard), 60);
        assert_eq!(app.shadow_strength(Surface::DetailsCard), 100);
        assert_eq!(app.shadow_strength(Surface::SettingsCard), 90);
    }
    assert_eq!(dark.accent(), rgb(80, 160, 255));
    assert_eq!(neon.accent(), rgb(255, 0, 128));
}

#[test]
fn colors_of_the_light_theme() {
    let app = app(AppTheme::Light);
    assert!(!app.is_dark());
    assert_eq!(app.accent(), rgb(0, 102, 220));
    assert_eq!(app.text_color(), rgb(18, 20, 26));
    assert_eq!(app.subtle_text(), rgb(90, 95, 110));
    assert_eq!(app.panel_bg(), rgb(228, 232, 238));
    assert_eq!(app.bottom_bg(), rgb(218, 224, 230));
    assert_eq!(app.card_bg(), rgb(255, 255, 255));
    assert_eq!(app.card_hover_bg(), rgb(238, 244, 252));
    assert_eq!(app.success_color(), rgb(80, 200, 120));
    assert_eq!(app.danger_color(), rgb(255, 90, 90));
    assert_eq!(app.tab_label_color(true), app.text_color());
    assert_eq!(app.tab_label_color(false), app.subtle_text());
    assert_eq!(app.shadow_strength(Surface::SignIn), 30);
    assert_eq!(app.shadow_strength(Surface::GameCard), 18);
    assert_eq!(app.shadow_strength(Surface::DetailsCard), 28);
    assert_eq!(app.shadow_strength(Surface::SettingsCard), 22);
}

#[test]
fn palettes() {
    let dark = Vault64App::theme_palette(AppTheme::Dark);
    assert!(dark.dark);
    assert_eq!(dark.panel_fill, rgb(14, 15, 20));
    assert_eq!(dark.selection, rgb(0, 120, 255));
    let light = Vault64App::theme_palette(AppTheme::Light);
    assert!(!light.dark);
    assert_eq!(light.window_fill, rgb(255, 255, 255));
    assert_eq!(light.active, rgb(0, 102, 220));
    let neon = Vault64App::theme_palette(AppTheme::Neon);
    assert!(neon.dark);
    assert_eq!(neon.hovered, rgb(64, 24, 104));
    assert_eq!(neon.noninteractive, rgb(22, 10, 38));
    assert_eq!(neon.inactive, rgb(38, 16, 62));
}
