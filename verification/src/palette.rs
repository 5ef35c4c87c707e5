//! The colours of the themes.
use crate::config::AppTheme;
use crate::launcher::Vault64App;
use vstd::prelude::*;

verus! {

/// An opaque colour.
#[derive(Clone, Copy, PartialEq, Eq, Structural, Debug)]
pub struct Rgb {
    pub r: u8,
    pub g: u8,
    pub b: u8,
}

/// The colour of the given parts.
pub open spec fn rgb(r: u8, g: u8, b: u8) -> Rgb {
    Rgb { r, g, b }
}

impl Rgb {
    /// The colour of the given parts.
    pub fn new(r: u8, g: u8, b: u8) -> (c: Rgb)
        ensures
            c == rgb(r, g, b),
    {
        Rgb { r, g, b }
    }
}

/// The colours that a theme gives to windows and controls.
#[derive(Clone, Copy, PartialEq, Eq, Structural, Debug)]
pub struct Palette {
    /// Whether all other colours are those of a dark window.
    pub dark: bool,
    pub panel_fill: Rgb,
    pub window_fill: Rgb,
    /// Controls that take no input.
    pub noninteractive: Rgb,
    /// Controls at rest.
    pub inactive: Rgb,
    /// Controls under the pointer.
    pub hovered: Rgb,
    /// Controls being used.
    pub active: Rgb,
    /// Selected text.
    pub selection: Rgb,
}

/// What throws a shadow.
#[derive(Clone, Copy, PartialEq, Eq, Structural, Debug)]
pub enum Surface {
    /// The sign-in card.
    SignIn,
    /// The card of a game in a list.
    GameCard,
    /// The card on the page of one game.
    DetailsCard,
    /// The cards on the settings page.
    SettingsCard,
}

/// The colours of a theme.
pub open spec fn palette(theme: AppTheme) -> Palette {
    match theme {
        AppTheme::Dark => Palette {
            dark: true,
            panel_fill: rgb(14, 15, 20),
            window_fill: rgb(18, 19, 25),
            noninteractive: rgb(24, 26, 34),
            inactive: rgb(34, 37, 48),
            hovered: rgb(48, 52, 68),
            active: rgb(0, 120, 255),
            selection: rgb(0, 120, 255),
        },
        AppTheme::Light => Palette {
            dark: false,
            panel_fill: rgb(236, 240, 245),
            window_fill: rgb(255, 255, 255),
            noninteractive: rgb(255, 255, 255),
            inactive: rgb(225, 230, 236),
            hovered: rgb(205, 215, 228),
            active: rgb(0, 102, 220),
            selection: rgb(0, 120, 255),
        },
        AppTheme::Neon => Palette {
            dark: true,
            panel_fill: rgb(9, 4, 16),
            window_fill: rgb(14, 7, 24),
            noninteractive: rgb(22, 10, 38),
            inactive: rgb(38, 16, 62),
            hovered: rgb(64, 24, 104),
            active: rgb(255, 0, 128),
            selection: rgb(255, 0, 128),
        },
    }
}

/// Whether a theme is dark: all are but one.
pub open spec fn dark(theme: AppTheme) -> bool {
    theme != AppTheme::Light
}

/// The colour that marks what matters.
pub open spec fn accent_of(theme: AppTheme) -> Rgb {
    match theme {
        AppTheme::Dark => rgb(80, 160, 255),
        AppTheme::Light => rgb(0, 102, 220),
        AppTheme::Neon => rgb(255, 0, 128),
    }
}

/// One of two colours: for a dark theme, or for a light one.
pub open spec fn by_darkness(theme: AppTheme, on_dark: Rgb, on_light: Rgb) -> Rgb {
    if dark(theme) {
        on_dark
    } else {
        on_light
    }
}

/// How dark a shadow is, from 0 to 255.
pub open spec fn shadow_of(theme: AppTheme, surface: Surface) -> u8 {
    match surface {
        Surface::SignIn => if dark(theme) {
            120
        } else {
            30
        },
        Surface::GameCard => if dark(theme) {
            60
        } else {
            18
        },
        Surface::DetailsCard => if dark(theme) {
            100
        } else {
            28
        },
        Surface::SettingsCard => if dark(theme) {
            90
        } else {
            22
        },
    }
}

/// The colour of text.
pub open spec fn text_color_of(theme: AppTheme) -> Rgb {
    by_darkness(theme, rgb(240, 242, 248), rgb(18, 20, 26))
}

/// The colour of text that matters less.
pub open spec fn subtle_text_of(theme: AppTheme) -> Rgb {
    by_darkness(theme, rgb(145, 150, 165), rgb(90, 95, 110))
}

/// The background of the bar at the top.
pub open spec fn panel_bg_of(theme: AppTheme) -> Rgb {
    by_darkness(theme, rgb(13, 14, 19), rgb(228, 232, 238))
}

/// The background of the bar at the bottom.
pub open spec fn bottom_bg_of(theme: AppTheme) -> Rgb {
    by_darkness(theme, rgb(11, 12, 16), rgb(218, 224, 230))
}

/// The background of a card.
pub open spec fn card_bg_of(theme: AppTheme) -> Rgb {
    by_darkness(theme, rgb(26, 28, 36), rgb(255, 255, 255))
}

/// The background of a card under the pointer.
pub open spec fn card_hover_bg_of(theme: AppTheme) -> Rgb {
    by_darkness(theme, rgb(35, 39, 52), rgb(238, 244, 252))
}

/// The colour of news, which may be good, in every theme.
pub open spec fn news_color(good: bool) -> Rgb {
    if good {
        rgb(80, 200, 120)
    } else {
        rgb(255, 90, 90)
    }
}

impl Vault64App {
    /// The colours that a theme gives to windows and controls.
    pub fn theme_palette(theme: AppTheme) -> (r: Palette)
        ensures
            r == palette(theme),
    {
        match theme {
            AppTheme::Dark => Palette {
                dark: true,
                panel_fill: Rgb::new(14, 15, 20),
                window_fill: Rgb::new(18, 19, 25),
                noninteractive: Rgb::new(24, 26, 34),
                inactive: Rgb::new(34, 37, 48),
                hovered: Rgb::new(48, 52, 68),
                active: Rgb::new(0, 120, 255),
                selection: Rgb::new(0, 120, 255),
            },
            AppTheme::Light => Palette {
                dark: false,
                panel_fill: Rgb::new(236, 240, 245),
                window_fill: Rgb::new(255, 255, 255),
                noninteractive: Rgb::new(255, 255, 255),
                inactive: Rgb::new(225, 230, 236),
                hovered: Rgb::new(205, 215, 228),
                active: Rgb::new(0, 102, 220),
                selection: Rgb::new(0, 120, 255),
            },
            AppTheme::Neon => Palette {
                dark: true,
                panel_fill: Rgb::new(9, 4, 16),
                window_fill: Rgb::new(14, 7, 24),
                noninteractive: Rgb::new(22, 10, 38),
                inactive: Rgb::new(38, 16, 62),
                hovered: Rgb::new(64, 24, 104),
                active: Rgb::new(255, 0, 128),
                selection: Rgb::new(255, 0, 128),
            },
        }
    }

    /// Whether the theme is dark.
    pub fn is_dark(&self) -> (r: bool)
        ensures
            r == dark(self@.config.theme),
    {
        self.config.theme != AppTheme::Light
    }

    /// One of two colours: for a dark theme, or for a light one.
    fn choose_color(&self, on_dark: Rgb, on_light: Rgb) -> (r: Rgb)
        ensures
            r == by_darkness(self@.config.theme, on_dark, on_light),
    {
        if self.is_dark() {
            on_dark
        } else {
            on_light
        }
    }

    /// The colour that marks what matters.
    pub fn accent(&self) -> (r: Rgb)
        ensures
            r == accent_of(self@.config.theme),
    {
        match self.config.theme {
            AppTheme::Dark => Rgb::new(80, 160, 255),
            AppTheme::Light => Rgb::new(0, 102, 220),
            AppTheme::Neon => Rgb::new(255, 0, 128),
        }
    }

    /// The colour of text.
    pub fn text_color(&self) -> (r: Rgb)
        ensures
            r == text_color_of(self@.config.theme),
    {
        self.choose_color(Rgb::new(240, 242, 248), Rgb::new(18, 20, 26))
    }

    /// The colour of text that matters less.
    pub fn subtle_text(&self) -> (r: Rgb)
        ensures
            r == subtle_text_of(self@.config.theme),
    {
        self.choose_color(Rgb::new(145, 150, 165), Rgb::new(90, 95, 110))
    }

    /// The colour of the label of a page, which may be the one being shown.
    pub fn tab_label_color(&self, active: bool) -> (r: Rgb)
        ensures
            active ==> r == text_color_of(self@.config.theme),
            !active ==> r == subtle_text_of(self@.config.theme),
    {
        if active {
            self.text_color()
        } else {
            self.subtle_text()
        }
    }

    /// The background of the bar at the top.
    pub fn panel_bg(&self) -> (r: Rgb)
        ensures
            r == by_darkness(self@.config.theme, rgb(13, 14, 19), rgb(228, 232, 238)),
            r == panel_bg_of(self@.config.theme),
    {
        self.choose_color(Rgb::new(13, 14, 19), Rgb::new(228, 232, 238))
    }

    /// The background of the bar at the bottom.
    pub fn bottom_bg(&self) -> (r: Rgb)
        ensures
            r == by_darkness(self@.config.theme, rgb(11, 12, 16), rgb(218, 224, 230)),
            r == bottom_bg_of(self@.config.theme),
    {
        self.choose_color(Rgb::new(11, 12, 16), Rgb::new(218, 224, 230))
    }

    /// The background of a card.
    pub fn card_bg(&self) -> (r: Rgb)
        ensures
            r == by_darkness(self@.config.theme, rgb(26, 28, 36), rgb(255, 255, 255)),
            r == card_bg_of(self@.config.theme),
    {
        self.choose_color(Rgb::new(26, 28, 36), Rgb::new(255, 255, 255))
    }

    /// The background of a card under the pointer.
    pub fn card_hover_bg(&self) -> (r: Rgb)
        ensures
            r == by_darkness(self@.config.theme, rgb(35, 39, 52), rgb(238, 244, 252)),
            r == card_hover_bg_of(self@.config.theme),
    {
        self.choose_color(Rgb::new(35, 39, 52), Rgb::new(238, 244, 252))
    }

    /// The colour of good news.
    pub fn success_color(&self) -> (r: Rgb)
        ensures
            r == rgb(80, 200, 120),
            r == news_color(true),
    {
        Rgb::new(80, 200, 120)
    }

    /// The colour of bad news.
    pub fn danger_color(&self) -> (r: Rgb)
        ensures
            r == rgb(255, 90, 90),
            r == news_color(false),
    {
        Rgb::new(255, 90, 90)
    }

    /// How dark the shadow of a surface is, from 0 to 255.
    pub fn shadow_strength(&self, surface: Surface) -> (r: u8)
        ensures
            r == shadow_of(self@.config.theme, surface),
    {
        let (on_dark, on_light): (u8, u8) = match surface {
            Surface::SignIn => (120, 30),
            Surface::GameCard => (60, 18),
            Surface::DetailsCard => (100, 28),
            Surface::SettingsCard => (90, 22),
        };
        if self.is_dark() {
            on_dark
        } else {
            on_light
        }
    }
}

/// The colours of the themes: only the light one is light. The dark one and the
/// neon one share the colours of text and of shadows, and each theme marks what
/// matters in its own way.
pub proof fn law_colors_of_the_themes(on: Rgb, off: Rgb)
    ensures
        palette(AppTheme::Dark).dark && palette(AppTheme::Neon).dark,
        !palette(AppTheme::Light).dark,
        dark(AppTheme::Dark) && dark(AppTheme::Neon) && !dark(AppTheme::Light),
        by_darkness(AppTheme::Dark, on, off) == on,
        by_darkness(AppTheme::Neon, on, off) == on,
        by_darkness(AppTheme::Light, on, off) == off,
        palette(AppTheme::Dark).panel_fill == (Rgb { r: 14, g: 15, b: 20 }),
        palette(AppTheme::Dark).window_fill == (Rgb { r: 18, g: 19, b: 25 }),
        palette(AppTheme::Dark).noninteractive == (Rgb { r: 24, g: 26, b: 34 }),
        palette(AppTheme::Dark).inactive == (Rgb { r: 34, g: 37, b: 48 }),
        palette(AppTheme::Dark).hovered == (Rgb { r: 48, g: 52, b: 68 }),
        palette(AppTheme::Dark).active == (Rgb { r: 0, g: 120, b: 255 }),
        palette(AppTheme::Dark).selection == (Rgb { r: 0, g: 120, b: 255 }),
        palette(AppTheme::Light).panel_fill == (Rgb { r: 236, g: 240, b: 245 }),
        palette(AppTheme::Light).window_fill == (Rgb { r: 255, g: 255, b: 255 }),
        palette(AppTheme::Light).noninteractive == (Rgb { r: 255, g: 255, b: 255 }),
        palette(AppTheme::Light).inactive == (Rgb { r: 225, g: 230, b: 236 }),
        palette(AppTheme::Light).hovered == (Rgb { r: 205, g: 215, b: 228 }),
        palette(AppTheme::Light).active == (Rgb { r: 0, g: 102, b: 220 }),
        palette(AppTheme::Light).selection == (Rgb { r: 0, g: 120, b: 255 }),
        palette(AppTheme::Neon).panel_fill == (Rgb { r: 9, g: 4, b: 16 }),
        palette(AppTheme::Neon).window_fill == (Rgb { r: 14, g: 7, b: 24 }),
        palette(AppTheme::Neon).noninteractive == (Rgb { r: 22, g: 10, b: 38 }),
        palette(AppTheme::Neon).inactive == (Rgb { r: 38, g: 16, b: 62 }),
        palette(AppTheme::Neon).hovered == (Rgb { r: 64, g: 24, b: 104 }),
        palette(AppTheme::Neon).active == (Rgb { r: 255, g: 0, b: 128 }),
        palette(AppTheme::Neon).selection == (Rgb { r: 255, g: 0, b: 128 }),
        accent_of(AppTheme::Dark) == (Rgb { r: 80, g: 160, b: 255 }),
        accent_of(AppTheme::Light) == (Rgb { r: 0, g: 102, b: 220 }),
        accent_of(AppTheme::Neon) == (Rgb { r: 255, g: 0, b: 128 }),
{
}

/// The colours of text and how dark shadows are, for every theme: a light theme
/// has dark text and faint shadows, any other light text and deep shadows.
pub proof fn law_text_and_shadows(theme: AppTheme)
    ensures
        text_color_of(theme) == (if theme == AppTheme::Light {
            Rgb { r: 18, g: 20, b: 26 }
        } else {
            Rgb { r: 240, g: 242, b: 248 }
        }),
        subtle_text_of(theme) == (if theme == AppTheme::Light {
            Rgb { r: 90, g: 95, b: 110 }
        } else {
            Rgb { r: 145, g: 150, b: 165 }
        }),
        theme == AppTheme::Light ==> shadow_of(theme, Surface::SignIn) == 30 && shadow_of(
            theme,
            Surface::GameCard,
        ) == 18 && shadow_of(theme, Surface::DetailsCard) == 28 && shadow_of(
            theme,
            Surface::SettingsCard,
        ) == 22,
        theme != AppTheme::Light ==> shadow_of(theme, Surface::SignIn) == 120 && shadow_of(
            theme,
            Surface::GameCard,
        ) == 60 && shadow_of(theme, Surface::DetailsCard) == 100 && shadow_of(
            theme,
            Surface::SettingsCard,
        ) == 90,
{
}

/// The backgrounds for every theme, and the colours of good and of bad news, which
/// no theme changes.
pub proof fn law_backgrounds_and_news(theme: AppTheme)
    ensures
        theme == AppTheme::Light ==> panel_bg_of(theme) == (Rgb { r: 228, g: 232, b: 238 })
            && bottom_bg_of(theme) == (Rgb { r: 218, g: 224, b: 230 }) && card_bg_of(theme) == (Rgb {
            r: 255,
            g: 255,
            b: 255,
        }) && card_hover_bg_of(theme) == (Rgb { r: 238, g: 244, b: 252 }),
        theme != AppTheme::Light ==> panel_bg_of(theme) == (Rgb { r: 13, g: 14, b: 19 })
            && bottom_bg_of(theme) == (Rgb { r: 11, g: 12, b: 16 }) && card_bg_of(theme) == (Rgb {
            r: 26,
            g: 28,
            b: 36,
        }) && card_hover_bg_of(theme) == (Rgb { r: 35, g: 39, b: 52 }),
        news_color(true) == (Rgb { r: 80, g: 200, b: 120 }),
        news_color(false) == (Rgb { r: 255, g: 90, b: 90 }),
{
}

} // verus!
