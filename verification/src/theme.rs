//! Colour palettes and the resolution of the window's appearance.

use vstd::prelude::*;

verus! {

/// Colours of one theme, as `0xRRGGBB`.
#[derive(Clone, Copy, Debug, PartialEq, Eq, Structural)]
pub struct Palette {
    pub canvas: u32,
    pub surface: u32,
    pub elevated: u32,
    pub recessed: u32,
    pub hover: u32,
    pub selected: u32,
    pub border: u32,
    pub input_border: u32,
    pub text: u32,
    pub text_secondary: u32,
    pub muted: u32,
    pub accent: u32,
    pub success: u32,
    pub warning: u32,
    pub danger: u32,
    pub diff_added: u32,
    pub diff_removed: u32,
}

/// The dark palette.
pub open spec fn dark_palette() -> Palette {
    Palette {
        canvas: 0x1b1e24,
        surface: 0x15181d,
        elevated: 0x242830,
        recessed: 0x292f39,
        hover: 0x303846,
        selected: 0x2b3b55,
        border: 0x353d49,
        input_border: 0x8491a4,
        text: 0xeff2f7,
        text_secondary: 0xc5cdd9,
        muted: 0xa9b5c6,
        accent: 0x9abaff,
        success: 0x67d4a0,
        warning: 0xeac36b,
        danger: 0xff9b96,
        diff_added: 0x183c2e,
        diff_removed: 0x452b2d,
    }
}

/// The light palette.
pub open spec fn light_palette() -> Palette {
    Palette {
        canvas: 0xfbfcfe,
        surface: 0xf0f2f6,
        elevated: 0xffffff,
        recessed: 0xe8edf4,
        hover: 0xe3e9f2,
        selected: 0xe2eafb,
        border: 0xdce2eb,
        input_border: 0x7a879a,
        text: 0x202735,
        text_secondary: 0x4b586d,
        muted: 0x56657a,
        accent: 0x315dc5,
        success: 0x126f43,
        warning: 0x815a00,
        danger: 0xb42332,
        diff_added: 0xe3f2e8,
        diff_removed: 0xfbe6e8,
    }
}

impl Palette {
    /// The palette of the dark or of the light theme.
    pub fn for_dark(dark: bool) -> (p: Palette)
        ensures
            p == (if dark {
                dark_palette()
            } else {
                light_palette()
            }),
    {
        if dark {
            Palette {
                canvas: 0x1b1e24,
                surface: 0x15181d,
                elevated: 0x242830,
                recessed: 0x292f39,
                hover: 0x303846,
                selected: 0x2b3b55,
                border: 0x353d49,
                input_border: 0x8491a4,
                text: 0xeff2f7,
                text_secondary: 0xc5cdd9,
                muted: 0xa9b5c6,
                accent: 0x9abaff,
                success: 0x67d4a0,
                warning: 0xeac36b,
                danger: 0xff9b96,
                diff_added: 0x183c2e,
                diff_removed: 0x452b2d,
            }
        } else {
            Palette {
                canvas: 0xfbfcfe,
                surface: 0xf0f2f6,
                elevated: 0xffffff,
                recessed: 0xe8edf4,
                hover: 0xe3e9f2,
                selected: 0xe2eafb,
                border: 0xdce2eb,
                input_border: 0x7a879a,
                text: 0x202735,
                text_secondary: 0x4b586d,
                muted: 0x56657a,
                accent: 0x315dc5,
                success: 0x126f43,
                warning: 0x815a00,
                danger: 0xb42332,
                diff_added: 0xe3f2e8,
                diff_removed: 0xfbe6e8,
            }
        }
    }
}

/// The theme the user asked for.
#[derive(Clone, Copy, Debug, PartialEq, Eq, Structural)]
pub enum ThemePreference {
    System,
    Light,
    Dark,
}

/// The appearance the operating system reports.
#[derive(Clone, Copy, Debug, PartialEq, Eq, Structural)]
pub enum WindowAppearance {
    Light,
    VibrantLight,
    Dark,
    VibrantDark,
}

/// How the window's background is drawn.
#[derive(Clone, Copy, Debug, PartialEq, Eq, Structural)]
pub enum WindowBackground {
    Opaque,
    Blurred,
}

/// The user's appearance settings.
#[derive(Clone, Copy, Debug, PartialEq, Eq, Structural)]
pub struct AppearanceSettings {
    pub theme: ThemePreference,
    pub glass: bool,
    pub reduced_motion: bool,
}

/// The operating system's accessibility requests.
#[derive(Clone, Copy, Debug, PartialEq, Eq, Structural)]
pub struct SystemAccessibility {
    pub reduce_transparency: bool,
    pub reduce_motion: bool,
}

/// The appearance the window is drawn with.
#[derive(Clone, Copy, Debug, PartialEq, Eq, Structural)]
pub struct ResolvedAppearance {
    pub dark: bool,
    pub glass: bool,
    pub reduced_motion: bool,
    pub active: bool,
}

/// Whether the operating system's appearance is a dark one.
pub open spec fn system_is_dark(system: WindowAppearance) -> bool {
    system == WindowAppearance::Dark || system == WindowAppearance::VibrantDark
}

impl ResolvedAppearance {
    /// Combines the settings with what the system reports: the system theme
    /// is followed unless one is chosen; glass needs blur support and no
    /// request for less transparency; motion is reduced when either asks.
    pub fn resolve(
        settings: AppearanceSettings,
        system: WindowAppearance,
        accessibility: SystemAccessibility,
        active: bool,
        blur_supported: bool,
    ) -> (r: ResolvedAppearance)
        ensures
            r.dark == match settings.theme {
                ThemePreference::System => system_is_dark(system),
                ThemePreference::Light => false,
                ThemePreference::Dark => true,
            },
            r.glass == (settings.glass && blur_supported && !accessibility.reduce_transparency),
            r.reduced_motion == (settings.reduced_motion || accessibility.reduce_motion),
            r.active == active,
    {
        ResolvedAppearance {
            dark: match settings.theme {
                ThemePreference::System => match system {
                    WindowAppearance::Dark | WindowAppearance::VibrantDark => true,
                    _ => false,
                },
                ThemePreference::Light => false,
                ThemePreference::Dark => true,
            },
            glass: settings.glass && blur_supported && !accessibility.reduce_transparency,
            reduced_motion: settings.reduced_motion || accessibility.reduce_motion,
            active,
        }
    }

    /// Glass windows blur what is behind them; others are opaque.
    pub fn window_background(self) -> (b: WindowBackground)
        ensures
            b == (if self.glass {
                WindowBackground::Blurred
            } else {
                WindowBackground::Opaque
            }),
    {
        if self.glass {
            WindowBackground::Blurred
        } else {
            WindowBackground::Opaque
        }
    }
}

/// The accessibility requests on systems that report none: nothing reduced.
pub fn system_accessibility() -> (a: SystemAccessibility)
    ensures
        !a.reduce_transparency,
        !a.reduce_motion,
{
    SystemAccessibility { reduce_transparency: false, reduce_motion: false }
}

} // verus!
