//! The colour palette the interface is drawn with, in light and dark mode.

use vstd::prelude::*;

verus! {

/// Status colours shared by light and dark themes.
pub struct StatusColors;

impl StatusColors {
    pub const BLUE_100: u32 = 0xDBEAFE;
    pub const BLUE_800: u32 = 0x1E40AF;
    pub const BLUE_500: u32 = 0x3B82F6;
    pub const GREEN_100: u32 = 0xDCFCE7;
    pub const GREEN_700: u32 = 0x15803D;
    pub const GREEN_500: u32 = 0x22C55E;
    pub const AMBER_100: u32 = 0xFEF3C7;
    pub const AMBER_700: u32 = 0xB45309;
    pub const AMBER_500: u32 = 0xF59E0B;
    pub const RED_100: u32 = 0xFEE2E2;
    pub const RED_700: u32 = 0xB91C1C;
    pub const RED_500: u32 = 0xEF4444;
    pub const SLATE_100: u32 = 0xF1F5F9;
    pub const SLATE_600: u32 = 0x475569;
    pub const SLATE_400: u32 = 0x94A3B8;
    pub const GRAY_500: u32 = 0x6B7280;
    pub const YELLOW_500: u32 = 0xEAB308;
}

/// Download accent colour of the dashboard.
pub const COLOR_DOWN: u32 = 0x16BCE9;

/// Upload accent colour of the dashboard.
pub const COLOR_UP: u32 = 0x5D55FB;

/// A colour of the palette.
#[derive(Debug, Clone, Copy, PartialEq, Eq, Structural)]
pub enum Shade {
    /// An opaque `0xRRGGBB` colour.
    Solid(u32),
    /// An `0xRRGGBB` colour at the given opacity in percent.
    Translucent(u32, u32),
    /// An `0xRRGGBBAA` colour.
    Rgba(u32),
}

/// The theme colours and corner radii (in pixels) of the interface.
#[derive(Debug, Clone, Copy, PartialEq, Eq, Structural)]
pub struct Palette {
    pub background: Shade,
    pub foreground: Shade,
    pub popover: Shade,
    pub popover_foreground: Shade,
    pub primary: Shade,
    pub primary_hover: Shade,
    pub primary_active: Shade,
    pub primary_foreground: Shade,
    pub secondary: Shade,
    pub secondary_hover: Shade,
    pub secondary_active: Shade,
    pub secondary_foreground: Shade,
    pub muted: Shade,
    pub muted_foreground: Shade,
    pub accent: Shade,
    pub accent_foreground: Shade,
    pub border: Shade,
    pub input: Shade,
    pub ring: Shade,
    pub danger: Shade,
    pub danger_foreground: Shade,
    pub sidebar: Shade,
    pub sidebar_foreground: Shade,
    pub sidebar_accent: Shade,
    pub sidebar_accent_foreground: Shade,
    pub sidebar_border: Shade,
    pub sidebar_primary: Shade,
    pub sidebar_primary_foreground: Shade,
    pub title_bar: Shade,
    pub title_bar_border: Shade,
    pub tab_bar: Shade,
    pub tab: Shade,
    pub tab_active: Shade,
    pub tab_foreground: Shade,
    pub tab_active_foreground: Shade,
    pub progress_bar: Shade,
    pub scrollbar_thumb: Shade,
    pub chart_1: Shade,
    pub chart_2: Shade,
    pub radius: u32,
    pub radius_lg: u32,
}

/// The light palette.
pub open spec fn light_palette() -> Palette {
    Palette {
        background: Shade::Solid(0xFFFFFF),
        foreground: Shade::Solid(0x0A0A0A),
        popover: Shade::Solid(0xFFFFFF),
        popover_foreground: Shade::Solid(0x0A0A0A),
        primary: Shade::Solid(0x171717),
        primary_hover: Shade::Solid(0x2E2E2E),
        primary_active: Shade::Solid(0x000000),
        primary_foreground: Shade::Solid(0xFAFAFA),
        secondary: Shade::Solid(0xF5F5F5),
        secondary_hover: Shade::Solid(0xEBEBEB),
        secondary_active: Shade::Solid(0xE0E0E0),
        secondary_foreground: Shade::Solid(0x171717),
        muted: Shade::Solid(0xF5F5F5),
        muted_foreground: Shade::Solid(0x737373),
        accent: Shade::Solid(0xF5F5F5),
        accent_foreground: Shade::Solid(0x171717),
        border: Shade::Solid(0xE5E5E5),
        input: Shade::Solid(0xE5E5E5),
        ring: Shade::Solid(0xA1A1A1),
        danger: Shade::Solid(0xE7000B),
        danger_foreground: Shade::Solid(0xFFFFFF),
        sidebar: Shade::Rgba(0xFFFFFF8C),
        sidebar_foreground: Shade::Solid(0x0A0A0A),
        sidebar_accent: Shade::Translucent(0x000000, 6),
        sidebar_accent_foreground: Shade::Solid(0x171717),
        sidebar_border: Shade::Translucent(0xE5E5E5, 50),
        sidebar_primary: Shade::Solid(0x171717),
        sidebar_primary_foreground: Shade::Solid(0xFAFAFA),
        title_bar: Shade::Translucent(0x000000, 0),
        title_bar_border: Shade::Translucent(0x000000, 0),
        tab_bar: Shade::Solid(0xEEEEEE),
        tab: Shade::Translucent(0x000000, 0),
        tab_active: Shade::Solid(0xFFFFFF),
        tab_foreground: Shade::Translucent(0x0A0A0A, 60),
        tab_active_foreground: Shade::Solid(0x0A0A0A),
        progress_bar: Shade::Solid(0x3B82F6),
        scrollbar_thumb: Shade::Translucent(0x000000, 20),
        chart_1: Shade::Solid(0x16BCE9),
        chart_2: Shade::Solid(0x5D55FB),
        radius: 8,
        radius_lg: 14,
    }
}

/// The dark palette.
pub open spec fn dark_palette() -> Palette {
    Palette {
        background: Shade::Solid(0x0A0A0A),
        foreground: Shade::Solid(0xFAFAFA),
        popover: Shade::Solid(0x171717),
        popover_foreground: Shade::Solid(0xFAFAFA),
        primary: Shade::Solid(0xE5E5E5),
        primary_hover: Shade::Solid(0xD4D4D4),
        primary_active: Shade::Solid(0xFFFFFF),
        primary_foreground: Shade::Solid(0x171717),
        secondary: Shade::Solid(0x262626),
        secondary_hover: Shade::Solid(0x303030),
        secondary_active: Shade::Solid(0x3A3A3A),
        secondary_foreground: Shade::Solid(0xFAFAFA),
        muted: Shade::Solid(0x262626),
        muted_foreground: Shade::Solid(0xA1A1A1),
        accent: Shade::Solid(0x262626),
        accent_foreground: Shade::Solid(0xFAFAFA),
        border: Shade::Translucent(0xFFFFFF, 10),
        input: Shade::Translucent(0xFFFFFF, 15),
        ring: Shade::Solid(0x737373),
        danger: Shade::Solid(0xFF6467),
        danger_foreground: Shade::Solid(0xFFFFFF),
        sidebar: Shade::Rgba(0x1717178C),
        sidebar_foreground: Shade::Solid(0xFAFAFA),
        sidebar_accent: Shade::Translucent(0xFFFFFF, 10),
        sidebar_accent_foreground: Shade::Solid(0xFAFAFA),
        sidebar_border: Shade::Translucent(0xFFFFFF, 8),
        sidebar_primary: Shade::Solid(0x4436C9),
        sidebar_primary_foreground: Shade::Solid(0xFAFAFA),
        title_bar: Shade::Translucent(0x000000, 0),
        title_bar_border: Shade::Translucent(0x000000, 0),
        tab_bar: Shade::Solid(0x262626),
        tab: Shade::Translucent(0x000000, 0),
        tab_active: Shade::Solid(0x0A0A0A),
        tab_foreground: Shade::Translucent(0xFAFAFA, 60),
        tab_active_foreground: Shade::Solid(0xFAFAFA),
        progress_bar: Shade::Solid(0x3B82F6),
        scrollbar_thumb: Shade::Translucent(0xFFFFFF, 20),
        chart_1: Shade::Solid(0x2DC2EC),
        chart_2: Shade::Solid(0x7C76F9),
        radius: 8,
        radius_lg: 14,
    }
}

/// The palette of the light or the dark theme.
pub fn palette(dark: bool) -> (p: Palette)
    ensures
        p == if dark {
            dark_palette()
        } else {
            light_palette()
        },
{
    if dark {
        Palette {
            background: Shade::Solid(0x0A0A0A),
            foreground: Shade::Solid(0xFAFAFA),
            popover: Shade::Solid(0x171717),
            popover_foreground: Shade::Solid(0xFAFAFA),
            primary: Shade::Solid(0xE5E5E5),
            primary_hover: Shade::Solid(0xD4D4D4),
            primary_active: Shade::Solid(0xFFFFFF),
            primary_foreground: Shade::Solid(0x171717),
            secondary: Shade::Solid(0x262626),
            secondary_hover: Shade::Solid(0x303030),
            secondary_active: Shade::Solid(0x3A3A3A),
            secondary_foreground: Shade::Solid(0xFAFAFA),
            muted: Shade::Solid(0x262626),
            muted_foreground: Shade::Solid(0xA1A1A1),
            accent: Shade::Solid(0x262626),
            accent_foreground: Shade::Solid(0xFAFAFA),
            border: Shade::Translucent(0xFFFFFF, 10),
            input: Shade::Translucent(0xFFFFFF, 15),
            ring: Shade::Solid(0x737373),
            danger: Shade::Solid(0xFF6467),
            danger_foreground: Shade::Solid(0xFFFFFF),
            sidebar: Shade::Rgba(0x1717178C),
            sidebar_foreground: Shade::Solid(0xFAFAFA),
            sidebar_accent: Shade::Translucent(0xFFFFFF, 10),
            sidebar_accent_foreground: Shade::Solid(0xFAFAFA),
            sidebar_border: Shade::Translucent(0xFFFFFF, 8),
            sidebar_primary: Shade::Solid(0x4436C9),
            sidebar_primary_foreground: Shade::Solid(0xFAFAFA),
            title_bar: Shade::Translucent(0x000000, 0),
            title_bar_border: Shade::Translucent(0x000000, 0),
            tab_bar: Shade::Solid(0x262626),
            tab: Shade::Translucent(0x000000, 0),
            tab_active: Shade::Solid(0x0A0A0A),
            tab_foreground: Shade::Translucent(0xFAFAFA, 60),
            tab_active_foreground: Shade::Solid(0xFAFAFA),
            progress_bar: Shade::Solid(0x3B82F6),
            scrollbar_thumb: Shade::Translucent(0xFFFFFF, 20),
            chart_1: Shade::Solid(0x2DC2EC),
            chart_2: Shade::Solid(0x7C76F9),
            radius: 8,
            radius_lg: 14,
        }
    } else {
        Palette {
            background: Shade::Solid(0xFFFFFF),
            foreground: Shade::Solid(0x0A0A0A),
            popover: Shade::Solid(0xFFFFFF),
            popover_foreground: Shade::Solid(0x0A0A0A),
            primary: Shade::Solid(0x171717),
            primary_hover: Shade::Solid(0x2E2E2E),
            primary_active: Shade::Solid(0x000000),
            primary_foreground: Shade::Solid(0xFAFAFA),
            secondary: Shade::Solid(0xF5F5F5),
            secondary_hover: Shade::Solid(0xEBEBEB),
            secondary_active: Shade::Solid(0xE0E0E0),
            secondary_foreground: Shade::Solid(0x171717),
            muted: Shade::Solid(0xF5F5F5),
            muted_foreground: Shade::Solid(0x737373),
            accent: Shade::Solid(0xF5F5F5),
            accent_foreground: Shade::Solid(0x171717),
            border: Shade::Solid(0xE5E5E5),
            input: Shade::Solid(0xE5E5E5),
            ring: Shade::Solid(0xA1A1A1),
            danger: Shade::Solid(0xE7000B),
            danger_foreground: Shade::Solid(0xFFFFFF),
            sidebar: Shade::Rgba(0xFFFFFF8C),
            sidebar_foreground: Shade::Solid(0x0A0A0A),
            sidebar_accent: Shade::Translucent(0x000000, 6),
            sidebar_accent_foreground: Shade::Solid(0x171717),
            sidebar_border: Shade::Translucent(0xE5E5E5, 50),
            sidebar_primary: Shade::Solid(0x171717),
            sidebar_primary_foreground: Shade::Solid(0xFAFAFA),
            title_bar: Shade::Translucent(0x000000, 0),
            title_bar_border: Shade::Translucent(0x000000, 0),
            tab_bar: Shade::Solid(0xEEEEEE),
            tab: Shade::Translucent(0x000000, 0),
            tab_active: Shade::Solid(0xFFFFFF),
            tab_foreground: Shade::Translucent(0x0A0A0A, 60),
            tab_active_foreground: Shade::Solid(0x0A0A0A),
            progress_bar: Shade::Solid(0x3B82F6),
            scrollbar_thumb: Shade::Translucent(0x000000, 20),
            chart_1: Shade::Solid(0x16BCE9),
            chart_2: Shade::Solid(0x5D55FB),
            radius: 8,
            radius_lg: 14,
        }
    }
}

/// The background of the main content card.
pub fn inset_bg(dark: bool) -> (s: Shade)
    ensures
        s == if dark {
            Shade::Translucent(0x0A0A0A, 80)
        } else {
            Shade::Translucent(0xFFFFFF, 88)
        },
{
    if dark {
        Shade::Translucent(0x0A0A0A, 80)
    } else {
        Shade::Translucent(0xFFFFFF, 88)
    }
}

} // verus!
