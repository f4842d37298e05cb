use vstd::prelude::*;

use crate::color::Color;

verus! {

/// Upper half-block glyph: the top logical row of a terminal cell.
pub const GLYPH_HALF_UPPER: char = '\u{2580}';

/// Lower half-block glyph: the bottom logical row of a terminal cell.
pub const GLYPH_HALF_LOWER: char = '\u{2584}';

/// Glyph of a terminal cell in which both logical rows are empty.
pub const GLYPH_EMPTY: char = ' ';

/// Base tick interval in milliseconds.
pub const DEFAULT_TICK_INTERVAL_MS: u64 = 200;

/// Minimum tick interval in milliseconds.
pub const MIN_TICK_INTERVAL_MS: u64 = 60;

/// Score needed per speed level increase.
pub const POINTS_PER_SPEED_LEVEL: u32 = 5;

/// Logical grid dimensions, in cells.
#[derive(Debug, Clone, Copy, PartialEq, Eq, Structural)]
pub struct GridSize {
    pub width: u16,
    pub height: u16,
}

impl GridSize {
    /// Number of cells of a grid of this size.
    pub open spec fn cells(self) -> nat {
        (self.width as nat) * (self.height as nat)
    }

    /// Returns the total number of cells in the grid.
    #[must_use]
    pub fn total_cells(self) -> (n: usize)
        ensures
            n == self.cells(),
    {
        assert(self.width * self.height <= 0xffff * 0xffff) by (nonlinear_arith)
            requires
                self.width <= 0xffff,
                self.height <= 0xffff,
        ;
        (self.width as usize) * (self.height as usize)
    }
}

/// A color theme applied to all visual elements.
///
/// Every entity is drawn as a solid colored block; the UI fields style the
/// HUD and the menu panels.
#[derive(Debug)]
pub struct Theme {
    pub name: String,
    /// Block color of the snake's head segment.
    pub snake_head: Color,
    /// Block color of body segments.
    pub snake_body: Color,
    /// Block color of the tail segment.
    pub snake_tail: Color,
    /// Block color of food items.
    pub food: Color,
    /// Color painted across the whole terminal before every other layer.
    pub terminal_bg: Color,
    /// Background of empty play-field cells.
    pub field_bg: Color,
    /// Background of menu panels and popups.
    pub ui_bg: Color,
    /// Primary text color of the HUD and of menu bodies.
    pub ui_text: Color,
    /// Accent of menu titles and of the selected option.
    pub ui_accent: Color,
    /// Subdued color of footer hints and secondary labels.
    pub ui_muted: Color,
    /// Brighter companion of `ui_muted`.
    pub ui_bright: Color,
}

/// What a [`Theme`] holds, with its name as a sequence of characters.
pub ghost struct ThemeModel {
    pub name: Seq<char>,
    pub snake_head: Color,
    pub snake_body: Color,
    pub snake_tail: Color,
    pub food: Color,
    pub terminal_bg: Color,
    pub field_bg: Color,
    pub ui_bg: Color,
    pub ui_text: Color,
    pub ui_accent: Color,
    pub ui_muted: Color,
    pub ui_bright: Color,
}

impl View for Theme {
    type V = ThemeModel;

    open spec fn view(&self) -> ThemeModel {
        ThemeModel {
            name: self.name@,
            snake_head: self.snake_head,
            snake_body: self.snake_body,
            snake_tail: self.snake_tail,
            food: self.food,
            terminal_bg: self.terminal_bg,
            field_bg: self.field_bg,
            ui_bg: self.ui_bg,
            ui_text: self.ui_text,
            ui_accent: self.ui_accent,
            ui_muted: self.ui_muted,
            ui_bright: self.ui_bright,
        }
    }
}

impl Clone for Theme {
    fn clone(&self) -> (copy: Self)
        ensures
            copy@ == self@,
    {
        Theme {
            name: self.name.clone(),
            snake_head: self.snake_head,
            snake_body: self.snake_body,
            snake_tail: self.snake_tail,
            food: self.food,
            terminal_bg: self.terminal_bg,
            field_bg: self.field_bg,
            ui_bg: self.ui_bg,
            ui_text: self.ui_text,
            ui_accent: self.ui_accent,
            ui_muted: self.ui_muted,
            ui_bright: self.ui_bright,
        }
    }
}

/// The built-in theme: the one a catalog falls back to, and the source of
/// the default of each color slot.
pub open spec fn fallback_theme_model() -> ThemeModel {
    ThemeModel {
        name: "fallback"@,
        snake_head: Color::White,
        snake_body: Color::Blue,
        snake_tail: Color::DarkGray,
        food: Color::Red,
        terminal_bg: Color::Reset,
        field_bg: Color::Black,
        ui_bg: Color::DarkGray,
        ui_text: Color::White,
        ui_accent: Color::Green,
        ui_muted: Color::DarkGray,
        ui_bright: Color::Gray,
    }
}

/// Emergency fallback theme used when no theme file could be loaded.
#[must_use]
pub fn fallback_theme() -> (theme: Theme)
    ensures
        theme@ == fallback_theme_model(),
{
    Theme {
        name: "fallback".to_owned(),
        snake_head: Color::White,
        snake_body: Color::Blue,
        snake_tail: Color::DarkGray,
        food: Color::Red,
        terminal_bg: Color::Reset,
        field_bg: Color::Black,
        ui_bg: Color::DarkGray,
        ui_text: Color::White,
        ui_accent: Color::Green,
        ui_muted: Color::DarkGray,
        ui_bright: Color::Gray,
    }
}

} // verus!
