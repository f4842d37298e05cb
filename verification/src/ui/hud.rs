use vstd::prelude::*;

use crate::config::GridSize;
use crate::game::GameStatus;
use crate::text::{decimal, decimal_of};

verus! {

/// The label of the status line.
///
/// While the game is played, and on the start screen, the label is the
/// name of the game, with a note where it runs under WSL. Otherwise it
/// names the status.
pub open spec fn status_text(status: GameStatus, on_start_screen: bool, is_wsl: bool) -> Seq<char> {
    if status == GameStatus::Playing || (status == GameStatus::Paused && on_start_screen) {
        if is_wsl {
            "snake (wsl)"@
        } else {
            "snake"@
        }
    } else {
        match status {
            GameStatus::Paused => "paused"@,
            GameStatus::GameOver => "game over"@,
            _ => "victory"@,
        }
    }
}

/// Returns the label of the status line.
pub fn status_label(status: GameStatus, on_start_screen: bool, is_wsl: bool) -> (label: &'static str)
    ensures
        label@ == status_text(status, on_start_screen, is_wsl),
{
    match status {
        GameStatus::Paused => {
            if on_start_screen {
                if is_wsl {
                    "snake (wsl)"
                } else {
                    "snake"
                }
            } else {
                "paused"
            }
        },
        GameStatus::Playing => {
            if is_wsl {
                "snake (wsl)"
            } else {
                "snake"
            }
        },
        GameStatus::GameOver => "game over",
        GameStatus::Victory => "victory",
    }
}

/// The score as the HUD shows it.
pub fn score_text(score: u32) -> (text: String)
    ensures
        text@ == "Score: "@ + decimal_of(score as nat),
{
    let mut text = "Score: ".to_owned();
    text.append(decimal(score as u64).as_str());
    text
}

/// The speed level as the HUD shows it.
pub fn speed_text(speed_level: u32) -> (text: String)
    ensures
        text@ == "Speed: "@ + decimal_of(speed_level as nat),
{
    let mut text = "Speed: ".to_owned();
    text.append(decimal(speed_level as u64).as_str());
    text
}

/// The right end of the score line: the high score and the flags.
pub open spec fn high_score_text_of(high_score: u32, controller_enabled: bool, is_wsl: bool) -> Seq<
    char,
> {
    "Hi: "@ + decimal_of(high_score as nat) + " "@ + (if controller_enabled {
        "[PAD]"@
    } else {
        "[NOPAD]"@
    }) + (if is_wsl {
        " [WSL]"@
    } else {
        ""@
    })
}

/// The high score as the HUD shows it, with the controller flag and, under
/// WSL, the WSL flag.
pub fn high_score_text(high_score: u32, controller_enabled: bool, is_wsl: bool) -> (text: String)
    ensures
        text@ == high_score_text_of(high_score, controller_enabled, is_wsl),
{
    let mut text = "Hi: ".to_owned();
    text.append(decimal(high_score as u64).as_str());
    text.append(" ");
    text.append(
        if controller_enabled {
            "[PAD]"
        } else {
            "[NOPAD]"
        },
    );
    text.append(
        if is_wsl {
            " [WSL]"
        } else {
            ""
        },
    );
    text
}

/// The size of the board as the HUD shows it: width, `x`, height.
pub fn dimensions_text(bounds: GridSize) -> (text: String)
    ensures
        text@ == decimal_of(bounds.width as nat) + "x"@ + decimal_of(bounds.height as nat),
{
    let mut text = decimal(bounds.width as u64);
    text.append("x");
    text.append(decimal(bounds.height as u64).as_str());
    text
}

/// The three parts of the info at the right end of the status line: the
/// size of the board and two spaces, a full block in the food's color, and
/// the number of foods after ` = `.
pub fn bottom_info_parts(dimensions: &str, food_count: &str) -> (parts: (String, char, String))
    ensures
        parts.0@ == dimensions@ + "  "@,
        parts.1 == '\u{2588}',
        parts.2@ == " = "@ + food_count@,
{
    let mut left = dimensions.to_owned();
    left.append("  ");
    let mut right = " = ".to_owned();
    right.append(food_count);
    (left, '\u{2588}', right)
}

/// The width of the info at the right end of the status line: the size of
/// the board, two spaces, the block, ` = `, and the number of foods.
pub open spec fn bottom_info_width_of(dimensions: Seq<char>, food_count: Seq<char>) -> nat {
    dimensions.len() + 2 + 1 + 3 + food_count.len()
}

/// Returns the width of the info at the right end of the status line. The
/// width must fit in a `usize`.
pub fn bottom_info_width(dimensions: &str, food_count: &str) -> (width: usize)
    requires
        bottom_info_width_of(dimensions@, food_count@) <= usize::MAX,
    ensures
        width == bottom_info_width_of(dimensions@, food_count@),
{
    dimensions.unicode_len() + 2 + 1 + 3 + food_count.unicode_len()
}

/// The height of the debug row: one row where the debug row is enabled.
pub fn debug_height(debug: bool) -> (height: u16)
    ensures
        height == if debug {
            1u16
        } else {
            0u16
        },
{
    if debug {
        1
    } else {
        0
    }
}

/// The width of the info beside the debug row, held within the range of a
/// coordinate.
pub fn debug_info_width(info_width: usize) -> (width: u16)
    ensures
        width == if info_width <= u16::MAX {
            info_width as int
        } else {
            u16::MAX as int
        },
{
    if info_width > u16::MAX as usize {
        u16::MAX
    } else {
        info_width as u16
    }
}

} // verus!
