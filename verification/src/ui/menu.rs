use vstd::arithmetic::div_mod::{lemma_fundamental_div_mod_converse, lemma_small_mod};
use vstd::prelude::*;

use crate::game::{DeathReason, FoodDensity};
use crate::renderer::Rect;
use crate::text::{decimal, decimal_of, pad_right, pad_zeros, padded_right, zero_padded};
use crate::theme::ThemeItem;

verus! {

/// Width of the label column of the game-over table.
pub const TABLE_LABEL_WIDTH: usize = 14;

/// Width of the label of a swatch in the theme preview.
pub const SWATCH_LABEL_WIDTH: usize = 7;

/// The least width of the theme preview; where less room is left beside
/// the theme list, there is no preview.
pub const PREVIEW_MIN_WIDTH: u16 = 18;

/// The greatest width of the theme preview.
pub const PREVIEW_MAX_WIDTH: u16 = 30;

/// The one line of a theme list without themes.
pub const NO_THEMES_TEXT: &'static str = "No themes available";

/// One line of the theme list: its text, and whether it is the line of the
/// selected theme, which is highlighted.
#[derive(Debug, Clone)]
pub struct ThemeLine {
    pub text: String,
    pub selected: bool,
}

/// The text of a menu option: the label after `> ` where the option is
/// selected, and after two spaces where it is not.
pub fn menu_option_text(label: &str, selected: bool) -> (text: String)
    ensures
        text@ == (if selected {
            "> "@
        } else {
            "  "@
        }) + label@,
{
    let mut text = if selected {
        "> ".to_owned()
    } else {
        "  ".to_owned()
    };
    text.append(label);
    text
}

/// The label of the theme option of a menu.
pub fn theme_option_label(theme_name: &str) -> (label: String)
    ensures
        label@ == "Theme:  "@ + theme_name@,
{
    let mut label = "Theme:  ".to_owned();
    label.append(theme_name);
    label
}

/// The label of the food option of a menu: the density as foods per cells.
pub fn format_food_menu_label(food_density: FoodDensity) -> (label: String)
    ensures
        label@ == "Food:   "@ + decimal_of(food_density.foods_per as nat) + "/"@ + decimal_of(
            food_density.cells_per as nat,
        ),
{
    let mut label = "Food:   ".to_owned();
    label.append(decimal(food_density.foods_per as u64).as_str());
    label.append("/");
    label.append(decimal(food_density.cells_per as u64).as_str());
    label
}

/// One row of the game-over table: the label in a column of 14 characters,
/// a space, and the value.
pub fn table_row(label: &str, value: &str) -> (row: String)
    ensures
        row@ == padded_right(label@, TABLE_LABEL_WIDTH as int) + " "@ + value@,
{
    let mut row = pad_right(label, TABLE_LABEL_WIDTH);
    row.append(" ");
    row.append(value);
    row
}

/// The label of a swatch of the theme preview: the label in a column of 7
/// characters, and a space.
pub fn swatch_label(label: &str) -> (text: String)
    ensures
        text@ == padded_right(label@, SWATCH_LABEL_WIDTH as int) + " "@,
{
    let mut text = pad_right(label, SWATCH_LABEL_WIDTH);
    text.append(" ");
    text
}

/// A length of `total_secs` seconds as minutes and seconds, each with at
/// least two digits.
pub open spec fn game_length_text(total_secs: u64) -> Seq<char> {
    zero_padded(decimal_of((total_secs / 60) as nat), 2) + ":"@ + zero_padded(
        decimal_of((total_secs % 60) as nat),
        2,
    )
}

/// Formats the length of a game, given in whole seconds, as `MM:SS`.
pub fn format_game_length(total_secs: u64) -> (text: String)
    ensures
        text@ == game_length_text(total_secs),
{
    let minutes = total_secs / 60;
    let seconds = total_secs % 60;
    let mut text = pad_zeros(decimal(minutes).as_str(), 2);
    text.append(":");
    text.append(pad_zeros(decimal(seconds).as_str(), 2).as_str());
    text
}

/// What ended the game, as the game-over table shows it.
pub fn death_cause(death_reason: Option<DeathReason>) -> (cause: &'static str)
    ensures
        cause@ == match death_reason {
            Some(DeathReason::WallCollision) => "hit wall"@,
            Some(DeathReason::SelfCollision) => "hit yourself"@,
            None => "-"@,
        },
{
    match death_reason {
        Some(DeathReason::WallCollision) => "hit wall",
        Some(DeathReason::SelfCollision) => "hit yourself",
        None => "-",
    }
}

/// Whether `score` beats the high score `high_score`.
pub fn is_new_high_score(score: u32, high_score: u32) -> (new_high: bool)
    ensures
        new_high == (score > high_score),
{
    score > high_score
}

/// The high score that the game-over table shows: the score of this game
/// where it beats the high score.
pub fn shown_high_score(score: u32, high_score: u32) -> (shown: u32)
    ensures
        shown == if score > high_score {
            score
        } else {
            high_score
        },
{
    if score > high_score {
        score
    } else {
        high_score
    }
}

/// The display names of `themes`, in order.
pub open spec fn theme_names(themes: Seq<ThemeItem>) -> Seq<Seq<char>> {
    Seq::new(themes.len(), |i: int| themes[i].theme.name@)
}

/// The length of the longest of `names`; 0 where there are none.
pub open spec fn longest_len(names: Seq<Seq<char>>) -> nat
    decreases names.len(),
{
    if names.len() == 0 {
        0
    } else {
        let before = longest_len(names.drop_last());
        if names.last().len() > before {
            names.last().len()
        } else {
            before
        }
    }
}

/// The width of the names in the theme list: that of the longest name,
/// and that of the line that stands for an empty list.
pub open spec fn name_column_width(names: Seq<Seq<char>>) -> nat {
    if names.len() == 0 {
        NO_THEMES_TEXT@.len()
    } else {
        longest_len(names)
    }
}

/// Returns the width of the names in the theme list.
pub fn longest_theme_name_width(themes: &[ThemeItem]) -> (width: usize)
    ensures
        width == name_column_width(theme_names(themes@)),
{
    if themes.len() == 0 {
        return NO_THEMES_TEXT.unicode_len();
    }
    let ghost names = theme_names(themes@);
    let mut longest: usize = 0;
    let mut i: usize = 0;
    assert(names.take(0) =~= Seq::<Seq<char>>::empty());
    while i < themes.len()
        invariant
            i <= themes.len(),
            names == theme_names(themes@),
            longest == longest_len(names.take(i as int)),
        decreases themes.len() - i,
    {
        proof {
            assert(names.take(i as int + 1).drop_last() =~= names.take(i as int));
        }
        let len = themes[i].theme.name.as_str().unicode_len();
        if len > longest {
            longest = len;
        }
        i += 1;
    }
    assert(names.take(themes.len() as int) =~= names);
    longest
}

/// Returns the width of the theme list: the names and a margin of one
/// column on each side, held within the range of a coordinate.
pub fn theme_list_width(themes: &[ThemeItem]) -> (width: u16)
    ensures
        width == if name_column_width(theme_names(themes@)) + 2 <= u16::MAX {
            name_column_width(theme_names(themes@)) + 2
        } else {
            u16::MAX as nat
        },
{
    let longest_name = longest_theme_name_width(themes);
    if longest_name > (u16::MAX - 2) as usize {
        u16::MAX
    } else {
        (longest_name + 2) as u16
    }
}

/// The text of a line of the theme list: the name in a column of `width`
/// characters, with a space on each side.
pub open spec fn theme_line_text(name: Seq<char>, width: int) -> Seq<char> {
    " "@ + padded_right(name, width) + " "@
}

/// The number of lines that a theme list of `count` rows shows of `len`
/// themes.
pub open spec fn shown_lines(len: int, count: int) -> int {
    if count <= len {
        count
    } else {
        len
    }
}

/// The theme on the first line of the list: the list is a window on the
/// circle of themes, with the selected theme in its middle.
pub open spec fn window_start(len: int, selected: int, shown: int) -> int {
    (selected + len - shown / 2) % len
}

/// The theme on the line `offset` of the list.
pub open spec fn window_index(len: int, selected: int, shown: int, offset: int) -> int {
    (window_start(len, selected, shown) + offset) % len
}

/// Whether `lines` are the lines of the theme list for `themes`, with the
/// theme `selected` selected and room for `count` lines.
///
/// A list without themes is one line that says so. Otherwise there is a
/// line for each theme, up to `count`, taken around the circle of themes
/// so that the selected theme stands in the middle; each line shows the
/// theme's name in a column as wide as the longest name, and the line of
/// the selected theme is marked.
pub open spec fn are_theme_lines(
    lines: Seq<ThemeLine>,
    themes: Seq<ThemeItem>,
    selected: int,
    count: int,
) -> bool {
    let names = theme_names(themes);
    let width = name_column_width(names) as int;
    let len = themes.len() as int;
    if len == 0 {
        &&& lines.len() == 1
        &&& lines[0].text@ == theme_line_text(NO_THEMES_TEXT@, width)
        &&& !lines[0].selected
    } else {
        &&& lines.len() == shown_lines(len, count)
        &&& forall|offset: int|
            0 <= offset < lines.len() ==> {
                let idx = window_index(len, selected, shown_lines(len, count), offset);
                &&& (#[trigger] lines[offset]).text@ == theme_line_text(names[idx], width)
                &&& lines[offset].selected == (idx == selected)
            }
    }
}

/// Formats one line of the theme list.
fn theme_line(name: &str, width: usize, selected: bool) -> (line: ThemeLine)
    ensures
        line.text@ == theme_line_text(name@, width as int),
        line.selected == selected,
{
    let mut text = " ".to_owned();
    text.append(pad_right(name, width).as_str());
    text.append(" ");
    ThemeLine { text, selected }
}

/// Builds the lines of the theme list: a window of at most `count` themes
/// around the selected one. `selected_idx + themes.len()` must fit in a
/// `usize`.
pub fn visible_theme_lines(themes: &[ThemeItem], selected_idx: usize, count: usize) -> (lines: Vec<
    ThemeLine,
>)
    requires
        selected_idx + themes@.len() <= usize::MAX,
    ensures
        are_theme_lines(lines@, themes@, selected_idx as int, count as int),
{
    let longest_name = longest_theme_name_width(themes);
    let mut lines: Vec<ThemeLine> = Vec::new();
    if themes.len() == 0 {
        lines.push(theme_line(NO_THEMES_TEXT, longest_name, false));
        return lines;
    }
    let len = themes.len();
    let show_count = if count < len {
        count
    } else {
        len
    };
    let center = show_count / 2;
    let start = (selected_idx + len - center) % len;
    let ghost names = theme_names(themes@);
    let mut offset: usize = 0;
    while offset < show_count
        invariant
            offset <= show_count <= len,
            len == themes@.len(),
            len > 0,
            names == theme_names(themes@),
            longest_name == name_column_width(names),
            show_count == shown_lines(len as int, count as int),
            start == window_start(len as int, selected_idx as int, show_count as int),
            0 <= start < len,
            lines@.len() == offset,
            forall|k: int|
                0 <= k < offset ==> {
                    let idx = window_index(len as int, selected_idx as int, show_count as int, k);
                    &&& (#[trigger] lines@[k]).text@ == theme_line_text(
                        names[idx],
                        longest_name as int,
                    )
                    &&& lines@[k].selected == (idx == selected_idx)
                },
        decreases show_count - offset,
    {
        let idx = if offset < len - start {
            start + offset
        } else {
            offset - (len - start)
        };
        proof {
            if offset < len - start {
                lemma_small_mod((start + offset) as nat, len as nat);
            } else {
                lemma_fundamental_div_mod_converse(
                    start as int + offset as int,
                    len as int,
                    1,
                    idx as int,
                );
            }
            assert(idx == window_index(
                len as int,
                selected_idx as int,
                show_count as int,
                offset as int,
            ));
        }
        let line = theme_line(themes[idx].theme.name.as_str(), longest_name, idx == selected_idx);
        lines.push(line);
        offset += 1;
    }
    lines
}

/// The height of a popup that asks for `height` rows in an area of
/// `area_height` rows: what it asks for, at most the area's, at least 1.
pub open spec fn popup_height_of(height: u16, area_height: u16) -> int {
    let fitted = if height <= area_height {
        height
    } else {
        area_height
    };
    if fitted >= 1 {
        fitted as int
    } else {
        1
    }
}

/// The rows that a popup of the height `popup_height` leaves free in an
/// area of `area_height` rows.
pub open spec fn spare_rows(area_height: u16, popup_height: int) -> int {
    if area_height >= popup_height {
        area_height - popup_height
    } else {
        0
    }
}

/// The last column in which a popup in `area` can start: the area's last
/// column.
pub open spec fn last_popup_column(area: Rect) -> int {
    if area.right_edge() >= 1 {
        area.right_edge() - 1
    } else {
        0
    }
}

/// Where a popup that is anchored at the column `x` stands in `area`.
///
/// The popup starts at `x`, held between the area's first and last
/// column. It is as wide as asked, at most as wide as the area is from
/// there on, at least 1. It is as high as asked, at most as high as the
/// area, at least 1, and stands in the middle of the area's height.
pub open spec fn anchored_popup(area: Rect, x: u16, width: u16, height: u16) -> Rect {
    let left = if x < area.x {
        area.x as int
    } else if x > last_popup_column(area) {
        last_popup_column(area)
    } else {
        x as int
    };
    let max_width = area.right_edge() - left;
    let fitted_width = if width <= max_width {
        width as int
    } else {
        max_width
    };
    let popup_width = if fitted_width >= 1 {
        fitted_width
    } else {
        1
    };
    let popup_height = popup_height_of(height, area.height);
    Rect {
        x: left as u16,
        y: (area.y + spare_rows(area.height, popup_height) / 2) as u16,
        width: popup_width as u16,
        height: popup_height as u16,
    }
}

/// Places a popup of the given size in `area`, anchored at the column `x`.
///
/// The area must have a column to anchor at, and the popup's row must lie
/// within the range of a coordinate.
pub fn left_anchored_popup_with_size(area: Rect, x: u16, width: u16, height: u16) -> (popup: Rect)
    requires
        area.x <= last_popup_column(area),
        area.y + spare_rows(area.height, popup_height_of(height, area.height)) / 2 <= u16::MAX,
    ensures
        popup == anchored_popup(area, x, width, height),
{
    let right = area.right();
    let last = if right >= 1 {
        right - 1
    } else {
        0
    };
    let left = if x < area.x {
        area.x
    } else if x > last {
        last
    } else {
        x
    };
    let max_width = right - left;
    let fitted_width = if width <= max_width {
        width
    } else {
        max_width
    };
    let popup_width = if fitted_width >= 1 {
        fitted_width
    } else {
        1
    };
    let fitted_height = if height <= area.height {
        height
    } else {
        area.height
    };
    let popup_height = if fitted_height >= 1 {
        fitted_height
    } else {
        1
    };
    let spare = if area.height >= popup_height {
        area.height - popup_height
    } else {
        0
    };
    let y = area.y + spare / 2;
    Rect { x: left, y, width: popup_width, height: popup_height }
}

/// Where the theme preview stands: right of `anchor` with one column
/// between them, as high as the anchor, and as wide as `container` leaves
/// room, at most 30 columns. There is no preview where less than 18
/// columns are left.
pub open spec fn preview_area(container: Rect, anchor: Rect) -> Option<Rect> {
    let x = if anchor.right_edge() + 1 > u16::MAX {
        u16::MAX as int
    } else {
        anchor.right_edge() + 1
    };
    let available = container.right_edge() - x;
    if available < PREVIEW_MIN_WIDTH {
        None
    } else {
        Some(
            Rect {
                x: x as u16,
                y: anchor.y,
                width: if available <= PREVIEW_MAX_WIDTH {
                    available as u16
                } else {
                    PREVIEW_MAX_WIDTH
                },
                height: anchor.height,
            },
        )
    }
}

/// Places the theme preview beside the theme list `anchor`, if
/// `container` leaves room for it.
pub fn right_preview_area(container: Rect, anchor: Rect) -> (area: Option<Rect>)
    ensures
        area == preview_area(container, anchor),
{
    let anchor_right = anchor.right();
    let x = if anchor_right == u16::MAX {
        u16::MAX
    } else {
        anchor_right + 1
    };
    let container_right = container.right();
    if x >= container_right {
        return None;
    }
    let available_width = container_right - x;
    if available_width < PREVIEW_MIN_WIDTH {
        return None;
    }
    Some(
        Rect {
            x,
            y: anchor.y,
            width: if available_width <= PREVIEW_MAX_WIDTH {
                available_width
            } else {
                PREVIEW_MAX_WIDTH
            },
            height: anchor.height,
        },
    )
}

} // verus!
