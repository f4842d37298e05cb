use snake::config::{fallback_theme, GridSize};
use snake::game::{overlay_for, DeathReason, FoodDensity, GameStatus, Overlay};
use snake::renderer::Rect;
use snake::text::{decimal, pad_right, pad_zeros};
use snake::theme::ThemeItem;
use snake::ui::hud::{
    bottom_info_parts, bottom_info_width, debug_height, debug_info_width, dimensions_text,
    high_score_text, score_text, speed_text, status_label,
};
use snake::ui::menu::{
    death_cause, format_food_menu_label, format_game_length, is_new_high_score,
    left_anchored_popup_with_size, longest_theme_name_width, menu_option_text,
    right_preview_area, shown_high_score, swatch_label, table_row, theme_list_width,
    theme_option_label, visible_theme_lines,
};

fn themes(names: &[&str]) -> Vec<ThemeItem> {
    names
        .iter()
        .map(|name| {
            let mut theme = fallback_theme();
            theme.name = (*name).to_owned();
            ThemeItem { id: name.to_lowercase(), theme }
        })
        .collect()
}

fn shown(items: &[ThemeItem], selected: usize, count: usize) -> Vec<(String, bool)> {
    visible_theme_lines(items, selected, count)
        .into_iter()
        .map(|line| (line.text, line.selected))
        .collect()
}

#[test]
fn numbers_are_written_in_decimal() {
    assert_eq!(decimal(0), "0");
    assert_eq!(decimal(7), "7");
    assert_eq!(decimal(10), "10");
    assert_eq!(decimal(4294967295), "4294967295");
    assert_eq!(decimal(18446744073709551615), "18446744073709551615");
    for n in [1u64, 9, 11, 99, 100, 101, 65535, 1234567890] {
        assert_eq!(decimal(n), n.to_string());
    }
}

#[test]
fn padding_fills_up_to_the_width() {
    assert_eq!(pad_right("ab", 5), "ab   ");
    assert_eq!(pad_right("abcde", 5), "abcde");
    assert_eq!(pad_right("abcdef", 5), "abcdef");
    assert_eq!(pad_right("", 2), "  ");
    assert_eq!(pad_right("éé", 3), "éé ");
    assert_eq!(pad_zeros("7", 2), "07");
    assert_eq!(pad_zeros("42", 2), "42");
    assert_eq!(pad_zeros("123", 2), "123");
    assert_eq!(pad_zeros("", 3), "000");
}

#[test]
fn the_status_label_names_the_status() {
    assert_eq!(status_label(GameStatus::Playing, false, false), "snake");
    assert_eq!(status_label(GameStatus::Playing, false, true), "snake (wsl)");
    assert_eq!(status_label(GameStatus::Playing, true, false), "snake");
    assert_eq!(status_label(GameStatus::Paused, true, false), "snake");
    assert_eq!(status_label(GameStatus::Paused, true, true), "snake (wsl)");
    assert_eq!(status_label(GameStatus::Paused, false, true), "paused");
    assert_eq!(status_label(GameStatus::GameOver, false, false), "game over");
    assert_eq!(status_label(GameStatus::GameOver, true, true), "game over");
    assert_eq!(status_label(GameStatus::Victory, false, false), "victory");
    assert_eq!(status_label(GameStatus::Victory, true, false), "victory");
}

#[test]
fn the_hud_texts_are_exact() {
    assert_eq!(score_text(0), "Score: 0");
    assert_eq!(score_text(137), "Score: 137");
    assert_eq!(speed_text(3), "Speed: 3");
    assert_eq!(high_score_text(12, true, false), "Hi: 12 [PAD]");
    assert_eq!(high_score_text(12, false, false), "Hi: 12 [NOPAD]");
    assert_eq!(high_score_text(0, true, true), "Hi: 0 [PAD] [WSL]");
    assert_eq!(high_score_text(9, false, true), "Hi: 9 [NOPAD] [WSL]");
    assert_eq!(dimensions_text(GridSize { width: 40, height: 20 }), "40x20");
    assert_eq!(dimensions_text(GridSize { width: 0, height: 65535 }), "0x65535");
    let (left, block, right) = bottom_info_parts("40x20", "3");
    assert_eq!(left, "40x20  ");
    assert_eq!(block, '█');
    assert_eq!(right, " = 3");
    assert_eq!(bottom_info_width("40x20", "3"), 12);
    assert_eq!(bottom_info_width("", ""), 6);
    assert_eq!(
        bottom_info_width("40x20", "3"),
        left.chars().count() + 1 + right.chars().count()
    );
    assert_eq!(debug_height(true), 1);
    assert_eq!(debug_height(false), 0);
    assert_eq!(debug_info_width(12), 12);
    assert_eq!(debug_info_width(65535), 65535);
    assert_eq!(debug_info_width(65536), 65535);
    assert_eq!(debug_info_width(usize::MAX), 65535);
}

#[test]
fn the_overlay_follows_the_status() {
    assert_eq!(overlay_for(GameStatus::Playing, false), Overlay::Nothing);
    assert_eq!(overlay_for(GameStatus::Paused, false), Overlay::PauseMenu);
    assert_eq!(overlay_for(GameStatus::GameOver, false), Overlay::GameOverMenu);
    assert_eq!(overlay_for(GameStatus::Victory, false), Overlay::GameOverMenu);
    for status in [
        GameStatus::Playing,
        GameStatus::Paused,
        GameStatus::GameOver,
        GameStatus::Victory,
    ] {
        assert_eq!(overlay_for(status, true), Overlay::StartMenu);
    }
}

#[test]
fn the_menu_texts_are_exact() {
    assert_eq!(menu_option_text("Start", true), "> Start");
    assert_eq!(menu_option_text("Start", false), "  Start");
    assert_eq!(menu_option_text("", true), "> ");
    assert_eq!(theme_option_label("Tokyo Night"), "Theme:  Tokyo Night");
    assert_eq!(
        format_food_menu_label(FoodDensity { foods_per: 1, cells_per: 200 }),
        "Food:   1/200"
    );
    assert_eq!(table_row("Metric", "Value"), "Metric         Value");
    assert_eq!(table_row("Game length", "01:05"), "Game length    01:05");
    assert_eq!(table_row("A label that is long", "v"), "A label that is long v");
    assert_eq!(table_row("", ""), "               ");
    assert_eq!(swatch_label("Head"), "Head    ");
    assert_eq!(swatch_label("Term bg"), "Term bg ");
    assert_eq!(swatch_label("UI text!"), "UI text! ");
    assert_eq!(death_cause(Some(DeathReason::WallCollision)), "hit wall");
    assert_eq!(death_cause(Some(DeathReason::SelfCollision)), "hit yourself");
    assert_eq!(death_cause(None), "-");
}

#[test]
fn game_lengths_are_minutes_and_seconds() {
    assert_eq!(format_game_length(0), "00:00");
    assert_eq!(format_game_length(5), "00:05");
    assert_eq!(format_game_length(59), "00:59");
    assert_eq!(format_game_length(60), "01:00");
    assert_eq!(format_game_length(65), "01:05");
    assert_eq!(format_game_length(599), "09:59");
    assert_eq!(format_game_length(3600), "60:00");
    assert_eq!(format_game_length(6000), "100:00");
    assert_eq!(format_game_length(u64::MAX), "307445734561825860:15");
}

#[test]
fn the_shown_high_score_is_the_better_one() {
    assert!(is_new_high_score(5, 4));
    assert!(!is_new_high_score(4, 4));
    assert!(!is_new_high_score(3, 4));
    assert_eq!(shown_high_score(5, 4), 5);
    assert_eq!(shown_high_score(4, 4), 4);
    assert_eq!(shown_high_score(3, 4), 4);
}

#[test]
fn the_theme_list_is_as_wide_as_its_longest_name() {
    assert_eq!(longest_theme_name_width(&[]), 19);
    assert_eq!(theme_list_width(&[]), 21);
    let items = themes(&["Ocean", "Tokyo Night", "Été"]);
    assert_eq!(longest_theme_name_width(&items), 11);
    assert_eq!(theme_list_width(&items), 13);
    let unnamed = themes(&[""]);
    assert_eq!(longest_theme_name_width(&unnamed), 0);
    assert_eq!(theme_list_width(&unnamed), 2);
    let huge = themes(&["x".repeat(70000).as_str()]);
    assert_eq!(longest_theme_name_width(&huge), 70000);
    assert_eq!(theme_list_width(&huge), 65535);
}

#[test]
fn a_theme_list_without_themes_says_so() {
    assert_eq!(shown(&[], 0, 5), vec![(" No themes available ".to_owned(), false)]);
    assert_eq!(shown(&[], 3, 0), vec![(" No themes available ".to_owned(), false)]);
}

#[test]
fn the_theme_list_is_a_window_around_the_selection() {
    let items = themes(&["A", "Bb", "Ccc", "D", "E"]);
    let line = |name: &str, selected: bool| (format!(" {name:<3} "), selected);
    assert_eq!(
        shown(&items, 0, 3),
        vec![line("E", false), line("A", true), line("Bb", false)]
    );
    assert_eq!(
        shown(&items, 4, 3),
        vec![line("D", false), line("E", true), line("A", false)]
    );
    assert_eq!(
        shown(&items, 2, 5),
        vec![
            line("A", false),
            line("Bb", false),
            line("Ccc", true),
            line("D", false),
            line("E", false)
        ]
    );
    assert_eq!(
        shown(&items, 1, 99),
        vec![
            line("E", false),
            line("A", false),
            line("Bb", true),
            line("Ccc", false),
            line("D", false)
        ]
    );
    assert_eq!(shown(&items, 3, 1), vec![line("D", true)]);
    assert_eq!(shown(&items, 3, 2), vec![line("Ccc", false), line("D", true)]);
    assert_eq!(
        shown(&items, 0, 4),
        vec![line("D", false), line("E", false), line("A", true), line("Bb", false)]
    );
    assert!(shown(&items, 3, 0).is_empty());
    // A selection beyond the list marks no line.
    assert_eq!(
        shown(&items, 7, 3),
        vec![line("Bb", false), line("Ccc", false), line("D", false)]
    );
}

#[test]
fn an_anchored_popup_stays_inside_its_area() {
    let area = Rect { x: 10, y: 20, width: 50, height: 30 };
    assert_eq!(
        left_anchored_popup_with_size(area, 25, 12, 6),
        Rect { x: 25, y: 32, width: 12, height: 6 }
    );
    // Left of the area: the popup starts at the area's first column.
    assert_eq!(
        left_anchored_popup_with_size(area, 3, 12, 7),
        Rect { x: 10, y: 31, width: 12, height: 7 }
    );
    // Right of the area: the popup starts at the area's last column.
    assert_eq!(
        left_anchored_popup_with_size(area, 200, 12, 6),
        Rect { x: 59, y: 32, width: 1, height: 6 }
    );
    // Too wide and too high: the popup ends with the area.
    assert_eq!(
        left_anchored_popup_with_size(area, 50, 40, 99),
        Rect { x: 50, y: 20, width: 10, height: 30 }
    );
    // Nothing asked for: one cell.
    assert_eq!(
        left_anchored_popup_with_size(area, 10, 0, 0),
        Rect { x: 10, y: 34, width: 1, height: 1 }
    );
    let flat = Rect { x: 0, y: 5, width: 0, height: 0 };
    assert_eq!(
        left_anchored_popup_with_size(flat, 4, 9, 9),
        Rect { x: 0, y: 5, width: 1, height: 1 }
    );
}

#[test]
fn the_preview_needs_room_beside_the_list() {
    let container = Rect { x: 0, y: 0, width: 80, height: 24 };
    let anchor = Rect { x: 10, y: 7, width: 20, height: 9 };
    assert_eq!(
        right_preview_area(container, anchor),
        Some(Rect { x: 31, y: 7, width: 30, height: 9 })
    );
    let narrow = Rect { x: 0, y: 0, width: 55, height: 24 };
    assert_eq!(
        right_preview_area(narrow, anchor),
        Some(Rect { x: 31, y: 7, width: 24, height: 9 })
    );
    let just_enough = Rect { x: 0, y: 0, width: 49, height: 24 };
    assert_eq!(
        right_preview_area(just_enough, anchor),
        Some(Rect { x: 31, y: 7, width: 18, height: 9 })
    );
    let too_narrow = Rect { x: 0, y: 0, width: 48, height: 24 };
    assert_eq!(right_preview_area(too_narrow, anchor), None);
    assert_eq!(right_preview_area(anchor, container), None);
    let at_edge = Rect { x: 65000, y: 0, width: 600, height: 3 };
    assert_eq!(right_preview_area(Rect { x: 0, y: 0, width: 65535, height: 9 }, at_edge), None);
}
