use snake::color::Color;
use snake::config::{
    fallback_theme, GridSize, Theme, GLYPH_EMPTY, GLYPH_HALF_LOWER, GLYPH_HALF_UPPER,
};
use snake::food::Food;
use snake::renderer::{
    build_cell_grid, cell_color, composite_half_block, render_play_area, CellKind, PlacedCell,
    Rect, TerminalCell,
};
use snake::snake::Position;

fn theme() -> Theme {
    let mut theme = fallback_theme();
    theme.snake_body = Color::Rgb(0, 200, 0);
    theme.food = Color::Rgb(200, 0, 0);
    theme.field_bg = Color::Rgb(10, 10, 10);
    theme.snake_head = Color::Rgb(1, 1, 1);
    theme.snake_tail = Color::Rgb(2, 2, 2);
    theme
}

fn wide_area() -> Rect {
    Rect { x: 0, y: 0, width: 100, height: 100 }
}

fn cell(glyph: char, fg: Color, bg: Color) -> TerminalCell {
    TerminalCell { glyph, fg, bg }
}

#[test]
fn the_glyphs_are_the_half_blocks() {
    assert_eq!(GLYPH_HALF_UPPER, '▀');
    assert_eq!(GLYPH_HALF_LOWER, '▄');
    assert_eq!(GLYPH_EMPTY, ' ');
}

#[test]
fn compositing_follows_the_four_cases() {
    let theme = theme();
    let body = theme.snake_body;
    let food = theme.food;
    let field = theme.field_bg;
    let e = CellKind::Empty;
    let s = CellKind::Snake;
    let f = CellKind::Food;
    assert_eq!(composite_half_block(e, e, &theme), cell(' ', field, field));
    assert_eq!(composite_half_block(s, e, &theme), cell('▀', body, field));
    assert_eq!(composite_half_block(f, e, &theme), cell('▀', food, field));
    assert_eq!(composite_half_block(e, s, &theme), cell('▄', body, field));
    assert_eq!(composite_half_block(e, f, &theme), cell('▄', food, field));
    assert_eq!(composite_half_block(s, s, &theme), cell('▀', body, body));
    assert_eq!(composite_half_block(s, f, &theme), cell('▀', body, food));
    assert_eq!(composite_half_block(f, s, &theme), cell('▀', food, body));
    assert_eq!(composite_half_block(f, f, &theme), cell('▀', food, food));
}

#[test]
fn cells_take_their_colors_from_the_theme() {
    let theme = theme();
    assert_eq!(cell_color(CellKind::Snake, &theme), Color::Rgb(0, 200, 0));
    assert_eq!(cell_color(CellKind::Food, &theme), Color::Rgb(200, 0, 0));
    assert_eq!(cell_color(CellKind::Empty, &theme), Color::Rgb(10, 10, 10));
}

#[test]
fn the_grid_holds_snake_over_food_over_nothing() {
    let bounds = GridSize { width: 3, height: 2 };
    let segments = vec![
        Position { x: 0, y: 0 },
        Position { x: 2, y: 1 },
        Position { x: 3, y: 0 },
        Position { x: -1, y: 1 },
        Position { x: 0, y: 2 },
    ];
    let foods = vec![
        Food::new(Position { x: 1, y: 0 }),
        Food::new(Position { x: 2, y: 1 }),
        Food::new(Position { x: 1, y: -1 }),
        Food::new(Position { x: 7, y: 7 }),
    ];
    let grid = build_cell_grid(&segments, &foods, bounds);
    assert_eq!(
        grid,
        vec![
            CellKind::Snake,
            CellKind::Food,
            CellKind::Empty,
            CellKind::Empty,
            CellKind::Empty,
            CellKind::Snake,
        ]
    );
    assert!(build_cell_grid(&segments, &foods, GridSize { width: 0, height: 5 }).is_empty());
    assert!(build_cell_grid(&segments, &foods, GridSize { width: 5, height: 0 }).is_empty());
}

#[test]
fn an_empty_grid_composites_to_spaces_on_the_field() {
    let theme = theme();
    for (width, height) in [(1u16, 1u16), (4, 4), (5, 3), (2, 7)] {
        let bounds = GridSize { width, height };
        let grid = build_cell_grid(&vec![], &vec![], bounds);
        let cells = render_play_area(&grid, bounds, wide_area(), &theme);
        assert_eq!(cells.len(), usize::from(width) * usize::from((height + 1) / 2));
        for placed in &cells {
            assert_eq!(placed.cell, cell(' ', theme.field_bg, theme.field_bg));
        }
    }
}

#[test]
fn an_odd_last_row_is_composited_over_an_empty_one() {
    let theme = theme();
    let bounds = GridSize { width: 2, height: 3 };
    // Even rows are occupied, odd rows are empty.
    let segments = vec![Position { x: 0, y: 0 }, Position { x: 1, y: 2 }];
    let foods = vec![Food::new(Position { x: 1, y: 0 }), Food::new(Position { x: 0, y: 2 })];
    let grid = build_cell_grid(&segments, &foods, bounds);
    let cells = render_play_area(&grid, bounds, wide_area(), &theme);
    assert_eq!(
        cells,
        vec![
            PlacedCell { x: 0, y: 0, cell: cell('▀', theme.snake_body, theme.field_bg) },
            PlacedCell { x: 1, y: 0, cell: cell('▀', theme.food, theme.field_bg) },
            PlacedCell { x: 0, y: 1, cell: cell('▀', theme.food, theme.field_bg) },
            PlacedCell { x: 1, y: 1, cell: cell('▀', theme.snake_body, theme.field_bg) },
        ]
    );
}

#[test]
fn a_four_by_four_board_composites_to_two_rows_of_four() {
    let theme = theme();
    let bounds = GridSize { width: 4, height: 4 };
    let segments = vec![Position { x: 0, y: 0 }, Position { x: 1, y: 0 }];
    let foods = vec![Food::new(Position { x: 2, y: 1 })];
    let grid = build_cell_grid(&segments, &foods, bounds);
    assert_eq!(grid.len(), 16);
    let cells = render_play_area(&grid, bounds, Rect { x: 0, y: 0, width: 4, height: 2 }, &theme);
    assert_eq!(cells.len(), 8);
    let body = theme.snake_body;
    let food = theme.food;
    let field = theme.field_bg;
    assert_eq!(cells[0], PlacedCell { x: 0, y: 0, cell: cell('▀', body, field) });
    assert_eq!(cells[1], PlacedCell { x: 1, y: 0, cell: cell('▀', body, field) });
    assert_eq!(cells[2], PlacedCell { x: 2, y: 0, cell: cell('▄', food, field) });
    assert_eq!(cells[3], PlacedCell { x: 3, y: 0, cell: cell(' ', field, field) });
    for (k, placed) in cells.iter().enumerate().skip(4) {
        assert_eq!(usize::from(placed.x), k - 4);
        assert_eq!(placed.y, 1);
        assert_eq!(placed.cell, cell(' ', field, field));
    }
}

#[test]
fn cells_are_placed_relative_to_the_area() {
    let theme = theme();
    let bounds = GridSize { width: 2, height: 4 };
    let grid = build_cell_grid(&vec![Position { x: 1, y: 3 }], &vec![], bounds);
    let cells = render_play_area(&grid, bounds, Rect { x: 5, y: 9, width: 20, height: 20 }, &theme);
    let field = theme.field_bg;
    assert_eq!(
        cells,
        vec![
            PlacedCell { x: 5, y: 9, cell: cell(' ', field, field) },
            PlacedCell { x: 6, y: 9, cell: cell(' ', field, field) },
            PlacedCell { x: 5, y: 10, cell: cell(' ', field, field) },
            PlacedCell { x: 6, y: 10, cell: cell('▄', theme.snake_body, field) },
        ]
    );
}

#[test]
fn cells_outside_the_area_are_left_out() {
    let theme = theme();
    let bounds = GridSize { width: 4, height: 6 };
    let grid = build_cell_grid(&vec![Position { x: 0, y: 0 }], &vec![], bounds);
    let clipped = render_play_area(&grid, bounds, Rect { x: 3, y: 4, width: 2, height: 1 }, &theme);
    assert_eq!(
        clipped,
        vec![
            PlacedCell { x: 3, y: 4, cell: cell('▀', theme.snake_body, theme.field_bg) },
            PlacedCell { x: 4, y: 4, cell: cell(' ', theme.field_bg, theme.field_bg) },
        ]
    );
    let no_width = render_play_area(&grid, bounds, Rect { x: 0, y: 0, width: 0, height: 9 }, &theme);
    assert!(no_width.is_empty());
    let no_height = render_play_area(&grid, bounds, Rect { x: 0, y: 0, width: 9, height: 0 }, &theme);
    assert!(no_height.is_empty());
    // At the edge of the coordinate range the area ends where coordinates do.
    let edge = Rect { x: 65534, y: 65533, width: 10, height: 10 };
    assert_eq!(edge.right(), 65535);
    assert_eq!(edge.bottom(), 65535);
    let at_edge = render_play_area(&grid, bounds, edge, &theme);
    assert_eq!(at_edge.len(), 2);
    assert_eq!((at_edge[0].x, at_edge[0].y), (65534, 65533));
    assert_eq!((at_edge[1].x, at_edge[1].y), (65534, 65534));
    let corner = Rect { x: 65535, y: 65535, width: 10, height: 10 };
    assert!(render_play_area(&grid, bounds, corner, &theme).is_empty());
}

#[test]
fn rect_edges_are_sums_within_range() {
    let rect = Rect { x: 3, y: 4, width: 10, height: 20 };
    assert_eq!(rect.right(), 13);
    assert_eq!(rect.bottom(), 24);
    let empty = Rect { x: 0, y: 0, width: 0, height: 0 };
    assert_eq!(empty.right(), 0);
    assert_eq!(empty.bottom(), 0);
    let full = Rect { x: 1, y: 1, width: 65535, height: 65534 };
    assert_eq!(full.right(), 65535);
    assert_eq!(full.bottom(), 65535);
}
