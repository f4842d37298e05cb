use snake::color::Color;
use snake::config::{fallback_theme, Theme};
use snake::json::{parse_json, Json};
use snake::resolver::{
    parse_hex_color, resolve_token, resolve_value, ColorValue, Definition, ThemeFile,
};
use snake::theme_file::{
    brighten_30_percent, brighten_channel_30_percent, color_value_of, display_name,
    parse_theme_from_str, theme_file_of, theme_from_file, theme_from_json,
};

#[test]
fn parses_hex_color() {
    assert_eq!(parse_hex_color("#AABBCC"), Some(Color::Rgb(170, 187, 204)));
    assert_eq!(parse_hex_color("invalid"), None);
}

#[test]
fn resolves_defs_and_variants() {
    let json = r##"
        {
          "defs": {
            "bg": "#111111",
            "panel": { "dark": "#222222", "light": "#eeeeee" },
            "accent_ref": "#AA00AA"
          },
          "theme": {
            "snake_head":  "accent_ref",
            "snake_body":  "accent_ref",
            "snake_tail":  "accent_ref",
            "food":        "#FF0000",
            "field_bg":    "bg",
            "ui_bg":       "panel",
            "ui_text":     "#00FF00",
            "ui_accent":   "accent_ref",
            "ui_muted":    "#888888"
          }
        }
        "##;

    let theme = parse_theme_from_str("custom", json).expect("theme should parse");
    assert_eq!(theme.field_bg, Color::Rgb(17, 17, 17));
    assert_eq!(theme.ui_bg, Color::Rgb(34, 34, 34));
    assert_eq!(theme.ui_accent, Color::Rgb(170, 0, 170));
    assert_eq!(theme.ui_bright, Color::Rgb(172, 172, 172));
}

#[test]
fn none_maps_to_terminal_default() {
    let json = r##"
        {
          "theme": {
            "snake_head":  "#00CC00",
            "snake_body":  "#00CC00",
            "snake_tail":  "#00CC00",
            "food":        "#FF0000",
            "field_bg":    "none",
            "ui_bg":       "none",
            "ui_text":     "#00FF00",
            "ui_accent":   "#00CC00",
            "ui_muted":    "#777777"
          }
        }
        "##;

    let theme = parse_theme_from_str("system", json).expect("theme should parse");
    assert_eq!(theme.field_bg, Color::Reset);
    assert_eq!(theme.ui_bg, Color::Reset);
}

#[test]
fn explicit_ui_bright_overrides_default() {
    let json = r##"
        {
          "theme": {
            "snake_head":  "#00CC00",
            "snake_body":  "#00CC00",
            "snake_tail":  "#00CC00",
            "food":        "#FF0000",
            "field_bg":    "#000000",
            "ui_bg":       "#111111",
            "ui_text":     "#00FF00",
            "ui_accent":   "#00CC00",
            "ui_muted":    "#202020",
            "ui_bright":   "#123456"
          }
        }
        "##;

    let theme = parse_theme_from_str("custom", json).expect("theme should parse");
    assert_eq!(theme.ui_bright, Color::Rgb(18, 52, 86));
}

fn text(value: &str) -> ColorValue {
    ColorValue::Text(value.to_owned())
}

fn entry(name: &str, value: ColorValue) -> Definition {
    Definition { name: name.to_owned(), value }
}

fn resolve_in(file: &ThemeFile, value: &ColorValue) -> Option<Color> {
    let mut stack = Vec::new();
    let color = resolve_value(file, value, true, &mut stack);
    assert!(stack.is_empty());
    color
}

fn token_in(file: &ThemeFile, token: &str) -> Option<Color> {
    let mut stack = Vec::new();
    let color = resolve_token(file, token, true, &mut stack);
    assert!(stack.is_empty());
    color
}

fn same_colors(a: &Theme, b: &Theme) -> bool {
    a.snake_head == b.snake_head
        && a.snake_body == b.snake_body
        && a.snake_tail == b.snake_tail
        && a.food == b.food
        && a.terminal_bg == b.terminal_bg
        && a.field_bg == b.field_bg
        && a.ui_bg == b.ui_bg
        && a.ui_text == b.ui_text
        && a.ui_accent == b.ui_accent
        && a.ui_muted == b.ui_muted
        && a.ui_bright == b.ui_bright
}

#[test]
fn hex_literals_give_their_exact_channels() {
    assert_eq!(parse_hex_color("#000000"), Some(Color::Rgb(0, 0, 0)));
    assert_eq!(parse_hex_color("#ffffff"), Some(Color::Rgb(255, 255, 255)));
    assert_eq!(parse_hex_color("#FFFFFF"), Some(Color::Rgb(255, 255, 255)));
    assert_eq!(parse_hex_color("#0a1B2c"), Some(Color::Rgb(10, 27, 44)));
    assert_eq!(parse_hex_color("#123456"), Some(Color::Rgb(18, 52, 86)));
    assert_eq!(parse_hex_color("#9aF09f"), Some(Color::Rgb(154, 240, 159)));
}

#[test]
fn texts_that_are_not_six_hex_digits_give_no_color() {
    for malformed in [
        "", "#", "#12345", "#1234567", "123456", "1234567", "#12345g", "#GGGGGG", "#12 456",
        "# 123456", "#+f+f+f", "#-1-1-1", "#aé123", "#é12345", "#éééééé", "##12345", "none",
        "#0x1122",
    ] {
        assert_eq!(parse_hex_color(malformed), None, "{malformed:?}");
    }
}

#[test]
fn a_literal_resolves_without_regard_to_the_tables() {
    let file = ThemeFile {
        defs: vec![entry("#102030", text("#ffffff")), entry("none", text("#ffffff"))],
        theme: vec![],
    };
    assert_eq!(resolve_in(&file, &text("#102030")), Some(Color::Rgb(16, 32, 48)));
    assert_eq!(resolve_in(&file, &text("none")), Some(Color::Reset));
    assert_eq!(resolve_in(&file, &text("NONE")), Some(Color::Reset));
    assert_eq!(resolve_in(&file, &text("NoNe")), Some(Color::Reset));
    assert_eq!(resolve_in(&file, &text("nonee")), None);
    assert_eq!(resolve_in(&file, &ColorValue::Ansi(0)), Some(Color::Indexed(0)));
    assert_eq!(resolve_in(&file, &ColorValue::Ansi(255)), Some(Color::Indexed(255)));
}

#[test]
fn a_name_is_looked_up_in_defs_before_theme() {
    let file = ThemeFile {
        defs: vec![entry("shared", text("#010101")), entry("shared", text("#020202"))],
        theme: vec![entry("shared", text("#030303")), entry("only_theme", text("#040404"))],
    };
    assert_eq!(resolve_in(&file, &text("shared")), Some(Color::Rgb(1, 1, 1)));
    assert_eq!(resolve_in(&file, &text("only_theme")), Some(Color::Rgb(4, 4, 4)));
    assert_eq!(resolve_in(&file, &text("unknown")), None);
    // A token is looked up in the theme table only.
    assert_eq!(token_in(&file, "shared"), Some(Color::Rgb(3, 3, 3)));
    assert_eq!(token_in(&file, "unknown"), None);
}

#[test]
fn a_chain_of_names_is_followed_to_its_end() {
    let file = ThemeFile {
        defs: vec![
            entry("a", text("b")),
            entry("b", text("c")),
            entry("c", text("d")),
            entry("d", ColorValue::Ansi(42)),
        ],
        theme: vec![entry("food", text("a"))],
    };
    assert_eq!(token_in(&file, "food"), Some(Color::Indexed(42)));
}

#[test]
fn a_cycle_of_references_resolves_to_nothing() {
    let file = ThemeFile {
        defs: vec![entry("b", text("a")), entry("self", text("self"))],
        theme: vec![
            entry("a", text("b")),
            entry("food", text("#ff0000")),
            entry("ui_text", text("self")),
        ],
    };
    assert_eq!(token_in(&file, "a"), None);
    assert_eq!(resolve_in(&file, &text("b")), None);
    assert_eq!(token_in(&file, "ui_text"), None);
    assert_eq!(token_in(&file, "food"), Some(Color::Rgb(255, 0, 0)));
}

#[test]
fn a_cycle_in_a_file_costs_only_its_own_tokens() {
    let json = r##"
        {
          "defs": { "b": "snake_head", "c": { "dark": "c", "light": "#0000ff" } },
          "theme": {
            "snake_head": "b",
            "snake_body": "c",
            "snake_tail": "snake_tail",
            "food": "#FF0000",
            "ui_muted": 8
          }
        }
        "##;
    let theme = parse_theme_from_str("loop", json).expect("theme should parse");
    let fallback = fallback_theme();
    assert_eq!(theme.snake_head, fallback.snake_head);
    assert_eq!(theme.snake_tail, fallback.snake_tail);
    // The dark side is a cycle, so the light side stands in.
    assert_eq!(theme.snake_body, Color::Rgb(0, 0, 255));
    assert_eq!(theme.food, Color::Rgb(255, 0, 0));
    assert_eq!(theme.ui_muted, Color::Indexed(8));
    assert_eq!(theme.ui_bright, Color::Indexed(8));
    assert_eq!(theme.field_bg, fallback.field_bg);
}

#[test]
fn a_name_may_be_met_twice_when_it_is_not_being_resolved() {
    // Both sides lead to the same name: the first fails on the way, and the
    // second follows it again.
    let file = ThemeFile {
        defs: vec![
            entry("shared", text("#0a0b0c")),
            entry(
                "both",
                ColorValue::Variant {
                    dark: Some(Box::new(ColorValue::Variant {
                        dark: Some(Box::new(text("missing"))),
                        light: None,
                    })),
                    light: Some(Box::new(text("shared"))),
                },
            ),
        ],
        theme: vec![],
    };
    assert_eq!(resolve_in(&file, &text("both")), Some(Color::Rgb(10, 11, 12)));
}

#[test]
fn variants_resolve_by_preference() {
    let file = ThemeFile { defs: vec![], theme: vec![] };
    let x = || Some(Box::new(text("#010203")));
    let y = || Some(Box::new(text("#040506")));
    let both = ColorValue::Variant { dark: x(), light: y() };
    let only_light = ColorValue::Variant { dark: None, light: y() };
    let only_dark = ColorValue::Variant { dark: x(), light: None };
    let neither = ColorValue::Variant { dark: None, light: None };
    let broken_dark = ColorValue::Variant { dark: Some(Box::new(text("missing"))), light: y() };
    assert_eq!(resolve_in(&file, &both), Some(Color::Rgb(1, 2, 3)));
    assert_eq!(resolve_in(&file, &only_light), Some(Color::Rgb(4, 5, 6)));
    assert_eq!(resolve_in(&file, &only_dark), Some(Color::Rgb(1, 2, 3)));
    assert_eq!(resolve_in(&file, &neither), None);
    assert_eq!(resolve_in(&file, &broken_dark), Some(Color::Rgb(4, 5, 6)));

    let mut stack = Vec::new();
    assert_eq!(resolve_value(&file, &both, false, &mut stack), Some(Color::Rgb(4, 5, 6)));
    assert_eq!(resolve_value(&file, &only_dark, false, &mut stack), Some(Color::Rgb(1, 2, 3)));
    assert_eq!(resolve_value(&file, &neither, false, &mut stack), None);
}

#[test]
fn variants_do_not_depend_on_the_order_of_their_sides() {
    let dark_first = r##"{ "theme": { "food": { "dark": "#010101", "light": "#020202" } } }"##;
    let light_first = r##"{ "theme": { "food": { "light": "#020202", "dark": "#010101" } } }"##;
    let only_light = r##"{ "theme": { "food": { "light": "#020202" } } }"##;
    let null_dark = r##"{ "theme": { "food": { "dark": null, "light": "#020202" } } }"##;
    let neither = r##"{ "theme": { "food": { } } }"##;
    let a = parse_theme_from_str("t", dark_first).expect("theme should parse");
    let b = parse_theme_from_str("t", light_first).expect("theme should parse");
    assert_eq!(a.food, Color::Rgb(1, 1, 1));
    assert_eq!(b.food, Color::Rgb(1, 1, 1));
    let c = parse_theme_from_str("t", only_light).expect("theme should parse");
    assert_eq!(c.food, Color::Rgb(2, 2, 2));
    let d = parse_theme_from_str("t", null_dark).expect("theme should parse");
    assert_eq!(d.food, Color::Rgb(2, 2, 2));
    let e = parse_theme_from_str("t", neither).expect("theme should parse");
    assert_eq!(e.food, fallback_theme().food);
}

#[test]
fn brightening_is_exact() {
    assert_eq!(brighten_channel_30_percent(0), 77);
    assert_eq!(brighten_channel_30_percent(1), 77);
    assert_eq!(brighten_channel_30_percent(32), 99);
    assert_eq!(brighten_channel_30_percent(100), 147);
    assert_eq!(brighten_channel_30_percent(136), 172);
    assert_eq!(brighten_channel_30_percent(250), 252);
    assert_eq!(brighten_channel_30_percent(253), 254);
    assert_eq!(brighten_channel_30_percent(254), 254);
    assert_eq!(brighten_channel_30_percent(255), 255);
    assert_eq!(brighten_30_percent(Color::Rgb(0, 136, 255)), Color::Rgb(77, 172, 255));
}

#[test]
fn brightening_never_leaves_the_channel_range() {
    for channel in 0..=255u8 {
        let brighter = brighten_channel_30_percent(channel);
        assert!(brighter >= channel);
        let exact = u32::from(channel) + ((255 - u32::from(channel)) * 30 + 50) / 100;
        assert_eq!(u32::from(brighter), exact);
    }
}

#[test]
fn brightening_climbs_the_gray_ladder_and_stops_at_white() {
    assert_eq!(brighten_30_percent(Color::Black), Color::DarkGray);
    assert_eq!(brighten_30_percent(Color::DarkGray), Color::Gray);
    assert_eq!(brighten_30_percent(Color::Gray), Color::White);
    assert_eq!(brighten_30_percent(Color::White), Color::White);
    assert_eq!(brighten_30_percent(Color::Rgb(255, 255, 255)), Color::Rgb(255, 255, 255));
    for other in [
        Color::Reset,
        Color::Red,
        Color::Green,
        Color::Yellow,
        Color::Blue,
        Color::Magenta,
        Color::Cyan,
        Color::LightRed,
        Color::LightGreen,
        Color::LightYellow,
        Color::LightBlue,
        Color::LightMagenta,
        Color::LightCyan,
        Color::Indexed(7),
    ] {
        assert_eq!(brighten_30_percent(other), other);
    }
}

#[test]
fn display_names_are_derived_from_identifiers() {
    assert_eq!(display_name("ocean"), "Ocean");
    assert_eq!(display_name("tokyo-night"), "Tokyo Night");
    assert_eq!(display_name("solarized_dark_high-contrast"), "Solarized Dark High Contrast");
    assert_eq!(display_name("a--b"), "A  B");
    assert_eq!(display_name("-lead"), " Lead");
    assert_eq!(display_name("trail_"), "Trail ");
    assert_eq!(display_name(""), "");
    assert_eq!(display_name("Already"), "Already");
    assert_eq!(display_name("9-lives"), "9 Lives");
    assert_eq!(display_name("été-long"), "été Long");
    assert_eq!(display_name("mIxEd"), "MIxEd");
}

#[test]
fn the_fallback_theme_is_the_built_in_one() {
    let theme = fallback_theme();
    assert_eq!(theme.name, "fallback");
    assert_eq!(theme.snake_head, Color::White);
    assert_eq!(theme.snake_body, Color::Blue);
    assert_eq!(theme.snake_tail, Color::DarkGray);
    assert_eq!(theme.food, Color::Red);
    assert_eq!(theme.terminal_bg, Color::Reset);
    assert_eq!(theme.field_bg, Color::Black);
    assert_eq!(theme.ui_bg, Color::DarkGray);
    assert_eq!(theme.ui_text, Color::White);
    assert_eq!(theme.ui_accent, Color::Green);
    assert_eq!(theme.ui_muted, Color::DarkGray);
    assert_eq!(theme.ui_bright, brighten_30_percent(theme.ui_muted));
}

#[test]
fn missing_tokens_take_the_defaults_of_their_slots() {
    let theme = parse_theme_from_str("bare-bones", r##"{ "theme": {} }"##)
        .expect("theme should parse");
    assert_eq!(theme.name, "Bare Bones");
    assert!(same_colors(&theme, &fallback_theme()));

    let file = ThemeFile { defs: vec![], theme: vec![entry("ui_muted", text("#000000"))] };
    let built = theme_from_file("x", &file);
    assert_eq!(built.ui_muted, Color::Rgb(0, 0, 0));
    assert_eq!(built.ui_bright, Color::Rgb(77, 77, 77));
    assert_eq!(built.food, Color::Red);
}

#[test]
fn files_of_another_shape_are_no_theme_files() {
    for invalid in [
        "",
        "not-json",
        "{",
        "[]",
        "null",
        "42",
        "\"theme\"",
        "{}",
        r##"{ "defs": {} }"##,
        r##"{ "theme": null }"##,
        r##"{ "theme": [] }"##,
        r##"{ "theme": "ocean" }"##,
        r##"{ "theme": {}, "defs": null }"##,
        r##"{ "theme": {}, "defs": [] }"##,
        r##"{ "theme": { "food": true } }"##,
        r##"{ "theme": { "food": null } }"##,
        r##"{ "theme": { "food": 256 } }"##,
        r##"{ "theme": { "food": -1 } }"##,
        r##"{ "theme": { "food": 1.5 } }"##,
        r##"{ "theme": { "food": 1.0 } }"##,
        r##"{ "theme": { "food": ["#000000", "#ffffff"] } }"##,
        r##"{ "theme": { "food": { "dark": true } } }"##,
        r##"{ "theme": { "food": { "dark": "#000000", "light": 300 } } }"##,
        r##"{ "theme": {}, "defs": { "x": false } }"##,
        r##"{ "theme": {} } trailing"##,
    ] {
        assert!(parse_theme_from_str("x", invalid).is_none(), "{invalid:?}");
    }
}

#[test]
fn unknown_members_and_tokens_are_passed_over() {
    let json = r##"
        {
          "version": 3,
          "theme": { "food": 9, "sparkles": "#ffffff", "extra": { "dark": 1, "mood": [1, 2] } },
          "defs": {}
        }
        "##;
    let theme = parse_theme_from_str("x", json).expect("theme should parse");
    assert_eq!(theme.food, Color::Indexed(9));
}

#[test]
fn json_is_read_into_its_tree() {
    let doc = parse_json(r##" { "b": [1, -2, 2.5, 18446744073709551615, 18446744073709551616],
        "a": "xA\n", "c": { "t": true, "n": null } } "##)
        .expect("the text is JSON");
    let Json::Object(members) = doc else { panic!("an object was written") };
    // Members stand in the order of their names.
    assert_eq!(members.len(), 3);
    assert_eq!(members[0].name, "a");
    assert_eq!(members[1].name, "b");
    assert_eq!(members[2].name, "c");
    assert!(matches!(&members[0].value, Json::Text(text) if text == "xA\n"));
    let Json::List(items) = &members[1].value else { panic!("a list was written") };
    assert_eq!(items.len(), 5);
    assert!(matches!(items[0], Json::Number(Some(1))));
    assert!(matches!(items[1], Json::Number(None)));
    assert!(matches!(items[2], Json::Number(None)));
    assert!(matches!(items[3], Json::Number(Some(18446744073709551615))));
    assert!(matches!(items[4], Json::Number(None)));
    let Json::Object(inner) = &members[2].value else { panic!("an object was written") };
    assert_eq!(inner.len(), 2);
    assert_eq!(inner[0].name, "n");
    assert!(matches!(inner[0].value, Json::Null));
    assert_eq!(inner[1].name, "t");
    assert!(matches!(inner[1].value, Json::Bool(true)));
}

#[test]
fn text_that_is_not_json_has_no_tree() {
    for invalid in ["", "{", "nul", "{\"a\": }", "[1,]", "'single'", "{} {}", "01"] {
        assert!(parse_json(invalid).is_none(), "{invalid:?}");
    }
    assert!(matches!(parse_json("null"), Some(Json::Null)));
    assert!(matches!(parse_json(" false "), Some(Json::Bool(false))));
    assert!(matches!(parse_json("0"), Some(Json::Number(Some(0)))));
    assert!(matches!(parse_json("-0"), Some(Json::Number(None))));
    assert!(matches!(parse_json("\"\""), Some(Json::Text(text)) if text.is_empty()));
    assert!(matches!(parse_json("[]"), Some(Json::List(items)) if items.is_empty()));
}

#[test]
fn the_last_of_repeated_members_counts() {
    let theme = parse_theme_from_str(
        "x",
        r##"{ "theme": { "food": "#010101", "food": "#020202" } }"##,
    )
    .expect("theme should parse");
    assert_eq!(theme.food, Color::Rgb(2, 2, 2));
}

#[test]
fn color_values_are_read_out_of_json() {
    let read = |raw: &str| color_value_of(&parse_json(raw).expect("the text is JSON"));
    assert!(matches!(read("\"ocean\""), Some(ColorValue::Text(text)) if text == "ocean"));
    assert!(matches!(read("0"), Some(ColorValue::Ansi(0))));
    assert!(matches!(read("255"), Some(ColorValue::Ansi(255))));
    assert!(read("256").is_none());
    assert!(read("true").is_none());
    assert!(read("null").is_none());
    assert!(read("[]").is_none());
    assert!(matches!(read("{}"), Some(ColorValue::Variant { dark: None, light: None })));
    let nested = read(r##"{ "dark": { "light": 3 }, "light": null }"##);
    let Some(ColorValue::Variant { dark: Some(dark), light: None }) = nested else {
        panic!("a variant was written")
    };
    assert!(matches!(
        *dark,
        ColorValue::Variant { dark: None, light: Some(ref light) }
            if matches!(**light, ColorValue::Ansi(3))
    ));
}

#[test]
fn theme_files_are_read_out_of_json() {
    let doc = parse_json(r##"{ "theme": { "b": 2, "a": "x" }, "defs": { "d": {} } }"##)
        .expect("the text is JSON");
    let file = theme_file_of(&doc).expect("a theme file was written");
    assert_eq!(file.defs.len(), 1);
    assert_eq!(file.defs[0].name, "d");
    assert_eq!(file.theme.len(), 2);
    assert_eq!(file.theme[0].name, "a");
    assert!(matches!(&file.theme[0].value, ColorValue::Text(text) if text == "x"));
    assert_eq!(file.theme[1].name, "b");
    assert!(matches!(file.theme[1].value, ColorValue::Ansi(2)));
    let theme = theme_from_json("from-json", &doc).expect("a theme file was written");
    assert_eq!(theme.name, "From Json");
    assert!(theme_from_json("x", &Json::Null).is_none());
}
