use vstd::prelude::*;

use crate::color::Color;
use crate::config::{fallback_theme, fallback_theme_model, Theme, ThemeModel};
use crate::json::{find_member, json_document, member, parse_json, Json, Member};
use crate::resolver::{
    find_definition, hex_color, is_hex_literal, is_none_literal, lemma_cycle_resolves_to_nothing,
    lemma_hex_literal_resolves, referenced, resolve_token, resolve_token_spec, stack_names,
    table_model, ColorExpr, ColorValue, Definition, DefinitionModel, ThemeDoc, ThemeFile,
};
use crate::text::{ascii_upper, chars_of, same_text, to_ascii_upper};

verus! {

/// A channel moved 30% of the way to 255, the step rounded to the nearest
/// integer.
pub open spec fn brightened_channel(channel: u8) -> int {
    channel + ((255 - channel) * 30 + 50) / 100
}

/// The brighter companion of `color`: an RGB color has each channel
/// brightened; black, dark gray and gray each move one step up the ladder
/// black, dark gray, gray, white; every other color is its own companion.
pub open spec fn brightened(color: Color) -> Color {
    match color {
        Color::Rgb(r, g, b) => Color::Rgb(
            brightened_channel(r) as u8,
            brightened_channel(g) as u8,
            brightened_channel(b) as u8,
        ),
        Color::Black => Color::DarkGray,
        Color::DarkGray => Color::Gray,
        Color::Gray => Color::White,
        other => other,
    }
}

/// Brightening never leaves the range of a channel, and never darkens.
pub proof fn lemma_brightened_channel_in_range(channel: u8)
    ensures
        channel <= brightened_channel(channel) <= 255,
{
}

/// White is the ceiling of the ladder: brightening it changes nothing, and
/// so does brightening a color that was brightened up to it.
pub proof fn lemma_brightened_white()
    ensures
        brightened(Color::White) == Color::White,
        brightened(Color::Rgb(255, 255, 255)) == Color::Rgb(255, 255, 255),
        brightened(brightened(Color::Gray)) == brightened(Color::Gray),
{
}

/// Brightens one channel by 30% of its remaining headroom toward 255.
pub fn brighten_channel_30_percent(channel: u8) -> (brighter: u8)
    ensures
        brighter == brightened_channel(channel),
        channel <= brighter,
{
    let remaining: u16 = 255u16 - (channel as u16);
    let increase: u16 = (remaining * 30 + 50) / 100;
    let sum: u16 = (channel as u16) + increase;
    if sum > 255 {
        255
    } else {
        sum as u8
    }
}

/// Brightens `color` by 30%: arithmetic on RGB channels, one step up the
/// gray ladder for black, dark gray and gray.
pub fn brighten_30_percent(color: Color) -> (brighter: Color)
    ensures
        brighter == brightened(color),
{
    match color {
        Color::Rgb(r, g, b) => Color::Rgb(
            brighten_channel_30_percent(r),
            brighten_channel_30_percent(g),
            brighten_channel_30_percent(b),
        ),
        Color::Black => Color::DarkGray,
        Color::DarkGray => Color::Gray,
        Color::Gray => Color::White,
        Color::White => Color::White,
        other => other,
    }
}

/// Whether `c` separates the segments of a theme identifier.
pub open spec fn is_separator(c: char) -> bool {
    c == '-' || c == '_'
}

/// The character of a display name at position `i` of the identifier `id`:
/// a separator becomes one space, the first character of a segment is
/// upper-cased, every other character stays.
pub open spec fn display_char(id: Seq<char>, i: int) -> char {
    if is_separator(id[i]) {
        ' '
    } else if i == 0 || is_separator(id[i - 1]) {
        ascii_upper(id[i])
    } else {
        id[i]
    }
}

/// The human-readable name of the theme with identifier `id`: the segments
/// between `-` and `_`, each with its first character upper-cased, joined
/// by one space for each separator.
pub open spec fn display_name_of(id: Seq<char>) -> Seq<char> {
    Seq::new(id.len(), |i: int| display_char(id, i))
}

/// Derives a theme's display name from its identifier.
pub fn display_name(id: &str) -> (name: String)
    ensures
        name@ == display_name_of(id@),
{
    let chars = chars_of(id);
    let mut output = String::new();
    let mut i: usize = 0;
    while i < chars.len()
        invariant
            i <= chars.len(),
            chars@ == id@,
            output@ == display_name_of(id@).take(i as int),
        decreases chars.len() - i,
    {
        let c = chars[i];
        let shown = if c == '-' || c == '_' {
            ' '
        } else if i == 0 || chars[i - 1] == '-' || chars[i - 1] == '_' {
            to_ascii_upper(c)
        } else {
            c
        };
        output.push(shown);
        assert(display_name_of(id@).take(i as int + 1) =~= display_name_of(id@).take(
            i as int,
        ).push(shown));
        i += 1;
    }
    assert(display_name_of(id@).take(chars.len() as int) =~= display_name_of(id@));
    output
}

/// The color of the slot `token` in a theme read from `doc`: what the token
/// resolves to, preferring dark sides, and `default` where it resolves to
/// nothing.
pub open spec fn slot_color(doc: ThemeDoc, token: Seq<char>, default: Color) -> Color {
    match resolve_token_spec(doc, token, true, Set::empty()) {
        Some(color) => color,
        None => default,
    }
}

/// The theme that the file `doc` with identifier `id` describes.
///
/// Each slot holds what its token resolves to, and the built-in default of
/// that slot where the token is missing or does not resolve. The slot
/// `ui_bright` defaults to the brightened `ui_muted` of this theme.
pub open spec fn theme_of_doc(id: Seq<char>, doc: ThemeDoc) -> ThemeModel {
    let fallback = fallback_theme_model();
    let ui_muted = slot_color(doc, "ui_muted"@, fallback.ui_muted);
    ThemeModel {
        name: display_name_of(id),
        snake_head: slot_color(doc, "snake_head"@, fallback.snake_head),
        snake_body: slot_color(doc, "snake_body"@, fallback.snake_body),
        snake_tail: slot_color(doc, "snake_tail"@, fallback.snake_tail),
        food: slot_color(doc, "food"@, fallback.food),
        terminal_bg: slot_color(doc, "terminal_bg"@, fallback.terminal_bg),
        field_bg: slot_color(doc, "field_bg"@, fallback.field_bg),
        ui_bg: slot_color(doc, "ui_bg"@, fallback.ui_bg),
        ui_text: slot_color(doc, "ui_text"@, fallback.ui_text),
        ui_accent: slot_color(doc, "ui_accent"@, fallback.ui_accent),
        ui_muted,
        ui_bright: slot_color(doc, "ui_bright"@, brightened(ui_muted)),
    }
}

/// A token that is written as a well-formed literal takes the literal's
/// color, whatever else the file holds: a cycle among other names does not
/// reach it.
pub proof fn lemma_literal_slot(doc: ThemeDoc, token: Seq<char>, text: Seq<char>, default: Color)
    requires
        find_definition(doc.theme, token) == Some(ColorExpr::Text(text)),
        is_hex_literal(text),
    ensures
        Some(slot_color(doc, token, default)) == hex_color(text),
{
    lemma_hex_literal_resolves(doc, text, true, Set::empty());
}

/// A token that refers into a cycle of references takes the default of its
/// slot.
pub proof fn lemma_cyclic_slot_takes_default(
    doc: ThemeDoc,
    token: Seq<char>,
    names: Seq<Seq<char>>,
    i: int,
    default: Color,
)
    requires
        0 <= i < names.len(),
        find_definition(doc.theme, token) == Some(ColorExpr::Text(names[i])),
        forall|k: int|
            0 <= k < names.len() ==> !is_none_literal(#[trigger] names[k]) && hex_color(names[k])
                is None && referenced(doc, names[k]) == Some(
                ColorExpr::Text(names[(k + 1) % (names.len() as int)]),
            ),
    ensures
        slot_color(doc, token, default) == default,
{
    lemma_cycle_resolves_to_nothing(doc, names, i, true, Set::empty());
}

/// Resolves one slot of a theme: the token's color, or `default`.
fn resolve_slot(file: &ThemeFile, token: &str, default: Color) -> (color: Color)
    ensures
        color == slot_color(file@, token@, default),
{
    let mut stack: Vec<String> = Vec::new();
    assert(stack_names(stack@) =~= Set::empty());
    match resolve_token(file, token, true, &mut stack) {
        Some(color) => color,
        None => default,
    }
}

/// Builds the theme that `file` describes, named after the identifier `id`.
///
/// A token that is missing or does not resolve takes the built-in default
/// of its slot; it never fails the theme.
pub fn theme_from_file(id: &str, file: &ThemeFile) -> (theme: Theme)
    ensures
        theme@ == theme_of_doc(id@, file@),
{
    let fallback = fallback_theme();
    let ui_muted = resolve_slot(file, "ui_muted", fallback.ui_muted);
    let ui_bright_default = brighten_30_percent(ui_muted);
    Theme {
        name: display_name(id),
        snake_head: resolve_slot(file, "snake_head", fallback.snake_head),
        snake_body: resolve_slot(file, "snake_body", fallback.snake_body),
        snake_tail: resolve_slot(file, "snake_tail", fallback.snake_tail),
        food: resolve_slot(file, "food", fallback.food),
        terminal_bg: resolve_slot(file, "terminal_bg", fallback.terminal_bg),
        field_bg: resolve_slot(file, "field_bg", fallback.field_bg),
        ui_bg: resolve_slot(file, "ui_bg", fallback.ui_bg),
        ui_text: resolve_slot(file, "ui_text", fallback.ui_text),
        ui_accent: resolve_slot(file, "ui_accent", fallback.ui_accent),
        ui_muted,
        ui_bright: resolve_slot(file, "ui_bright", ui_bright_default),
    }
}

/// The color expression that the JSON value `json` writes, if it is one: a
/// string, an integer from 0 to 255, or an object whose members `dark` and
/// `light`, where it has them, are `null` or color expressions themselves.
pub open spec fn color_expr_of(json: Json) -> Option<ColorExpr>
    decreases json,
{
    match json {
        Json::Text(text) => Some(ColorExpr::Text(text@)),
        Json::Number(Some(n)) => if n <= 255 {
            Some(ColorExpr::Ansi(n as u8))
        } else {
            None
        },
        Json::Object(members) => match (
            side_expr_of(members@, "dark"@),
            side_expr_of(members@, "light"@),
        ) {
            (Some(dark), Some(light)) => Some(ColorExpr::Variant { dark, light }),
            _ => None,
        },
        _ => None,
    }
}

/// The side `key` of the variant that an object with the members `members`
/// writes, by the first member of that name: no side where the member is
/// missing or `null`, the member's expression where it is one, and nothing
/// where it is neither.
pub open spec fn side_expr_of(members: Seq<Member>, key: Seq<char>) -> Option<
    Option<Box<ColorExpr>>,
>
    decreases members,
{
    if members.len() == 0 {
        Some(None)
    } else if members[0].name@ == key {
        match members[0].value {
            Json::Null => Some(None),
            value => match color_expr_of(value) {
                Some(expr) => Some(Some(Box::new(expr))),
                None => None,
            },
        }
    } else {
        side_expr_of(members.drop_first(), key)
    }
}

/// The sides of a variant do not depend on the order in which the object
/// writes them.
pub proof fn lemma_variant_order(dark: Member, light: Member)
    requires
        dark.name@ == "dark"@,
        light.name@ == "light"@,
    ensures
        side_expr_of(seq![dark, light], "dark"@) == side_expr_of(seq![light, dark], "dark"@),
        side_expr_of(seq![dark, light], "light"@) == side_expr_of(seq![light, dark], "light"@),
{
    reveal_strlit("dark");
    reveal_strlit("light");
    let a = seq![dark, light];
    let b = seq![light, dark];
    assert(a.drop_first() =~= seq![light]);
    assert(b.drop_first() =~= seq![dark]);
    assert(seq![light].drop_first() =~= Seq::<Member>::empty());
    assert(seq![dark].drop_first() =~= Seq::<Member>::empty());
    assert("dark"@.len() != "light"@.len());
    reveal_with_fuel(side_expr_of, 3);
}

/// The model of one side of a variant.
pub open spec fn side_model(side: Option<Box<ColorValue>>) -> Option<Box<ColorExpr>> {
    match side {
        Some(value) => Some(Box::new(value@)),
        None => None,
    }
}

/// The table that the JSON value `json` writes, if it is one: an object
/// each of whose members is a color expression. The entries stand in the
/// order of the members.
pub open spec fn table_of(json: Json) -> Option<Seq<DefinitionModel>> {
    match json {
        Json::Object(members) => if forall|i: int|
            0 <= i < members@.len() ==> (#[trigger] color_expr_of(members@[i].value)) is Some {
            Some(
                Seq::new(
                    members@.len(),
                    |i: int|
                        DefinitionModel {
                            name: members@[i].name@,
                            value: color_expr_of(members@[i].value)->0,
                        },
                ),
            )
        } else {
            None
        },
        _ => None,
    }
}

/// The theme file that the JSON document `json` writes, if it is one: an
/// object with a table under `theme` and, where it has a member `defs`, a
/// table under it too. Other members are passed over.
pub open spec fn theme_doc_of(json: Json) -> Option<ThemeDoc> {
    match json {
        Json::Object(members) => {
            let defs = match member(members@, "defs"@) {
                Some(value) => table_of(value),
                None => Some(Seq::empty()),
            };
            let theme = match member(members@, "theme"@) {
                Some(value) => table_of(value),
                None => None,
            };
            match (defs, theme) {
                (Some(defs), Some(theme)) => Some(ThemeDoc { defs, theme }),
                _ => None,
            }
        },
        _ => None,
    }
}

/// The theme that the JSON document `json` describes under the identifier
/// `id`, if the document is a theme file.
pub open spec fn theme_of_json(id: Seq<char>, json: Json) -> Option<ThemeModel> {
    match theme_doc_of(json) {
        Some(doc) => Some(theme_of_doc(id, doc)),
        None => None,
    }
}

/// The theme that the text `raw` describes under the identifier `id`:
/// nothing where `raw` is not JSON or its document is not a theme file.
pub open spec fn theme_of_text(id: Seq<char>, raw: Seq<char>) -> Option<ThemeModel> {
    match json_document(raw) {
        Some(json) => theme_of_json(id, json),
        None => None,
    }
}

/// Reads a color expression out of a JSON value.
///
/// Returns nothing where the value is not a color expression: a boolean,
/// `null`, a list, a number that is not an integer from 0 to 255, or an
/// object with a side that is neither `null` nor a color expression.
pub fn color_value_of(json: &Json) -> (value: Option<ColorValue>)
    ensures
        match value {
            Some(v) => color_expr_of(*json) == Some(v@),
            None => color_expr_of(*json) is None,
        },
    decreases json,
{
    match json {
        Json::Text(text) => Some(ColorValue::Text(text.clone())),
        Json::Number(Some(n)) => {
            if *n <= 255 {
                Some(ColorValue::Ansi(*n as u8))
            } else {
                None
            }
        },
        Json::Object(members) => {
            let dark = variant_side(members, "dark");
            let light = variant_side(members, "light");
            match (dark, light) {
                (Some(dark), Some(light)) => Some(ColorValue::Variant { dark, light }),
                _ => None,
            }
        },
        _ => None,
    }
}

/// Reads the side `key` of a variant out of the members of its object.
///
/// The outer `Option` is nothing where the member is neither `null` nor a
/// color expression; the inner one is nothing where the side is missing.
pub fn variant_side(members: &Vec<Member>, key: &str) -> (side: Option<Option<Box<ColorValue>>>)
    ensures
        match side {
            Some(found) => side_expr_of(members@, key@) == Some(side_model(found)),
            None => side_expr_of(members@, key@) is None,
        },
    decreases members@,
{
    let mut i: usize = 0;
    assert(members@.skip(0) =~= members@);
    while i < members.len()
        invariant
            i <= members.len(),
            side_expr_of(members@, key@) == side_expr_of(members@.skip(i as int), key@),
        decreases members.len() - i,
    {
        proof {
            assert(members@.skip(i as int).drop_first() =~= members@.skip(i as int + 1));
        }
        if same_text(members[i].name.as_str(), key) {
            return match &members[i].value {
                Json::Null => Some(None),
                value => match color_value_of(value) {
                    Some(expr) => Some(Some(Box::new(expr))),
                    None => None,
                },
            };
        }
        i += 1;
    }
    Some(None)
}

/// Reads a table of named color expressions out of a JSON value.
///
/// Returns nothing where the value is not an object or one of its members
/// is not a color expression.
pub fn table_of_json(json: &Json) -> (table: Option<Vec<Definition>>)
    ensures
        match table {
            Some(entries) => table_of(*json) == Some(table_model(entries@)),
            None => table_of(*json) is None,
        },
{
    match json {
        Json::Object(members) => {
            let mut table: Vec<Definition> = Vec::new();
            let mut i: usize = 0;
            while i < members.len()
                invariant
                    *json == Json::Object(*members),
                    i <= members.len(),
                    table@.len() == i,
                    forall|k: int|
                        0 <= k < i ==> (#[trigger] color_expr_of(members@[k].value)) == Some(
                            table@[k].value@,
                        ) && table@[k].name@ == members@[k].name@,
                decreases members.len() - i,
            {
                match color_value_of(&members[i].value) {
                    Some(value) => {
                        table.push(Definition { name: members[i].name.clone(), value });
                    },
                    None => {
                        assert(color_expr_of(members@[i as int].value) is None);
                        return None;
                    },
                }
                i += 1;
            }
            assert(table_of(*json)->0 =~= table_model(table@));
            Some(table)
        },
        _ => None,
    }
}

/// Reads a theme file out of a JSON document.
///
/// Returns nothing where the document is not an object, has no table under
/// `theme`, or has a member `defs` that is not a table.
pub fn theme_file_of(json: &Json) -> (file: Option<ThemeFile>)
    ensures
        match file {
            Some(f) => theme_doc_of(*json) == Some(f@),
            None => theme_doc_of(*json) is None,
        },
{
    match json {
        Json::Object(members) => {
            let defs = match find_member(members, "defs") {
                Some(value) => table_of_json(value),
                None => Some(Vec::new()),
            };
            let theme = match find_member(members, "theme") {
                Some(value) => table_of_json(value),
                None => None,
            };
            match (defs, theme) {
                (Some(defs), Some(theme)) => {
                    let file = ThemeFile { defs, theme };
                    assert(file@.defs =~= theme_doc_of(*json)->0.defs);
                    Some(file)
                },
                _ => None,
            }
        },
        _ => None,
    }
}

/// Builds the theme that a JSON document describes, named after the
/// identifier `id`; nothing where the document is not a theme file.
pub fn theme_from_json(id: &str, json: &Json) -> (theme: Option<Theme>)
    ensures
        match theme {
            Some(t) => theme_of_json(id@, *json) == Some(t@),
            None => theme_of_json(id@, *json) is None,
        },
{
    match theme_file_of(json) {
        Some(file) => Some(theme_from_file(id, &file)),
        None => None,
    }
}

/// Parses the text of one theme file into a theme named after the
/// identifier `id`.
///
/// Returns nothing where the text is not JSON or not a theme file. A token
/// that does not resolve never fails the file: its slot takes the built-in
/// default.
pub fn parse_theme_from_str(id: &str, raw: &str) -> (theme: Option<Theme>)
    ensures
        match theme {
            Some(t) => theme_of_text(id@, raw@) == Some(t@),
            None => theme_of_text(id@, raw@) is None,
        },
{
    match parse_json(raw) {
        Some(json) => theme_from_json(id, &json),
        None => None,
    }
}

} // verus!
