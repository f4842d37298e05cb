use vstd::prelude::*;

use crate::color::Color;
use crate::text::{chars_of, holds_text, same_text, texts_of};

verus! {

broadcast use vstd::seq_lib::group_seq_properties;

/// An unresolved color expression, as a theme file writes it.
#[derive(Debug)]
pub enum ColorValue {
    /// A literal (`#RRGGBB`, `none`) or the name of another expression.
    Text(String),
    /// An index into the 256-color palette.
    Ansi(u8),
    /// One expression for dark terminals and one for light ones; either
    /// side may be missing.
    Variant { dark: Option<Box<ColorValue>>, light: Option<Box<ColorValue>> },
}

/// What a [`ColorValue`] says, over sequences of characters.
pub ghost enum ColorExpr {
    Text(Seq<char>),
    Ansi(u8),
    Variant { dark: Option<Box<ColorExpr>>, light: Option<Box<ColorExpr>> },
}

/// What `value` says, over sequences of characters.
pub open spec fn expr_of(value: ColorValue) -> ColorExpr
    decreases value,
{
    match value {
        ColorValue::Text(text) => ColorExpr::Text(text@),
        ColorValue::Ansi(code) => ColorExpr::Ansi(code),
        ColorValue::Variant { dark, light } => ColorExpr::Variant {
            dark: match dark {
                Some(side) => Some(Box::new(expr_of(*side))),
                None => None,
            },
            light: match light {
                Some(side) => Some(Box::new(expr_of(*side))),
                None => None,
            },
        },
    }
}

impl View for ColorValue {
    type V = ColorExpr;

    open spec fn view(&self) -> ColorExpr {
        expr_of(*self)
    }
}

/// A named expression: one entry of a theme file's `defs` or `theme` table.
#[derive(Debug)]
pub struct Definition {
    pub name: String,
    pub value: ColorValue,
}

pub ghost struct DefinitionModel {
    pub name: Seq<char>,
    pub value: ColorExpr,
}

impl View for Definition {
    type V = DefinitionModel;

    open spec fn view(&self) -> DefinitionModel {
        DefinitionModel { name: self.name@, value: self.value@ }
    }
}

/// The two tables of a theme file. A name is looked up by its first entry.
#[derive(Debug)]
pub struct ThemeFile {
    /// Auxiliary named expressions.
    pub defs: Vec<Definition>,
    /// The expressions of the theme's tokens.
    pub theme: Vec<Definition>,
}

pub ghost struct ThemeDoc {
    pub defs: Seq<DefinitionModel>,
    pub theme: Seq<DefinitionModel>,
}

/// The models of a table's entries, in order.
pub open spec fn table_model(table: Seq<Definition>) -> Seq<DefinitionModel> {
    Seq::new(table.len(), |i: int| table[i]@)
}

impl View for ThemeFile {
    type V = ThemeDoc;

    open spec fn view(&self) -> ThemeDoc {
        ThemeDoc { defs: table_model(self.defs@), theme: table_model(self.theme@) }
    }
}

/// The value of a hexadecimal digit, of either case.
pub open spec fn hex_digit(c: char) -> Option<u8> {
    if '0' <= c <= '9' {
        Some(((c as u8) - 48) as u8)
    } else if 'a' <= c <= 'f' {
        Some(((c as u8) - 87) as u8)
    } else if 'A' <= c <= 'F' {
        Some(((c as u8) - 55) as u8)
    } else {
        None
    }
}

/// The byte that two hexadecimal digits write, the high digit first.
pub open spec fn hex_byte(high: char, low: char) -> Option<u8> {
    match (hex_digit(high), hex_digit(low)) {
        (Some(h), Some(l)) => Some((h * 16 + l) as u8),
        _ => None,
    }
}

/// The color that a text of the form `#RRGGBB` writes: the marker `#`, then
/// exactly six hexadecimal digits. Every other text writes none.
pub open spec fn hex_color(text: Seq<char>) -> Option<Color> {
    if text.len() == 7 && text[0] == '#' {
        match (hex_byte(text[1], text[2]), hex_byte(text[3], text[4]), hex_byte(text[5], text[6])) {
            (Some(red), Some(green), Some(blue)) => Some(Color::Rgb(red, green, blue)),
            _ => None,
        }
    } else {
        None
    }
}

/// Whether `text` is the word `none`, in any mix of upper and lower case.
pub open spec fn is_none_literal(text: Seq<char>) -> bool {
    &&& text.len() == 4
    &&& (text[0] == 'n' || text[0] == 'N')
    &&& (text[1] == 'o' || text[1] == 'O')
    &&& (text[2] == 'n' || text[2] == 'N')
    &&& (text[3] == 'e' || text[3] == 'E')
}

/// The expression of the first entry of `table` named `name`.
pub open spec fn find_definition(table: Seq<DefinitionModel>, name: Seq<char>) -> Option<
    ColorExpr,
>
    decreases table.len(),
{
    if table.len() == 0 {
        None
    } else if table[0].name == name {
        Some(table[0].value)
    } else {
        find_definition(table.drop_first(), name)
    }
}

/// The expression that `name` refers to: its entry in `defs`, else its
/// entry in `theme`.
pub open spec fn referenced(doc: ThemeDoc, name: Seq<char>) -> Option<ColorExpr> {
    match find_definition(doc.defs, name) {
        Some(expr) => Some(expr),
        None => find_definition(doc.theme, name),
    }
}

/// The names that occur in `table`.
pub open spec fn table_names(table: Seq<DefinitionModel>) -> Set<Seq<char>> {
    table.map_values(|d: DefinitionModel| d.name).to_set()
}

/// Every name that `doc` defines, in either table.
pub open spec fn defined_names(doc: ThemeDoc) -> Set<Seq<char>> {
    table_names(doc.defs).union(table_names(doc.theme))
}

/// The names that `doc` defines and that are not being resolved yet: what
/// is left to follow. Resolution follows a name only out of this set, and
/// the set is finite, so resolution ends.
pub open spec fn unvisited(doc: ThemeDoc, visiting: Set<Seq<char>>) -> Set<Seq<char>> {
    defined_names(doc).difference(visiting)
}

/// The color that `expr` resolves to in `doc`, if any, while the names in
/// `visiting` are being resolved.
///
/// A palette index is that palette color. A text is the terminal default
/// where it is `none`, its RGB color where it is `#RRGGBB`, and else a name:
/// one that is being resolved already resolves to nothing (a cycle), one
/// that `doc` does not define resolves to nothing, and any other resolves
/// to what its expression resolves to. A variant resolves to its preferred
/// side, and to its other side where the preferred one is missing or
/// resolves to nothing.
pub open spec fn resolve(
    doc: ThemeDoc,
    expr: ColorExpr,
    prefer_dark: bool,
    visiting: Set<Seq<char>>,
) -> Option<Color>
    decreases unvisited(doc, visiting).len(), expr,
{
    match expr {
        ColorExpr::Ansi(code) => Some(Color::Indexed(code)),
        ColorExpr::Text(text) => {
            if is_none_literal(text) {
                Some(Color::Reset)
            } else if hex_color(text) is Some {
                hex_color(text)
            } else if visiting.contains(text) {
                None
            } else {
                match referenced(doc, text) {
                    Some(target) => {
                        proof {
                            lemma_following_shrinks(doc, text, visiting);
                        }
                        resolve(doc, target, prefer_dark, visiting.insert(text))
                    },
                    None => None,
                }
            }
        },
        ColorExpr::Variant { dark, light } => {
            let preferred = if prefer_dark {
                dark
            } else {
                light
            };
            let other = if prefer_dark {
                light
            } else {
                dark
            };
            let first = match preferred {
                Some(side) => resolve(doc, *side, prefer_dark, visiting),
                None => None,
            };
            if first is Some {
                first
            } else {
                match other {
                    Some(side) => resolve(doc, *side, prefer_dark, visiting),
                    None => None,
                }
            }
        },
    }
}

/// The color of the token `token`: what its expression in the `theme` table
/// resolves to, while the names in `visiting` are being resolved. A token
/// without an entry has no color.
pub open spec fn resolve_token_spec(
    doc: ThemeDoc,
    token: Seq<char>,
    prefer_dark: bool,
    visiting: Set<Seq<char>>,
) -> Option<Color> {
    match find_definition(doc.theme, token) {
        Some(expr) => resolve(doc, expr, prefer_dark, visiting),
        None => None,
    }
}

/// A name that has an entry in `table` is one of the table's names.
pub proof fn lemma_found_is_named(table: Seq<DefinitionModel>, name: Seq<char>)
    requires
        find_definition(table, name) is Some,
    ensures
        table_names(table).contains(name),
    decreases table.len(),
{
    let names = table.map_values(|d: DefinitionModel| d.name);
    if table[0].name == name {
        assert(names[0] == name);
    } else {
        let rest = table.drop_first();
        lemma_found_is_named(rest, name);
        let rest_names = rest.map_values(|d: DefinitionModel| d.name);
        let k = choose|k: int| 0 <= k < rest_names.len() && rest_names[k] == name;
        assert(names[k + 1] == name);
    }
}

/// Following a defined name that is not being resolved yet leaves fewer
/// names to follow.
pub proof fn lemma_following_shrinks(doc: ThemeDoc, name: Seq<char>, visiting: Set<Seq<char>>)
    requires
        referenced(doc, name) is Some,
        !visiting.contains(name),
    ensures
        unvisited(doc, visiting.insert(name)).len() < unvisited(doc, visiting).len(),
{
    if find_definition(doc.defs, name) is Some {
        lemma_found_is_named(doc.defs, name);
    } else {
        lemma_found_is_named(doc.theme, name);
    }
    let before = unvisited(doc, visiting);
    assert(defined_names(doc).finite());
    assert(before.finite());
    assert(before.contains(name));
    assert(unvisited(doc, visiting.insert(name)) =~= before.remove(name));
}

/// Whether `text` is a well-formed color literal: the marker `#`, then
/// exactly six hexadecimal digits.
pub open spec fn is_hex_literal(text: Seq<char>) -> bool {
    &&& text.len() == 7
    &&& text[0] == '#'
    &&& forall|i: int| 1 <= i < 7 ==> (#[trigger] hex_digit(text[i])) is Some
}

/// The channel that the digits at `at` and `at + 1` of a literal write.
pub open spec fn channel_at(text: Seq<char>, at: int) -> int {
    16 * hex_digit(text[at])->0 + hex_digit(text[at + 1])->0
}

/// A well-formed literal `#RRGGBB` is exactly its three channels, and a
/// text that is not six hexadecimal digits after the marker is no color.
pub proof fn lemma_hex_color_exact(text: Seq<char>)
    ensures
        is_hex_literal(text) ==> hex_color(text) == Some(
            Color::Rgb(
                channel_at(text, 1) as u8,
                channel_at(text, 3) as u8,
                channel_at(text, 5) as u8,
            ),
        ),
        is_hex_literal(text) ==> 0 <= channel_at(text, 1) <= 255 && 0 <= channel_at(text, 3) <= 255
            && 0 <= channel_at(text, 5) <= 255,
        !is_hex_literal(text) ==> hex_color(text) is None,
{
    if is_hex_literal(text) {
        assert(hex_digit(text[1]) is Some);
        assert(hex_digit(text[2]) is Some);
        assert(hex_digit(text[3]) is Some);
        assert(hex_digit(text[4]) is Some);
        assert(hex_digit(text[5]) is Some);
        assert(hex_digit(text[6]) is Some);
    }
}

/// A well-formed literal resolves to its own color, whatever the file
/// defines and whatever names are being resolved.
pub proof fn lemma_hex_literal_resolves(
    doc: ThemeDoc,
    text: Seq<char>,
    prefer_dark: bool,
    visiting: Set<Seq<char>>,
)
    requires
        is_hex_literal(text),
    ensures
        resolve(doc, ColorExpr::Text(text), prefer_dark, visiting) == hex_color(text),
        hex_color(text) is Some,
{
    lemma_hex_color_exact(text);
}

/// A cycle of references resolves to nothing.
///
/// `names` is a cycle: each name refers to the next one, and the last to
/// the first. Then every name of the cycle resolves to nothing, whatever
/// names are being resolved already.
pub proof fn lemma_cycle_resolves_to_nothing(
    doc: ThemeDoc,
    names: Seq<Seq<char>>,
    i: int,
    prefer_dark: bool,
    visiting: Set<Seq<char>>,
)
    requires
        0 <= i < names.len(),
        forall|k: int|
            0 <= k < names.len() ==> !is_none_literal(#[trigger] names[k]) && hex_color(names[k])
                is None && referenced(doc, names[k]) == Some(
                ColorExpr::Text(names[(k + 1) % (names.len() as int)]),
            ),
    ensures
        resolve(doc, ColorExpr::Text(names[i]), prefer_dark, visiting) is None,
    decreases unvisited(doc, visiting).len(),
{
    let name = names[i];
    if !visiting.contains(name) {
        lemma_following_shrinks(doc, name, visiting);
        lemma_cycle_resolves_to_nothing(
            doc,
            names,
            (i + 1) % (names.len() as int),
            prefer_dark,
            visiting.insert(name),
        );
    }
}

/// A variant resolves by preference, not by the order in which its sides
/// are written: with the dark side preferred, a variant without a dark side
/// resolves to what its light side resolves to, and a variant without
/// sides resolves to nothing. A dark side that resolves is the result.
pub proof fn lemma_variant_preference(
    doc: ThemeDoc,
    dark: ColorExpr,
    light: ColorExpr,
    visiting: Set<Seq<char>>,
)
    ensures
        resolve(doc, ColorExpr::Variant { dark: None, light: Some(Box::new(light)) }, true, visiting)
            == resolve(doc, light, true, visiting),
        resolve(doc, ColorExpr::Variant { dark: None, light: None }, true, visiting) is None,
        resolve(doc, dark, true, visiting) is Some ==> resolve(
            doc,
            ColorExpr::Variant { dark: Some(Box::new(dark)), light: Some(Box::new(light)) },
            true,
            visiting,
        ) == resolve(doc, dark, true, visiting),
        resolve(doc, dark, true, visiting) is None ==> resolve(
            doc,
            ColorExpr::Variant { dark: Some(Box::new(dark)), light: Some(Box::new(light)) },
            true,
            visiting,
        ) == resolve(doc, light, true, visiting),
{
}

/// How deep the sides of `expr` nest; a text or a palette index counts 1.
pub open spec fn nesting(expr: ColorExpr) -> nat
    decreases expr,
{
    match expr {
        ColorExpr::Variant { dark, light } => {
            let d = match dark {
                Some(side) => nesting(*side),
                None => 0,
            };
            let l = match light {
                Some(side) => nesting(*side),
                None => 0,
            };
            if d >= l {
                d + 1
            } else {
                l + 1
            }
        },
        _ => 1,
    }
}

/// The names held by a stack of names being resolved.
pub open spec fn stack_names(stack: Seq<String>) -> Set<Seq<char>> {
    texts_of(stack).to_set()
}

/// Pushing a name on the stack adds it to the names being resolved.
pub proof fn lemma_stack_push(stack: Seq<String>, name: String)
    ensures
        stack_names(stack.push(name)) == stack_names(stack).insert(name@),
{
    let before = texts_of(stack);
    let after = texts_of(stack.push(name));
    assert(after =~= before.push(name@));
    assert forall|n: Seq<char>| after.to_set().contains(n) <==> before.to_set().insert(
        name@,
    ).contains(n) by {
        if after.contains(n) {
            let k = choose|k: int| 0 <= k < after.len() && after[k] == n;
            if k < before.len() {
                assert(before[k] == n);
            }
        }
        if before.contains(n) {
            let k = choose|k: int| 0 <= k < before.len() && before[k] == n;
            assert(after[k] == n);
        }
        if n == name@ {
            assert(after[before.len() as int] == n);
        }
    }
    assert(after.to_set() =~= before.to_set().insert(name@));
}

/// The value of a hexadecimal digit, of either case.
pub fn parse_hex_digit(c: char) -> (digit: Option<u8>)
    ensures
        digit == hex_digit(c),
        digit matches Some(d) ==> d < 16,
{
    if '0' <= c && c <= '9' {
        Some((c as u8) - 48)
    } else if 'a' <= c && c <= 'f' {
        Some((c as u8) - 87)
    } else if 'A' <= c && c <= 'F' {
        Some((c as u8) - 55)
    } else {
        None
    }
}

/// The byte that two hexadecimal digits write, the high digit first.
pub fn parse_hex_byte(high: char, low: char) -> (byte: Option<u8>)
    ensures
        byte == hex_byte(high, low),
{
    match (parse_hex_digit(high), parse_hex_digit(low)) {
        (Some(h), Some(l)) => Some(h * 16 + l),
        _ => None,
    }
}

/// Parses a color literal of the form `#RRGGBB`.
///
/// Returns the RGB color where `value` is the marker `#` followed by
/// exactly six hexadecimal digits, and nothing for every other text.
pub fn parse_hex_color(value: &str) -> (color: Option<Color>)
    ensures
        color == hex_color(value@),
{
    let chars = chars_of(value);
    if chars.len() != 7 || chars[0] != '#' {
        return None;
    }
    match (
        parse_hex_byte(chars[1], chars[2]),
        parse_hex_byte(chars[3], chars[4]),
        parse_hex_byte(chars[5], chars[6]),
    ) {
        (Some(red), Some(green), Some(blue)) => Some(Color::Rgb(red, green, blue)),
        _ => None,
    }
}

/// Whether `value` is the word `none`, in any mix of upper and lower case.
pub fn is_none_text(value: &str) -> (none: bool)
    ensures
        none == is_none_literal(value@),
{
    let chars = chars_of(value);
    chars.len() == 4 && (chars[0] == 'n' || chars[0] == 'N') && (chars[1] == 'o' || chars[1]
        == 'O') && (chars[2] == 'n' || chars[2] == 'N') && (chars[3] == 'e' || chars[3] == 'E')
}

/// Looks `name` up in `table`: the expression of its first entry.
pub fn lookup<'a>(table: &'a Vec<Definition>, name: &str) -> (found: Option<&'a ColorValue>)
    ensures
        match found {
            Some(value) => find_definition(table_model(table@), name@) == Some(value@),
            None => find_definition(table_model(table@), name@) is None,
        },
{
    let ghost model = table_model(table@);
    let mut i: usize = 0;
    while i < table.len()
        invariant
            i <= table.len(),
            model == table_model(table@),
            find_definition(model, name@) == find_definition(model.skip(i as int), name@),
        decreases table.len() - i,
    {
        proof {
            assert(model.skip(i as int).drop_first() =~= model.skip(i as int + 1));
            assert(model.skip(i as int)[0] == table@[i as int]@);
        }
        if same_text(table[i].name.as_str(), name) {
            return Some(&table[i].value);
        }
        i += 1;
    }
    None
}

/// Resolves the expression of the token `token` in the `theme` table of
/// `file`; a token without an entry resolves to nothing.
///
/// `stack` holds the names being resolved; it is the same after the call.
pub fn resolve_token(file: &ThemeFile, token: &str, prefer_dark: bool, stack: &mut Vec<String>) -> (color:
    Option<Color>)
    ensures
        color == resolve_token_spec(file@, token@, prefer_dark, stack_names(old(stack)@)),
        final(stack)@ == old(stack)@,
{
    match lookup(&file.theme, token) {
        Some(value) => resolve_value(file, value, prefer_dark, stack),
        None => None,
    }
}

/// Resolves `value` in `file` to a concrete color, following names through
/// `defs` and `theme` and choosing between the sides of variants.
///
/// `stack` holds the names being resolved: a name that is met again while
/// it is on the stack resolves to nothing, so a cycle of references ends.
/// The stack is the same after the call.
pub fn resolve_value(
    file: &ThemeFile,
    value: &ColorValue,
    prefer_dark: bool,
    stack: &mut Vec<String>,
) -> (color: Option<Color>)
    ensures
        color == resolve(file@, value@, prefer_dark, stack_names(old(stack)@)),
        final(stack)@ == old(stack)@,
    decreases unvisited(file@, stack_names(old(stack)@)).len(), nesting(value@),
{
    match value {
        ColorValue::Text(text) => parse_color_string(file, text.as_str(), prefer_dark, stack),
        ColorValue::Ansi(code) => Some(Color::Indexed(*code)),
        ColorValue::Variant { dark, light } => {
            let preferred = if prefer_dark {
                dark
            } else {
                light
            };
            let other = if prefer_dark {
                light
            } else {
                dark
            };
            let first = match preferred {
                Some(side) => resolve_value(file, side, prefer_dark, stack),
                None => None,
            };
            if first.is_some() {
                first
            } else {
                match other {
                    Some(side) => resolve_value(file, side, prefer_dark, stack),
                    None => None,
                }
            }
        },
    }
}

/// Resolves a text: the literal `none`, a literal `#RRGGBB`, or else a
/// name, which is followed unless it is on the stack already.
pub fn parse_color_string(
    file: &ThemeFile,
    value: &str,
    prefer_dark: bool,
    stack: &mut Vec<String>,
) -> (color: Option<Color>)
    ensures
        color == resolve(file@, ColorExpr::Text(value@), prefer_dark, stack_names(old(stack)@)),
        final(stack)@ == old(stack)@,
    decreases unvisited(file@, stack_names(old(stack)@)).len(), 0nat,
{
    if is_none_text(value) {
        return Some(Color::Reset);
    }
    if let Some(color) = parse_hex_color(value) {
        return Some(color);
    }
    if holds_text(stack, value) {
        return None;
    }
    let referenced = match lookup(&file.defs, value) {
        Some(found) => Some(found),
        None => lookup(&file.theme, value),
    };
    match referenced {
        Some(target) => {
            let name = value.to_owned();
            proof {
                lemma_following_shrinks(file@, value@, stack_names(stack@));
                lemma_stack_push(stack@, name);
            }
            stack.push(name);
            let resolved = resolve_value(file, target, prefer_dark, stack);
            let _ = stack.pop();
            assert(stack@ =~= old(stack)@);
            resolved
        },
        None => None,
    }
}

} // verus!
