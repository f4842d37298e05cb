use vstd::prelude::*;

use crate::text::{ascii_lower, chars_of, push_repeated, repeated, to_ascii_lower};

verus! {

/// Number of rows per character in this font.
pub const FONT_HEIGHT: usize = 4;

/// Default spacing (in columns) between characters.
pub const CHAR_SPACING: usize = 1;

/// The glyphs of the font: each character with its four rows, drawn with
/// full blocks, half blocks and spaces. Letters are listed in lower case.
pub const GLYPHS: [(char, [&'static str; 4]); 47] = [
    ('a', ["    ", "▀▀▀█", "█▀▀█", "▀▀▀▀"]),
    ('b', ["▄   ", "█▀▀█", "█  █", "▀▀▀▀"]),
    ('c', ["    ", "█▀▀▀", "█   ", "▀▀▀▀"]),
    ('d', ["   ▄", "█▀▀█", "█  █", "▀▀▀▀"]),
    ('e', ["    ", "█▀▀█", "█▀▀▀", "▀▀▀▀"]),
    ('f', [" ▄▀ ", " █  ", "▀█▀▀", " ▀  "]),
    ('g', ["    ", "█▀▀█", "▀▀▀█", "▀▀▀▀"]),
    ('h', ["    ", "█  █", "█▀▀█", "▀  ▀"]),
    ('i', ["▀", "█", "█", "▀"]),
    ('j', ["  ▄", "  █", "  █", "▀█ "]),
    ('k', ["    ", "█  █", "█▀▀▄", "▀  ▀"]),
    ('l', ["    ", "█   ", "█   ", "▀▀▀▀"]),
    ('m', ["     ", "█▀▄▀█", "█ █ █", "▀ ▀ ▀"]),
    ('n', ["    ", "█▀▀▄", "█  █", "▀  ▀"]),
    ('o', ["    ", "█▀▀█", "█  █", "▀▀▀▀"]),
    ('p', ["    ", "███▄", "███▀", "█   "]),
    ('q', ["    ", "▄██▄", "█ ▄█", "▀█▀█"]),
    ('r', ["    ", "▄▀▀▀", "█   ", "▀   "]),
    ('s', ["    ", "█▀▀▀", "▀▀▀█", "▀▀▀▀"]),
    ('t', ["     ", "▀▀█▀▀", "  █  ", "  ▀  "]),
    ('u', ["    ", "█  █", "█  █", "▀██▀"]),
    ('v', ["    ", "█  █", "▀▄▄▀", " ██ "]),
    ('w', ["     ", "█   █", "█ █ █", "▀█▀█▀"]),
    ('x', ["    ", "█  █", " ██ ", "█  █"]),
    ('y', ["    ", "█  █", "▀██▀", " ██ "]),
    ('z', ["    ", "████", " ▄█▀", "████"]),
    ('0', ["    ", "▄██▄", "█▄▀█", "▀██▀"]),
    ('1', ["   ", "▄█ ", " █ ", "███"]),
    ('2', ["    ", "▄██▄", "▄██▀", "████"]),
    ('3', ["    ", "███▄", " ██▄", "███▀"]),
    ('4', ["    ", "█  █", "▀███", "   █"]),
    ('5', ["    ", "████", "▀██▄", "███▀"]),
    ('6', ["    ", "▄███", "███▄", "▀██▀"]),
    ('7', ["    ", "████", "  ▄█", "  █ "]),
    ('8', ["    ", "▄██▄", "▄██▄", "▀██▀"]),
    ('9', ["    ", "▄██▄", "▀███", " ██▀"]),
    (' ', ["  ", "  ", "  ", "  "]),
    ('!', ["  ", "██", "██", "▀▀"]),
    ('.', ["  ", "  ", "  ", "▀▀"]),
    (',', ["  ", "  ", "  ", "▄█"]),
    (':', ["  ", "▄▄", "  ", "▀▀"]),
    ('-', ["    ", "    ", "████", "    "]),
    ('?', ["    ", "▄██▄", " ▄█▀", " ▀▀ "]),
    ('/', ["    ", "  ▄█", " █▀ ", "█▀  "]),
    ('\'', ["  ", "██", "▀▀", "  "]),
    ('"', ["     ", "██ ██", "▀▀ ▀▀", "     "]),
    ('#', ["     ", " █ █ ", "█████", " █ █ "]),
];

/// The first place among the first `n` glyphs that draws the character `c`.
pub open spec fn glyph_entry(c: char, n: int) -> Option<int>
    decreases n,
{
    if n <= 0 {
        None
    } else {
        match glyph_entry(c, n - 1) {
            Some(k) => Some(k),
            None => if GLYPHS@[n - 1].0 == c {
                Some(n - 1)
            } else {
                None
            },
        }
    }
}

/// The four rows that draw the character `c`, if the font has it. A letter
/// is drawn the same in upper and in lower case.
pub open spec fn glyph_rows(c: char) -> Option<[&'static str; 4]> {
    match glyph_entry(ascii_lower(c), GLYPHS@.len() as int) {
        Some(k) => Some(GLYPHS@[k].1),
        None => None,
    }
}

/// The width of the character `c` in columns: the length of its first
/// row, and 0 where the font does not have it.
pub open spec fn glyph_width_of(c: char) -> nat {
    match glyph_rows(c) {
        Some(rows) => rows[0]@.len(),
        None => 0,
    }
}

/// The number of characters of `text` that the font has.
pub open spec fn drawn_count(text: Seq<char>) -> nat
    decreases text.len(),
{
    if text.len() == 0 {
        0
    } else if glyph_rows(text.last()) is Some {
        drawn_count(text.drop_last()) + 1
    } else {
        drawn_count(text.drop_last())
    }
}

/// The widths of the characters of `text`, added up.
pub open spec fn glyph_widths(text: Seq<char>) -> nat
    decreases text.len(),
{
    if text.len() == 0 {
        0
    } else {
        glyph_widths(text.drop_last()) + glyph_width_of(text.last())
    }
}

/// The width of `text` as it is drawn: the widths of its characters, and
/// `spacing` columns between each two that the font has.
pub open spec fn text_width_of(text: Seq<char>, spacing: nat) -> nat {
    if drawn_count(text) == 0 {
        glyph_widths(text)
    } else {
        glyph_widths(text) + spacing * (drawn_count(text) - 1) as nat
    }
}

/// Row `row` of `text` as it is drawn: that row of each character that
/// the font has, with `spacing` spaces between each two. Characters that
/// the font does not have are passed over.
pub open spec fn rendered_row(text: Seq<char>, spacing: nat, row: int) -> Seq<char>
    decreases text.len(),
{
    if text.len() == 0 {
        Seq::empty()
    } else {
        let before = rendered_row(text.drop_last(), spacing, row);
        match glyph_rows(text.last()) {
            Some(rows) => if drawn_count(text.drop_last()) == 0 {
                before + rows[row]@
            } else {
                before + repeated(' ', spacing as int) + rows[row]@
            },
            None => before,
        }
    }
}

/// A glyph found among the first glyphs is the glyph of the whole font.
pub proof fn lemma_glyph_entry_prefix(c: char, n: int, m: int)
    requires
        0 <= n <= m,
        glyph_entry(c, n) is Some,
    ensures
        glyph_entry(c, m) == glyph_entry(c, n),
    decreases m - n,
{
    if n < m {
        lemma_glyph_entry_prefix(c, n + 1, m);
    }
}

/// The first row of a text is as wide as the text is said to be.
pub proof fn lemma_first_row_has_text_width(text: Seq<char>, spacing: nat)
    ensures
        rendered_row(text, spacing, 0).len() == text_width_of(text, spacing),
    decreases text.len(),
{
    if text.len() > 0 {
        let init = text.drop_last();
        lemma_first_row_has_text_width(init, spacing);
        let count = drawn_count(init);
        if glyph_rows(text.last()) is Some {
            if count > 0 {
                assert(spacing * (count + 1 - 1) as nat == spacing * (count - 1) as nat + spacing)
                    by (nonlinear_arith)
                    requires
                        count > 0,
                ;
            } else {
                assert(spacing * 0 == 0) by (nonlinear_arith);
            }
        }
    }
}

/// Returns the 4-row glyph for a given character, or nothing where the
/// font does not have it. Upper-case letters are drawn as lower-case ones.
pub fn glyph(ch: char) -> (rows: Option<[&'static str; 4]>)
    ensures
        rows == glyph_rows(ch),
{
    let normalized = to_ascii_lower(ch);
    let table = GLYPHS;
    let mut i: usize = 0;
    while i < table.len()
        invariant
            table == GLYPHS,
            normalized == ascii_lower(ch),
            i <= table@.len(),
            glyph_entry(normalized, i as int) is None,
        decreases table.len() - i,
    {
        if table[i].0 == normalized {
            proof {
                assert(glyph_entry(normalized, i as int + 1) == Some(i as int));
                lemma_glyph_entry_prefix(normalized, i as int + 1, table@.len() as int);
            }
            return Some(table[i].1);
        }
        i += 1;
    }
    None
}

/// Returns the display width (columns) of a single character glyph.
pub fn glyph_width(ch: char) -> (width: usize)
    ensures
        width == glyph_width_of(ch),
{
    match glyph(ch) {
        Some(rows) => rows[0].unicode_len(),
        None => 0,
    }
}

/// Renders a string into 4 lines of block text, with the default spacing.
///
/// Unsupported characters are silently skipped.
pub fn render_text(text: &str) -> (lines: Vec<String>)
    ensures
        lines@.len() == FONT_HEIGHT,
        forall|row: int|
            0 <= row < FONT_HEIGHT ==> (#[trigger] lines@[row])@ == rendered_row(
                text@,
                CHAR_SPACING as nat,
                row,
            ),
{
    render_text_with_spacing(text, CHAR_SPACING)
}

/// Renders a string into 4 lines of block text, with `spacing` columns of
/// space between the characters.
///
/// Unsupported characters are silently skipped. The first line is as wide
/// as [`text_width_with_spacing`] says.
pub fn render_text_with_spacing(text: &str, spacing: usize) -> (lines: Vec<String>)
    ensures
        lines@.len() == FONT_HEIGHT,
        forall|row: int|
            0 <= row < FONT_HEIGHT ==> (#[trigger] lines@[row])@ == rendered_row(
                text@,
                spacing as nat,
                row,
            ),
        lines@[0]@.len() == text_width_of(text@, spacing as nat),
{
    let chars = chars_of(text);
    let mut spacer = String::new();
    push_repeated(&mut spacer, ' ', spacing);
    assert(spacer@ =~= repeated(' ', spacing as int));
    let mut lines: Vec<String> = Vec::new();
    let mut row: usize = 0;
    while row < FONT_HEIGHT
        invariant
            row <= FONT_HEIGHT,
            chars@ == text@,
            spacer@ == repeated(' ', spacing as int),
            lines@.len() == row,
            forall|r: int|
                0 <= r < row ==> (#[trigger] lines@[r])@ == rendered_row(text@, spacing as nat, r),
        decreases FONT_HEIGHT - row,
    {
        let mut line = String::new();
        let mut first = true;
        let mut i: usize = 0;
        assert(chars@.take(0) =~= Seq::<char>::empty());
        while i < chars.len()
            invariant
                i <= chars.len(),
                row < FONT_HEIGHT,
                spacer@ == repeated(' ', spacing as int),
                first == (drawn_count(chars@.take(i as int)) == 0),
                line@ == rendered_row(chars@.take(i as int), spacing as nat, row as int),
            decreases chars.len() - i,
        {
            proof {
                assert(chars@.take(i as int + 1).drop_last() =~= chars@.take(i as int));
            }
            if let Some(rows) = glyph(chars[i]) {
                if !first {
                    line.append(spacer.as_str());
                }
                line.append(rows[row]);
                first = false;
            }
            i += 1;
        }
        assert(chars@.take(chars.len() as int) =~= chars@);
        lines.push(line);
        row += 1;
    }
    proof {
        lemma_first_row_has_text_width(text@, spacing as nat);
    }
    lines
}

/// Returns the total display width of a rendered string, with the default
/// spacing. The width must fit in a `usize`.
pub fn text_width(text: &str) -> (width: usize)
    requires
        text_width_of(text@, CHAR_SPACING as nat) <= usize::MAX,
    ensures
        width == text_width_of(text@, CHAR_SPACING as nat),
{
    text_width_with_spacing(text, CHAR_SPACING)
}

/// The width of a text grows with the text.
pub proof fn lemma_text_width_grows(text: Seq<char>, spacing: nat, n: int)
    requires
        0 <= n <= text.len(),
    ensures
        text_width_of(text.take(n), spacing) <= text_width_of(text, spacing),
        drawn_count(text.take(n)) <= drawn_count(text),
        glyph_widths(text.take(n)) <= glyph_widths(text),
    decreases text.len() - n,
{
    if n < text.len() {
        lemma_text_width_grows(text, spacing, n + 1);
        assert(text.take(n + 1).drop_last() =~= text.take(n));
        let a = drawn_count(text.take(n));
        let b = drawn_count(text.take(n + 1));
        let c = drawn_count(text);
        if a > 0 {
            assert(spacing * (a - 1) as nat <= spacing * (c - 1) as nat) by (nonlinear_arith)
                requires
                    0 < a <= c,
            ;
        }
    } else {
        assert(text.take(n) =~= text);
    }
}

/// Returns the total display width of a rendered string with `spacing`
/// columns between the characters. The width must fit in a `usize`.
pub fn text_width_with_spacing(text: &str, spacing: usize) -> (width: usize)
    requires
        text_width_of(text@, spacing as nat) <= usize::MAX,
    ensures
        width == text_width_of(text@, spacing as nat),
{
    let chars = chars_of(text);
    let mut width: usize = 0;
    let mut count: usize = 0;
    let mut i: usize = 0;
    assert(chars@.take(0) =~= Seq::<char>::empty());
    while i < chars.len()
        invariant
            i <= chars.len(),
            chars@ == text@,
            text_width_of(text@, spacing as nat) <= usize::MAX,
            count == drawn_count(chars@.take(i as int)),
            count <= i,
            width == text_width_of(chars@.take(i as int), spacing as nat),
        decreases chars.len() - i,
    {
        proof {
            assert(chars@.take(i as int + 1).drop_last() =~= chars@.take(i as int));
            lemma_text_width_grows(chars@, spacing as nat, i as int + 1);
            let a = drawn_count(chars@.take(i as int));
            if a > 0 {
                assert(spacing * (a + 1 - 1) as nat == spacing * (a - 1) as nat + spacing)
                    by (nonlinear_arith)
                    requires
                        a > 0,
                ;
            } else {
                assert(spacing * 0 == 0) by (nonlinear_arith);
            }
        }
        let ch = chars[i];
        if glyph(ch).is_some() {
            if count > 0 {
                width += spacing;
            }
            width += glyph_width(ch);
            count += 1;
        }
        i += 1;
    }
    assert(chars@.take(chars.len() as int) =~= chars@);
    width
}

} // verus!
