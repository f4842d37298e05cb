use vstd::prelude::*;

verus! {

/// `String::push` appends one character to the end of the string.
pub assume_specification[ String::push ](s: &mut String, ch: char)
    ensures
        final(s)@ == old(s)@.push(ch),
;

/// The characters of `s`, in order.
pub fn chars_of(s: &str) -> (chars: Vec<char>)
    ensures
        chars@ == s@,
{
    let mut chars: Vec<char> = Vec::new();
    for c in it: s.chars()
        invariant
            it.seq() == s@,
            chars@ == s@.take(it.index() as int),
    {
        chars.push(c);
    }
    chars
}

/// The characters of `chars` from position `from` up to, and without,
/// position `to`.
pub fn chars_between(chars: &Vec<char>, from: usize, to: usize) -> (part: Vec<char>)
    requires
        from <= to <= chars.len(),
    ensures
        part@ == chars@.subrange(from as int, to as int),
{
    let mut part: Vec<char> = Vec::new();
    let mut i: usize = from;
    while i < to
        invariant
            from <= i <= to <= chars.len(),
            part@ == chars@.subrange(from as int, i as int),
        decreases to - i,
    {
        part.push(chars[i]);
        assert(chars@.subrange(from as int, i as int + 1) =~= chars@.subrange(
            from as int,
            i as int,
        ).push(chars@[i as int]));
        i += 1;
    }
    part
}

/// The string made of `chars`, in order.
pub fn string_of(chars: &Vec<char>) -> (s: String)
    ensures
        s@ == chars@,
{
    let mut s = String::new();
    let mut i: usize = 0;
    while i < chars.len()
        invariant
            i <= chars.len(),
            s@ == chars@.take(i as int),
        decreases chars.len() - i,
    {
        s.push(chars[i]);
        i += 1;
    }
    s
}

/// Whether two strings hold the same characters.
pub fn same_text(a: &str, b: &str) -> (same: bool)
    ensures
        same == (a@ == b@),
{
    let left = a.to_owned();
    let right = b.to_owned();
    left == right
}

/// The upper-case form of an ASCII lower-case letter; every other character
/// is its own upper-case form.
pub open spec fn ascii_upper(c: char) -> char {
    if 'a' <= c <= 'z' {
        ((c as u8) - 32) as char
    } else {
        c
    }
}

/// The lower-case form of an ASCII upper-case letter; every other character
/// is its own lower-case form.
pub open spec fn ascii_lower(c: char) -> char {
    if 'A' <= c <= 'Z' {
        ((c as u8) + 32) as char
    } else {
        c
    }
}

/// Upper-cases an ASCII letter and leaves every other character unchanged.
pub fn to_ascii_upper(c: char) -> (upper: char)
    ensures
        upper == ascii_upper(c),
{
    if 'a' <= c && c <= 'z' {
        ((c as u8) - 32) as char
    } else {
        c
    }
}

/// Lower-cases an ASCII letter and leaves every other character unchanged.
pub fn to_ascii_lower(c: char) -> (lower: char)
    ensures
        lower == ascii_lower(c),
{
    if 'A' <= c && c <= 'Z' {
        ((c as u8) + 32) as char
    } else {
        c
    }
}

/// Whether `a` and `b` are equal once ASCII letters are lower-cased.
pub open spec fn eq_ignoring_ascii_case(a: Seq<char>, b: Seq<char>) -> bool {
    &&& a.len() == b.len()
    &&& forall|i: int| 0 <= i < a.len() ==> ascii_lower(#[trigger] a[i]) == ascii_lower(b[i])
}

/// Compares two character sequences without regard to the case of ASCII
/// letters.
pub fn chars_eq_ignore_ascii_case(a: &Vec<char>, b: &Vec<char>) -> (same: bool)
    ensures
        same == eq_ignoring_ascii_case(a@, b@),
{
    if a.len() != b.len() {
        return false;
    }
    let mut i: usize = 0;
    while i < a.len()
        invariant
            i <= a.len(),
            a.len() == b.len(),
            forall|k: int| 0 <= k < i ==> ascii_lower(#[trigger] a@[k]) == ascii_lower(b@[k]),
        decreases a.len() - i,
    {
        if to_ascii_lower(a[i]) != to_ascii_lower(b[i]) {
            return false;
        }
        i += 1;
    }
    true
}

/// The texts of `list`, in order.
pub open spec fn texts_of(list: Seq<String>) -> Seq<Seq<char>> {
    list.map_values(|s: String| s@)
}

/// Whether `list` holds a string with the characters of `text`.
pub fn holds_text(list: &Vec<String>, text: &str) -> (found: bool)
    ensures
        found == texts_of(list@).contains(text@),
{
    let ghost texts = texts_of(list@);
    let mut i: usize = 0;
    while i < list.len()
        invariant
            i <= list.len(),
            texts == texts_of(list@),
            forall|k: int| 0 <= k < i ==> texts[k] != text@,
        decreases list.len() - i,
    {
        if same_text(list[i].as_str(), text) {
            assert(texts[i as int] == text@);
            return true;
        }
        i += 1;
    }
    false
}

/// The character that writes the decimal digit `d`.
pub open spec fn digit_char(d: int) -> char {
    ((48 + d) as u8) as char
}

/// The decimal digits of `n`, without leading zeros.
pub open spec fn decimal_of(n: nat) -> Seq<char>
    decreases n,
{
    if n < 10 {
        seq![digit_char(n as int)]
    } else {
        decimal_of(n / 10).push(digit_char((n % 10) as int))
    }
}

/// `n` copies of the character `c`.
pub open spec fn repeated(c: char, n: int) -> Seq<char> {
    Seq::new(
        if n > 0 {
            n as nat
        } else {
            0
        },
        |i: int| c,
    )
}

/// `text` with spaces after it up to the width `width`; a text that is as
/// wide or wider stays as it is.
pub open spec fn padded_right(text: Seq<char>, width: int) -> Seq<char> {
    text + repeated(' ', width - text.len())
}

/// `text` with zeros before it up to the width `width`; a text that is as
/// wide or wider stays as it is.
pub open spec fn zero_padded(text: Seq<char>, width: int) -> Seq<char> {
    repeated('0', width - text.len()) + text
}

/// Writes `n` in decimal digits.
pub fn decimal(n: u64) -> (digits: String)
    ensures
        digits@ == decimal_of(n as nat),
    decreases n,
{
    if n < 10 {
        let mut digits = String::new();
        digits.push((48 + n as u8) as char);
        assert(digits@ =~= decimal_of(n as nat));
        digits
    } else {
        let mut digits = decimal(n / 10);
        digits.push((48 + (n % 10) as u8) as char);
        digits
    }
}

/// Appends `count` copies of `c` to `text`.
pub fn push_repeated(text: &mut String, c: char, count: usize)
    ensures
        final(text)@ == old(text)@ + repeated(c, count as int),
{
    let mut n: usize = 0;
    assert(text@ =~= old(text)@ + repeated(c, 0));
    while n < count
        invariant
            n <= count,
            text@ == old(text)@ + repeated(c, n as int),
        decreases count - n,
    {
        text.push(c);
        assert(old(text)@ + repeated(c, n as int + 1) =~= (old(text)@ + repeated(c, n as int)).push(
            c,
        ));
        n += 1;
    }
}

/// Pads `text` with spaces on the right up to `width` characters.
pub fn pad_right(text: &str, width: usize) -> (padded: String)
    ensures
        padded@ == padded_right(text@, width as int),
{
    let mut padded = text.to_owned();
    let len = text.unicode_len();
    if len < width {
        push_repeated(&mut padded, ' ', width - len);
    } else {
        assert(padded@ =~= padded_right(text@, width as int));
    }
    padded
}

/// Pads `text` with zeros on the left up to `width` characters.
pub fn pad_zeros(text: &str, width: usize) -> (padded: String)
    ensures
        padded@ == zero_padded(text@, width as int),
{
    let mut padded = String::new();
    let len = text.unicode_len();
    if len < width {
        push_repeated(&mut padded, '0', width - len);
    }
    padded.append(text);
    assert(padded@ =~= zero_padded(text@, width as int));
    padded
}

} // verus!
