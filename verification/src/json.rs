//! The lexical layer of the project file: words, strings, numbers and
//! lists, read from and written as characters.
//!
//! Each reader is a spec function from the text that is left to what was
//! read and the text behind it, `None` where the text does not start with
//! such an item. White space before an item is passed over. Each writer is
//! a spec function from a value to its text. The executable functions
//! follow them on a `Vec<char>`, a reader from a position to the position
//! behind the item.

use vstd::prelude::*;
use crate::text::{has_at, starts_with};

verus! {

/// White space between the items of a document.
pub open spec fn is_space(c: char) -> bool {
    c == ' ' || c == '\n' || c == '\r' || c == '\t'
}

/// Whether `text` is white space throughout.
pub open spec fn all_space(text: Seq<char>) -> bool {
    forall|i: int| 0 <= i < text.len() ==> is_space(#[trigger] text[i])
}

/// `text` without the white space at its start.
pub open spec fn trimmed(text: Seq<char>) -> Seq<char>
    decreases text.len(),
{
    if text.len() > 0 && is_space(text[0]) {
        trimmed(text.skip(1))
    } else {
        text
    }
}

/// What follows `word` where it stands at the start of `text`, white space
/// before it passed over.
pub open spec fn after_word(text: Seq<char>, word: Seq<char>) -> Option<Seq<char>> {
    let rest = trimmed(text);
    if starts_with(rest, word) {
        Some(rest.skip(word.len() as int))
    } else {
        None
    }
}

/// [`after_word`] on what an earlier reader left, `None` where that reader
/// failed.
pub open spec fn then_word(cursor: Option<Seq<char>>, word: Seq<char>) -> Option<Seq<char>> {
    match cursor {
        Some(text) => after_word(text, word),
        None => None,
    }
}

/// A name between double quotes, as it stands for a key or a tag.
pub open spec fn quoted(name: Seq<char>) -> Seq<char> {
    seq!['"'] + name + seq!['"']
}

/// White space before a text that starts with something else is all that
/// trimming takes away.
pub proof fn lemma_trimmed_space(space: Seq<char>, rest: Seq<char>)
    requires
        all_space(space),
        rest.len() > 0 ==> !is_space(rest[0]),
    ensures
        trimmed(space + rest) == rest,
    decreases space.len(),
{
    if space.len() > 0 {
        assert((space + rest)[0] == space[0]);
        assert((space + rest).skip(1) == space.skip(1) + rest);
        assert forall|i: int| 0 <= i < space.skip(1).len() implies is_space(
            #[trigger] space.skip(1)[i],
        ) by {
            assert(space.skip(1)[i] == space[i + 1]);
        }
        lemma_trimmed_space(space.skip(1), rest);
    } else {
        assert(space + rest == rest);
    }
}

/// A word behind white space is read, and what follows it is left.
pub proof fn lemma_after_word(space: Seq<char>, word: Seq<char>, rest: Seq<char>)
    requires
        all_space(space),
        word.len() > 0,
        !is_space(word[0]),
    ensures
        after_word(space + (word + rest), word) == Some(rest),
{
    assert((word + rest)[0] == word[0]);
    lemma_trimmed_space(space, word + rest);
    assert((word + rest).take(word.len() as int) == word);
    assert((word + rest).skip(word.len() as int) == rest);
}

/// Where the text starts with another character than the word does, the
/// word is not read.
pub proof fn lemma_not_word(text: Seq<char>, word: Seq<char>)
    requires
        text.len() > 0,
        word.len() > 0,
        !is_space(text[0]),
        text[0] != word[0],
    ensures
        after_word(text, word) is None,
{
    if starts_with(text, word) {
        assert(text.take(word.len() as int)[0] == word[0]);
    }
}

/// The position behind the white space that starts at `at`.
pub fn skip_spaces(input: &Vec<char>, at: usize) -> (next: usize)
    requires
        at <= input.len(),
    ensures
        at <= next <= input.len(),
        input@.skip(next as int) == trimmed(input@.skip(at as int)),
{
    let mut next: usize = at;
    while next < input.len() && (input[next] == ' ' || input[next] == '\n' || input[next] == '\r'
        || input[next] == '\t')
        invariant
            at <= next <= input.len(),
            trimmed(input@.skip(next as int)) == trimmed(input@.skip(at as int)),
        decreases input.len() - next,
    {
        assert(input@.skip(next as int).skip(1) == input@.skip(next + 1));
        next = next + 1;
    }
    next
}

/// Reads `word` at `at`, white space before it passed over: the position
/// behind it, or `None` where another text stands there.
pub fn take_word(input: &Vec<char>, at: usize, word: &str) -> (next: Option<usize>)
    requires
        at <= input.len(),
    ensures
        match next {
            Some(p) => at <= p <= input.len() && after_word(input@.skip(at as int), word@) == Some(
                input@.skip(p as int),
            ),
            None => after_word(input@.skip(at as int), word@) is None,
        },
{
    let start = skip_spaces(input, at);
    if has_at(input, start, word) {
        let width = word.unicode_len();
        assert(input@.skip(start as int).skip(width as int) == input@.skip(start + width));
        Some(start + width)
    } else {
        None
    }
}

/// Reads the character `c` at `at`, white space before it passed over.
pub fn take_char(input: &Vec<char>, at: usize, c: char) -> (next: Option<usize>)
    requires
        at <= input.len(),
    ensures
        match next {
            Some(p) => at < p <= input.len() && after_word(input@.skip(at as int), seq![c])
                == Some(input@.skip(p as int)),
            None => after_word(input@.skip(at as int), seq![c]) is None,
        },
{
    let start = skip_spaces(input, at);
    let ghost rest = input@.skip(start as int);
    if start < input.len() && input[start] == c {
        assert(rest.take(1) == seq![c]);
        assert(rest.skip(1) == input@.skip(start + 1));
        Some(start + 1)
    } else {
        proof {
            if starts_with(rest, seq![c]) {
                assert(rest.take(1)[0] == c);
            }
        }
        None
    }
}

/// Reads `name` between double quotes at `at`, white space before it
/// passed over.
pub fn take_quoted(input: &Vec<char>, at: usize, name: &str) -> (next: Option<usize>)
    requires
        at <= input.len(),
    ensures
        match next {
            Some(p) => at < p <= input.len() && after_word(
                input@.skip(at as int),
                quoted(name@),
            ) == Some(input@.skip(p as int)),
            None => after_word(input@.skip(at as int), quoted(name@)) is None,
        },
{
    let start = skip_spaces(input, at);
    let ghost rest = input@.skip(start as int);
    let ghost word = quoted(name@);
    let width = name.unicode_len();
    if start < input.len() && input[start] == '"' && has_at(input, start + 1, name) {
        assert(input@.skip(start + 1).skip(width as int) == input@.skip(start + 1 + width));
        let close = start + 1 + width;
        if close < input.len() && input[close] == '"' {
            assert(rest.take(word.len() as int) == word) by {
                assert(input@.skip(start + 1).take(width as int) == name@);
                assert forall|i: int| 0 <= i < word.len() implies rest.take(word.len() as int)[i]
                    == word[i] by {
                    if 0 < i <= width {
                        assert(input@.skip(start + 1).take(width as int)[i - 1] == name@[i - 1]);
                    }
                }
            }
            assert(rest.skip(word.len() as int) == input@.skip(close + 1));
            return Some(close + 1);
        }
    }
    proof {
        if starts_with(rest, word) {
            let head = rest.take(word.len() as int);
            assert(head[0] == '"');
            assert(head[width + 1] == '"');
            assert(input@.skip(start + 1).take(width as int) == name@) by {
                assert forall|i: int| 0 <= i < width implies input@.skip(start + 1).take(
                    width as int,
                )[i] == name@[i] by {
                    assert(head[i + 1] == word[i + 1]);
                }
            }
        }
    }
    None
}

/// The hexadecimal digit of a number below 16, in lower case.
pub open spec fn hex_digit(n: int) -> char {
    if n < 10 {
        ('0' as int + n) as char
    } else {
        ('a' as int + n - 10) as char
    }
}

/// The number that a hexadecimal digit stands for, -1 for another
/// character.
pub open spec fn hex_value(c: char) -> int {
    if '0' <= c <= '9' {
        c as int - '0' as int
    } else if 'a' <= c <= 'f' {
        c as int - 'a' as int + 10
    } else if 'A' <= c <= 'F' {
        c as int - 'A' as int + 10
    } else {
        -1
    }
}

/// Whether a number is the code of a character: below the surrogate range
/// or above it, up to the last code.
pub open spec fn is_char_code(code: int) -> bool {
    0 <= code < 0xD800 || 0xE000 <= code <= 0x10FFFF
}

/// A character as it stands inside a string: a quote, a backslash and a
/// control character are written as an escape, any other as itself.
pub open spec fn escaped_char(c: char) -> Seq<char> {
    if c == '"' {
        seq!['\\', '"']
    } else if c == '\\' {
        seq!['\\', '\\']
    } else if c == '\n' {
        seq!['\\', 'n']
    } else if c == '\r' {
        seq!['\\', 'r']
    } else if c == '\t' {
        seq!['\\', 't']
    } else if (c as int) < 0x20 {
        seq!['\\', 'u', '0', '0', hex_digit(c as int / 16), hex_digit(c as int % 16)]
    } else {
        seq![c]
    }
}

/// The characters of a text as they stand inside a string.
pub open spec fn escaped(text: Seq<char>) -> Seq<char>
    decreases text.len(),
{
    if text.len() == 0 {
        Seq::empty()
    } else {
        escaped_char(text[0]) + escaped(text.skip(1))
    }
}

/// A text written as a string: between double quotes, with escapes.
pub open spec fn string_text(text: Seq<char>) -> Seq<char> {
    seq!['"'] + escaped(text) + seq!['"']
}

/// Reads what follows a backslash: the character that the escape stands
/// for, and how many characters the escape takes behind the backslash.
/// Beside the short escapes, `u` with four hexadecimal digits gives the
/// character of that code; a code in the surrogate range is refused.
pub open spec fn read_escape(text: Seq<char>) -> Option<(char, int)> {
    if text.len() == 0 {
        None
    } else if text[0] == '"' || text[0] == '\\' || text[0] == '/' {
        Some((text[0], 1))
    } else if text[0] == 'n' {
        Some(('\n', 1))
    } else if text[0] == 'r' {
        Some(('\r', 1))
    } else if text[0] == 't' {
        Some(('\t', 1))
    } else if text[0] == 'b' {
        Some(('\u{8}', 1))
    } else if text[0] == 'f' {
        Some(('\u{c}', 1))
    } else if text[0] == 'u' && text.len() >= 5 && hex_value(text[1]) >= 0 && hex_value(text[2])
        >= 0 && hex_value(text[3]) >= 0 && hex_value(text[4]) >= 0 {
        let code = hex_value(text[1]) * 4096 + hex_value(text[2]) * 256 + hex_value(text[3]) * 16
            + hex_value(text[4]);
        if is_char_code(code) {
            Some((code as char, 5))
        } else {
            None
        }
    } else {
        None
    }
}

/// A reader's result with one more character before the text it read.
pub open spec fn with_first(c: char, tail: Option<(Seq<char>, Seq<char>)>) -> Option<
    (Seq<char>, Seq<char>),
> {
    match tail {
        Some((text, rest)) => Some((seq![c] + text, rest)),
        None => None,
    }
}

/// Reads the inside of a string up to its closing quote: the text it
/// stands for and what follows the quote. A control character that is not
/// escaped is refused.
pub open spec fn read_string_body(text: Seq<char>) -> Option<(Seq<char>, Seq<char>)>
    decreases text.len(),
{
    if text.len() == 0 {
        None
    } else if text[0] == '"' {
        Some((Seq::empty(), text.skip(1)))
    } else if text[0] == '\\' {
        match read_escape(text.skip(1)) {
            Some((c, width)) => {
                if 0 < width && 1 + width <= text.len() {
                    with_first(c, read_string_body(text.skip(1 + width)))
                } else {
                    None
                }
            },
            None => None,
        }
    } else if (text[0] as int) < 0x20 {
        None
    } else {
        with_first(text[0], read_string_body(text.skip(1)))
    }
}

/// Reads a string, white space before it passed over: the text it stands
/// for and what follows it.
pub open spec fn read_string(text: Seq<char>) -> Option<(Seq<char>, Seq<char>)> {
    let rest = trimmed(text);
    if rest.len() > 0 && rest[0] == '"' {
        read_string_body(rest.skip(1))
    } else {
        None
    }
}

/// [`read_string`] on what an earlier reader left.
pub open spec fn then_string(cursor: Option<Seq<char>>) -> Option<(Seq<char>, Seq<char>)> {
    match cursor {
        Some(text) => read_string(text),
        None => None,
    }
}

/// A hexadecimal digit stands for the number it was written for.
pub proof fn lemma_hex_digit(n: int)
    requires
        0 <= n < 16,
    ensures
        hex_value(hex_digit(n)) == n,
{
    if n < 10 {
        assert(hex_digit(n) as int == '0' as int + n);
    } else {
        assert(hex_digit(n) as int == 'a' as int + n - 10);
    }
}

/// A written character is read back as itself, before whatever the rest of
/// the string gives.
pub proof fn lemma_read_escaped_char(c: char, tail: Seq<char>)
    ensures
        read_string_body(escaped_char(c) + tail) == with_first(c, read_string_body(tail)),
{
    let head = escaped_char(c);
    let input = head + tail;
    assert(input.skip(head.len() as int) == tail);
    assert(input[0] == head[0]);
    if c == '"' || c == '\\' || c == '\n' || c == '\r' || c == '\t' {
        assert(input.skip(1)[0] == head[1]);
    } else if (c as int) < 0x20 {
        let escape = input.skip(1);
        let high = c as int / 16;
        let low = c as int % 16;
        assert(escape.len() >= 5);
        assert(escape[0] == 'u');
        assert(escape[1] == '0');
        assert(escape[2] == '0');
        assert(escape[3] == hex_digit(high));
        assert(escape[4] == hex_digit(low));
        lemma_hex_digit(high);
        lemma_hex_digit(low);
        assert(hex_value('0') == 0);
        let code = hex_value(escape[1]) * 4096 + hex_value(escape[2]) * 256 + hex_value(escape[3])
            * 16 + hex_value(escape[4]);
        assert(code == c as int);
        assert(code as char == c);
        assert(read_escape(escape) == Some((c, 5int)));
    }
}

/// The inside of a written string, with its closing quote, is read back as
/// the text that was written.
pub proof fn lemma_read_escaped(text: Seq<char>, rest: Seq<char>)
    ensures
        read_string_body(escaped(text) + seq!['"'] + rest) == Some((text, rest)),
    decreases text.len(),
{
    let input = escaped(text) + seq!['"'] + rest;
    if text.len() == 0 {
        assert(input.skip(1) == rest);
    } else {
        let tail = escaped(text.skip(1)) + seq!['"'] + rest;
        lemma_read_escaped(text.skip(1), rest);
        lemma_read_escaped_char(text[0], tail);
        assert(input == escaped_char(text[0]) + tail);
        assert(seq![text[0]] + text.skip(1) == text);
    }
}

/// A written string behind white space is read back as the text that was
/// written, and what follows it is left.
pub proof fn lemma_read_string(space: Seq<char>, text: Seq<char>, rest: Seq<char>)
    requires
        all_space(space),
    ensures
        read_string(space + (string_text(text) + rest)) == Some((text, rest)),
{
    let body = escaped(text) + seq!['"'] + rest;
    assert(string_text(text) + rest == seq!['"'] + body);
    lemma_trimmed_space(space, seq!['"'] + body);
    assert((seq!['"'] + body).skip(1) == body);
    lemma_read_escaped(text, rest);
}

/// `char::from_u32`: the character with the given code, `None` where the
/// number is no character's code.
#[verifier::external_body]
pub(crate) fn char_of_code(code: u32) -> (c: Option<char>)
    ensures
        match c {
            Some(found) => is_char_code(code as int) && found as int == code as int,
            None => !is_char_code(code as int),
        },
{
    char::from_u32(code)
}

/// The code of a character.
fn char_code(c: char) -> (code: u32)
    ensures
        code as int == c as int,
{
    c as u32
}

/// The hexadecimal digit of a number below 16.
fn hex_digit_of(n: u8) -> (c: char)
    requires
        n < 16,
    ensures
        c == hex_digit(n as int),
{
    if n < 10 {
        (48u8 + n) as char
    } else {
        (87u8 + n) as char
    }
}

/// The number that a hexadecimal digit stands for.
fn hex_value_of(c: char) -> (value: Option<u32>)
    ensures
        match value {
            Some(v) => hex_value(c) == v && v < 16,
            None => hex_value(c) == -1,
        },
{
    let code = c as u32;
    if 48 <= code && code <= 57 {
        Some(code - 48)
    } else if 97 <= code && code <= 102 {
        Some(code - 87)
    } else if 65 <= code && code <= 70 {
        Some(code - 55)
    } else {
        None
    }
}

/// Appends `c` to `out` as it stands inside a string.
fn write_escaped_char(out: &mut Vec<char>, c: char)
    ensures
        final(out)@ == old(out)@ + escaped_char(c),
{
    let code = c as u32;
    if c == '"' {
        out.push('\\');
        out.push('"');
    } else if c == '\\' {
        out.push('\\');
        out.push('\\');
    } else if c == '\n' {
        out.push('\\');
        out.push('n');
    } else if c == '\r' {
        out.push('\\');
        out.push('r');
    } else if c == '\t' {
        out.push('\\');
        out.push('t');
    } else if code < 0x20 {
        out.push('\\');
        out.push('u');
        out.push('0');
        out.push('0');
        out.push(hex_digit_of((code / 16) as u8));
        out.push(hex_digit_of((code % 16) as u8));
    } else {
        out.push(c);
    }
    assert(out@ == old(out)@ + escaped_char(c));
}

/// Appends `text` to `out` as a string, see [`string_text`].
pub fn write_string(out: &mut Vec<char>, text: &str)
    ensures
        final(out)@ == old(out)@ + string_text(text@),
{
    let chars = crate::text::to_chars(text);
    out.push('"');
    let mut i: usize = 0;
    assert(chars@.skip(0) == chars@);
    while i < chars.len()
        invariant
            i <= chars.len(),
            chars@ == text@,
            out@ + escaped(chars@.skip(i as int)) == old(out)@ + seq!['"'] + escaped(text@),
        decreases chars.len() - i,
    {
        let ghost before = out@;
        let ghost after = escaped(chars@.skip(i + 1));
        assert(chars@.skip(i as int).skip(1) == chars@.skip(i + 1));
        write_escaped_char(out, chars[i]);
        assert(before + (escaped_char(chars@[i as int]) + after) == (before + escaped_char(
            chars@[i as int],
        )) + after);
        i = i + 1;
    }
    assert(out@ + Seq::<char>::empty() == out@);
    out.push('"');
}

/// Reads what follows a backslash at `at`: the character that the escape
/// stands for and the number of characters it takes.
fn take_escape(input: &Vec<char>, at: usize) -> (escape: Option<(char, usize)>)
    requires
        at <= input.len(),
    ensures
        match escape {
            Some((c, width)) => 0 < width && at + width <= input.len() && read_escape(
                input@.skip(at as int),
            ) == Some((c, width as int)),
            None => read_escape(input@.skip(at as int)) is None,
        },
{
    if at >= input.len() {
        return None;
    }
    let c = input[at];
    if c == '"' || c == '\\' || c == '/' {
        Some((c, 1))
    } else if c == 'n' {
        Some(('\n', 1))
    } else if c == 'r' {
        Some(('\r', 1))
    } else if c == 't' {
        Some(('\t', 1))
    } else if c == 'b' {
        Some(('\u{8}', 1))
    } else if c == 'f' {
        Some(('\u{c}', 1))
    } else if c == 'u' && input.len() - at >= 5 {
        let (d1, d2, d3, d4) = match (
            hex_value_of(input[at + 1]),
            hex_value_of(input[at + 2]),
            hex_value_of(input[at + 3]),
            hex_value_of(input[at + 4]),
        ) {
            (Some(d1), Some(d2), Some(d3), Some(d4)) => (d1, d2, d3, d4),
            _ => {
                return None;
            },
        };
        let code = d1 * 4096 + d2 * 256 + d3 * 16 + d4;
        match char_of_code(code) {
            Some(found) => {
                assert(found == code as char);
                Some((found, 5))
            },
            None => None,
        }
    } else {
        None
    }
}

/// A reader's result with `text` before the text it read.
pub open spec fn with_prefix(text: Seq<char>, tail: Option<(Seq<char>, Seq<char>)>) -> Option<
    (Seq<char>, Seq<char>),
> {
    match tail {
        Some((more, rest)) => Some((text + more, rest)),
        None => None,
    }
}

/// A character before a result that stands behind a text is the last
/// character of a longer text before the result.
proof fn lemma_with_prefix_push(text: Seq<char>, c: char, tail: Option<(Seq<char>, Seq<char>)>)
    ensures
        with_prefix(text, with_first(c, tail)) == with_prefix(text.push(c), tail),
{
    if let Some((more, _)) = tail {
        assert(text + (seq![c] + more) == text.push(c) + more);
    }
}

/// Reads the inside of a string from `from` on: the text it stands for and
/// the position behind its closing quote.
fn take_string_body(input: &Vec<char>, from: usize) -> (found: Option<(String, usize)>)
    requires
        from <= input.len(),
    ensures
        match found {
            Some((text, next)) => from < next <= input.len() && read_string_body(
                input@.skip(from as int),
            ) == Some((text@, input@.skip(next as int))),
            None => read_string_body(input@.skip(from as int)) is None,
        },
{
    let ghost body = input@.skip(from as int);
    let mut text: Vec<char> = Vec::new();
    let mut i: usize = from;
    proof {
        if let Some((more, _)) = read_string_body(body) {
            assert(Seq::<char>::empty() + more == more);
        }
    }
    loop
        invariant
            from <= i <= input.len(),
            body == input@.skip(from as int),
            read_string_body(body) == with_prefix(text@, read_string_body(input@.skip(i as int))),
        decreases input.len() - i,
    {
        if i >= input.len() {
            return None;
        }
        let ghost here = input@.skip(i as int);
        let c = input[i];
        assert(here[0] == c);
        assert(here.skip(1) == input@.skip(i + 1));
        if c == '"' {
            assert(text@ + Seq::<char>::empty() == text@);
            return Some((crate::text::from_chars(&text), i + 1));
        } else if c == '\\' {
            match take_escape(input, i + 1) {
                Some((escape, width)) => {
                    assert(here.skip(1 + width) == input@.skip(i + 1 + width));
                    proof {
                        lemma_with_prefix_push(
                            text@,
                            escape,
                            read_string_body(input@.skip(i + 1 + width)),
                        );
                    }
                    text.push(escape);
                    i = i + 1 + width;
                },
                None => {
                    return None;
                },
            }
        } else if char_code(c) < 0x20 {
            return None;
        } else {
            proof {
                lemma_with_prefix_push(text@, c, read_string_body(input@.skip(i + 1)));
            }
            text.push(c);
            i = i + 1;
        }
    }
}

/// Reads a string at `at`, white space before it passed over: the text it
/// stands for and the position behind its closing quote.
pub fn take_string(input: &Vec<char>, at: usize) -> (found: Option<(String, usize)>)
    requires
        at <= input.len(),
    ensures
        match found {
            Some((text, next)) => at < next <= input.len() && read_string(input@.skip(at as int))
                == Some((text@, input@.skip(next as int))),
            None => read_string(input@.skip(at as int)) is None,
        },
{
    let start = skip_spaces(input, at);
    if start >= input.len() || input[start] != '"' {
        return None;
    }
    assert(input@.skip(start as int).skip(1) == input@.skip(start + 1));
    take_string_body(input, start + 1)
}

/// Whether `c` is a decimal digit.
pub open spec fn is_digit(c: char) -> bool {
    '0' <= c <= '9'
}

/// The decimal digit of a number below 10.
pub open spec fn digit_char(n: int) -> char {
    ('0' as int + n) as char
}

/// The number that a decimal digit stands for.
pub open spec fn digit_value(c: char) -> int {
    c as int - '0' as int
}

/// Whether a decimal digit stands in `text` at `at`.
pub open spec fn digit_at(text: Seq<char>, at: int) -> bool {
    at < text.len() && is_digit(text[at])
}

/// A byte written as a decimal number without leading zeros.
pub open spec fn byte_text(b: u8) -> Seq<char> {
    if b < 10 {
        seq![digit_char(b as int)]
    } else if b < 100 {
        seq![digit_char(b as int / 10), digit_char(b as int % 10)]
    } else {
        seq![digit_char(b as int / 100), digit_char(b as int / 10 % 10), digit_char(b as int % 10)]
    }
}

/// Reads a byte, white space before it passed over: a decimal number of at
/// most 255, of one to three digits, without a leading zero.
pub open spec fn read_byte(text: Seq<char>) -> Option<(u8, Seq<char>)> {
    let rest = trimmed(text);
    if !digit_at(rest, 0) {
        None
    } else if !digit_at(rest, 1) {
        Some((digit_value(rest[0]) as u8, rest.skip(1)))
    } else if rest[0] == '0' {
        None
    } else if !digit_at(rest, 2) {
        Some(((digit_value(rest[0]) * 10 + digit_value(rest[1])) as u8, rest.skip(2)))
    } else if digit_at(rest, 3) {
        None
    } else {
        let value = digit_value(rest[0]) * 100 + digit_value(rest[1]) * 10 + digit_value(rest[2]);
        if value > 255 {
            None
        } else {
            Some((value as u8, rest.skip(3)))
        }
    }
}

/// A decimal digit stands for the number it was written for.
pub proof fn lemma_digit_char(n: int)
    requires
        0 <= n < 10,
    ensures
        is_digit(digit_char(n)),
        !is_space(digit_char(n)),
        digit_value(digit_char(n)) == n,
        digit_char(n) == '0' <==> n == 0,
{
    assert(digit_char(n) as int == '0' as int + n);
}

/// A written byte behind white space is read back, and what follows it is
/// left, provided that no digit follows it.
pub proof fn lemma_read_byte(space: Seq<char>, b: u8, rest: Seq<char>)
    requires
        all_space(space),
        rest.len() > 0 ==> !is_digit(rest[0]),
    ensures
        read_byte(space + (byte_text(b) + rest)) == Some((b, rest)),
{
    let number = byte_text(b);
    let value = b as int;
    lemma_digit_char(value % 10);
    lemma_digit_char(value / 10 % 10);
    if 10 <= value < 100 {
        lemma_digit_char(value / 10);
    }
    if value >= 100 {
        lemma_digit_char(value / 100);
    }
    assert((number + rest)[0] == number[0]);
    lemma_trimmed_space(space, number + rest);
    let text = number + rest;
    assert(text.skip(number.len() as int) == rest);
    assert(forall|i: int| 0 <= i < number.len() ==> text[i] == number[i]);
    if rest.len() > 0 {
        assert(text[number.len() as int] == rest[0]);
    }
}

/// Appends `b` to `out` as a decimal number, see [`byte_text`].
pub fn write_byte(out: &mut Vec<char>, b: u8)
    ensures
        final(out)@ == old(out)@ + byte_text(b),
{
    if b >= 100 {
        out.push((48u8 + b / 100) as char);
    }
    if b >= 10 {
        out.push((48u8 + b / 10 % 10) as char);
    }
    out.push((48u8 + b % 10) as char);
    assert(out@ == old(out)@ + byte_text(b));
}

/// The number that the decimal digit at `at` stands for, `None` where no
/// digit stands there.
fn digit_of(input: &Vec<char>, at: usize) -> (digit: Option<u32>)
    ensures
        match digit {
            Some(d) => digit_at(input@, at as int) && d == digit_value(input@[at as int]) && d
                < 10,
            None => !digit_at(input@, at as int),
        },
{
    if at >= input.len() {
        return None;
    }
    let code = char_code(input[at]);
    if 48 <= code && code <= 57 {
        Some(code - 48)
    } else {
        None
    }
}

/// Reads a byte at `at`, white space before it passed over: its value and
/// the position behind its last digit.
pub fn take_byte(input: &Vec<char>, at: usize) -> (found: Option<(u8, usize)>)
    requires
        at <= input.len(),
    ensures
        match found {
            Some((b, next)) => at < next <= input.len() && read_byte(input@.skip(at as int))
                == Some((b, input@.skip(next as int))),
            None => read_byte(input@.skip(at as int)) is None,
        },
{
    let start = skip_spaces(input, at);
    let ghost rest = input@.skip(start as int);
    assert(forall|k: int| 0 <= k && start + k < input.len() ==> rest[k] == input@[start + k]);
    assert(forall|k: int| 0 <= k <= 3 && start + k <= input.len() ==> rest.skip(k) == input@.skip(
        start + k,
    ));
    let first = match digit_of(input, start) {
        Some(d) => d,
        None => {
            return None;
        },
    };
    let second = match digit_of(input, start + 1) {
        Some(d) => d,
        None => {
            return Some((first as u8, start + 1));
        },
    };
    if first == 0 {
        return None;
    }
    let third = match digit_of(input, start + 2) {
        Some(d) => d,
        None => {
            return Some(((first * 10 + second) as u8, start + 2));
        },
    };
    if digit_of(input, start + 3).is_some() {
        return None;
    }
    let value = first * 100 + second * 10 + third;
    if value > 255 {
        None
    } else {
        Some((value as u8, start + 3))
    }
}

} // verus!
