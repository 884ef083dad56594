//! Text as sequences of characters.
//!
//! Contracts speak of a string by its view, a `Seq<char>`. The functions
//! here move between `&str`, `String` and `Vec<char>`, the form in which the
//! rest of the library reads and builds text.

use vstd::prelude::*;

verus! {

/// `String::push`: appends one character to the end of the string.
#[verifier::external_body]
pub(crate) fn push_char(text: &mut String, c: char)
    ensures
        final(text)@ == old(text)@.push(c),
{
    text.push(c);
}

/// The characters of `text`, in order.
pub fn to_chars(text: &str) -> (chars: Vec<char>)
    ensures
        chars@ == text@,
{
    broadcast use vstd::string::group_string_axioms;

    let mut chars: Vec<char> = Vec::new();
    for c in it: text.chars()
        invariant
            it.seq() == text@,
            chars@ == text@.take(it.index()),
    {
        chars.push(c);
        assert(text@.take(it.index() + 1) == text@.take(it.index()).push(text@[it.index()]));
    }
    chars
}

/// The string that holds `chars`, in order.
pub fn from_chars(chars: &Vec<char>) -> (text: String)
    ensures
        text@ == chars@,
{
    let mut text = String::new();
    let mut i: usize = 0;
    while i < chars.len()
        invariant
            i <= chars.len(),
            text@ == chars@.take(i as int),
        decreases chars.len() - i,
    {
        push_char(&mut text, chars[i]);
        assert(chars@.take(i + 1) == chars@.take(i as int).push(chars@[i as int]));
        i = i + 1;
    }
    text
}

/// Appends the characters of `text` to `buffer`.
pub fn append_str(buffer: &mut Vec<char>, text: &str)
    ensures
        final(buffer)@ == old(buffer)@ + text@,
{
    broadcast use vstd::string::group_string_axioms;

    for c in it: text.chars()
        invariant
            it.seq() == text@,
            buffer@ == old(buffer)@ + text@.take(it.index()),
    {
        buffer.push(c);
        assert(text@.take(it.index() + 1) == text@.take(it.index()).push(text@[it.index()]));
    }
}

/// Appends `chars` to `buffer`.
pub fn append_chars(buffer: &mut Vec<char>, chars: &Vec<char>)
    ensures
        final(buffer)@ == old(buffer)@ + chars@,
{
    let mut i: usize = 0;
    while i < chars.len()
        invariant
            i <= chars.len(),
            buffer@ == old(buffer)@ + chars@.take(i as int),
        decreases chars.len() - i,
    {
        buffer.push(chars[i]);
        assert(chars@.take(i + 1) == chars@.take(i as int).push(chars@[i as int]));
        i = i + 1;
    }
}

/// Whether `prefix` stands at the start of `text`.
pub open spec fn starts_with(text: Seq<char>, prefix: Seq<char>) -> bool {
    prefix.len() <= text.len() && text.take(prefix.len() as int) == prefix
}

/// Whether `word` stands in `chars` at position `at`.
pub fn has_at(chars: &Vec<char>, at: usize, word: &str) -> (found: bool)
    requires
        at <= chars.len(),
    ensures
        found == starts_with(chars@.skip(at as int), word@),
{
    broadcast use vstd::string::group_string_axioms;

    let ghost tail = chars@.skip(at as int);
    let mut i: usize = at;
    for c in it: word.chars()
        invariant
            it.seq() == word@,
            at <= chars.len(),
            tail == chars@.skip(at as int),
            i == at + it.index(),
            i <= chars.len(),
            tail.take(it.index()) == word@.take(it.index()),
    {
        if i >= chars.len() || chars[i] != c {
            proof {
                if starts_with(tail, word@) {
                    assert(tail.take(word@.len() as int)[it.index()] == word@[it.index()]);
                }
            }
            return false;
        }
        assert(tail.take(it.index() + 1) == tail.take(it.index()).push(tail[it.index()]));
        assert(word@.take(it.index() + 1) == word@.take(it.index()).push(word@[it.index()]));
        i = i + 1;
    }
    assert(word@.take(word@.len() as int) == word@);
    true
}

/// Whether `text` is `word`, character for character.
pub fn has_whole(text: &String, word: &str) -> (same: bool)
    ensures
        same == (text@ == word@),
{
    let chars = to_chars(text.as_str());
    let width = word.unicode_len();
    assert(chars@.skip(0) == chars@);
    if chars.len() == width && has_at(&chars, 0, word) {
        assert(chars@.take(width as int) == chars@);
        true
    } else {
        proof {
            if text@ == word@ {
                assert(chars@.take(width as int) == chars@);
            }
        }
        false
    }
}

} // verus!
