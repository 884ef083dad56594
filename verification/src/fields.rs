//! The pieces that the objects of the project file are made of: keys,
//! categories and truth values, and how a written piece goes on into what
//! follows it.
//!
//! A writer here is a spec function that takes the text which follows the
//! piece and gives the piece with that text behind it, so that the text of
//! an object is built from its end. The reader of a piece works on what an
//! earlier reader left.

use vstd::prelude::*;
use crate::json::{
    after_word, all_space, lemma_after_word, lemma_not_word, lemma_trimmed_space, quoted,
    string_text, take_char, take_quoted, take_word, then_word, write_string,
};
use crate::lists::{item_writer, list_text, views, write_list, Item};
use crate::resources::ResourceType;
use crate::text::{append_str, starts_with};

verus! {

/// A word behind white space, with what follows it.
pub open spec fn token(space: Seq<char>, word: Seq<char>, rest: Seq<char>) -> Seq<char> {
    space + (word + rest)
}

/// A key behind white space, with its colon and what follows it.
pub open spec fn key_then(space: Seq<char>, key: Seq<char>, rest: Seq<char>) -> Seq<char> {
    token(space, quoted(key), token(Seq::empty(), seq![':'], rest))
}

/// Reads a key and its colon on what an earlier reader left.
pub open spec fn then_key(cursor: Option<Seq<char>>, key: Seq<char>) -> Option<Seq<char>> {
    then_word(then_word(cursor, quoted(key)), seq![':'])
}

/// The text that a reader left behind what it read.
pub open spec fn left<T>(read: Option<(T, Seq<char>)>) -> Option<Seq<char>> {
    match read {
        Some((_, rest)) => Some(rest),
        None => None,
    }
}

/// A key behind white space is read with its colon, and what follows is
/// left.
pub proof fn lemma_then_key(space: Seq<char>, key: Seq<char>, rest: Seq<char>)
    requires
        all_space(space),
    ensures
        then_key(Some(key_then(space, key, rest)), key) == Some(rest),
{
    let colon = seq![':'];
    assert(quoted(key)[0] == '"');
    lemma_after_word(space, quoted(key), token(Seq::empty(), colon, rest));
    lemma_after_word(Seq::empty(), colon, rest);
}

/// Reads the key `key` and its colon at `at`.
pub fn take_key(input: &Vec<char>, at: usize, key: &str) -> (next: Option<usize>)
    requires
        at <= input.len(),
    ensures
        match next {
            Some(p) => at < p <= input.len() && then_key(Some(input@.skip(at as int)), key@)
                == Some(input@.skip(p as int)),
            None => then_key(Some(input@.skip(at as int)), key@) is None,
        },
{
    match take_quoted(input, at, key) {
        Some(p) => take_char(input, p, ':'),
        None => None,
    }
}

/// The name under which a category stands in the project file.
pub open spec fn tag_name(resource_type: ResourceType) -> Seq<char> {
    match resource_type {
        ResourceType::Texture => "Texture"@,
        ResourceType::Model => "Model"@,
        ResourceType::Audio => "Audio"@,
        ResourceType::Shader => "Shader"@,
        ResourceType::Other => "Other"@,
    }
}

/// Reads a category: one of the five names, between double quotes.
pub open spec fn read_tag(text: Seq<char>) -> Option<(ResourceType, Seq<char>)> {
    if let Some(rest) = after_word(text, quoted(tag_name(ResourceType::Texture))) {
        Some((ResourceType::Texture, rest))
    } else if let Some(rest) = after_word(text, quoted(tag_name(ResourceType::Model))) {
        Some((ResourceType::Model, rest))
    } else if let Some(rest) = after_word(text, quoted(tag_name(ResourceType::Audio))) {
        Some((ResourceType::Audio, rest))
    } else if let Some(rest) = after_word(text, quoted(tag_name(ResourceType::Shader))) {
        Some((ResourceType::Shader, rest))
    } else if let Some(rest) = after_word(text, quoted(tag_name(ResourceType::Other))) {
        Some((ResourceType::Other, rest))
    } else {
        None
    }
}

/// [`read_tag`] on what an earlier reader left.
pub open spec fn then_tag(cursor: Option<Seq<char>>) -> Option<(ResourceType, Seq<char>)> {
    match cursor {
        Some(text) => read_tag(text),
        None => None,
    }
}

/// A quoted name is not read where another one stands that starts with a
/// different character.
proof fn lemma_other_name(space: Seq<char>, name: Seq<char>, rest: Seq<char>, other: Seq<char>)
    requires
        all_space(space),
        name.len() > 0,
        other.len() > 0,
        name[0] != other[0],
    ensures
        after_word(token(space, quoted(name), rest), quoted(other)) is None,
{
    let text = quoted(name) + rest;
    assert(text[0] == '"');
    lemma_trimmed_space(space, text);
    assert(text[1] == name[0]);
    assert(quoted(other)[1] == other[0]);
    if starts_with(text, quoted(other)) {
        assert(text.take(quoted(other).len() as int)[1] == quoted(other)[1]);
    }
}

/// The names of the categories start with five different characters.
proof fn lemma_tag_names(resource_type: ResourceType)
    ensures
        tag_name(resource_type).len() > 0,
        tag_name(resource_type)[0] == match resource_type {
            ResourceType::Texture => 'T',
            ResourceType::Model => 'M',
            ResourceType::Audio => 'A',
            ResourceType::Shader => 'S',
            ResourceType::Other => 'O',
        },
{
    reveal_strlit("Texture");
    reveal_strlit("Model");
    reveal_strlit("Audio");
    reveal_strlit("Shader");
    reveal_strlit("Other");
}

/// A written category behind white space is read back, and what follows
/// it is left.
pub proof fn lemma_read_tag(space: Seq<char>, resource_type: ResourceType, rest: Seq<char>)
    requires
        all_space(space),
    ensures
        read_tag(token(space, quoted(tag_name(resource_type)), rest)) == Some(
            (resource_type, rest),
        ),
{
    let name = tag_name(resource_type);
    lemma_tag_names(resource_type);
    lemma_tag_names(ResourceType::Texture);
    lemma_tag_names(ResourceType::Model);
    lemma_tag_names(ResourceType::Audio);
    lemma_tag_names(ResourceType::Shader);
    lemma_tag_names(ResourceType::Other);
    assert(quoted(name)[0] == '"');
    lemma_after_word(space, quoted(name), rest);
    if resource_type != ResourceType::Texture {
        lemma_other_name(space, name, rest, tag_name(ResourceType::Texture));
    }
    if resource_type != ResourceType::Model {
        lemma_other_name(space, name, rest, tag_name(ResourceType::Model));
    }
    if resource_type != ResourceType::Audio {
        lemma_other_name(space, name, rest, tag_name(ResourceType::Audio));
    }
    if resource_type != ResourceType::Shader {
        lemma_other_name(space, name, rest, tag_name(ResourceType::Shader));
    }
}

/// The name of a category, see [`tag_name`].
fn tag_of(resource_type: ResourceType) -> (name: &'static str)
    ensures
        name@ == tag_name(resource_type),
{
    match resource_type {
        ResourceType::Texture => "Texture",
        ResourceType::Model => "Model",
        ResourceType::Audio => "Audio",
        ResourceType::Shader => "Shader",
        ResourceType::Other => "Other",
    }
}

/// Reads a category at `at`.
pub fn take_tag(input: &Vec<char>, at: usize) -> (found: Option<(ResourceType, usize)>)
    requires
        at <= input.len(),
    ensures
        match found {
            Some((resource_type, next)) => at < next <= input.len() && read_tag(
                input@.skip(at as int),
            ) == Some((resource_type, input@.skip(next as int))),
            None => read_tag(input@.skip(at as int)) is None,
        },
{
    if let Some(next) = take_quoted(input, at, tag_of(ResourceType::Texture)) {
        Some((ResourceType::Texture, next))
    } else if let Some(next) = take_quoted(input, at, tag_of(ResourceType::Model)) {
        Some((ResourceType::Model, next))
    } else if let Some(next) = take_quoted(input, at, tag_of(ResourceType::Audio)) {
        Some((ResourceType::Audio, next))
    } else if let Some(next) = take_quoted(input, at, tag_of(ResourceType::Shader)) {
        Some((ResourceType::Shader, next))
    } else if let Some(next) = take_quoted(input, at, tag_of(ResourceType::Other)) {
        Some((ResourceType::Other, next))
    } else {
        None
    }
}

/// Appends a category to `out`, between double quotes.
fn write_tag(out: &mut Vec<char>, resource_type: ResourceType)
    ensures
        final(out)@ == old(out)@ + quoted(tag_name(resource_type)),
{
    out.push('"');
    append_str(out, tag_of(resource_type));
    out.push('"');
    assert(out@ == old(out)@ + quoted(tag_name(resource_type)));
}

/// A truth value as it is written.
pub open spec fn bool_word(value: bool) -> Seq<char> {
    if value {
        "true"@
    } else {
        "false"@
    }
}

/// Reads a truth value: `true` or `false`.
pub open spec fn read_bool(text: Seq<char>) -> Option<(bool, Seq<char>)> {
    if let Some(rest) = after_word(text, bool_word(true)) {
        Some((true, rest))
    } else if let Some(rest) = after_word(text, bool_word(false)) {
        Some((false, rest))
    } else {
        None
    }
}

/// [`read_bool`] on what an earlier reader left.
pub open spec fn then_bool(cursor: Option<Seq<char>>) -> Option<(bool, Seq<char>)> {
    match cursor {
        Some(text) => read_bool(text),
        None => None,
    }
}

/// A written truth value behind white space is read back, and what
/// follows it is left.
pub proof fn lemma_read_bool(space: Seq<char>, value: bool, rest: Seq<char>)
    requires
        all_space(space),
    ensures
        read_bool(token(space, bool_word(value), rest)) == Some((value, rest)),
{
    reveal_strlit("true");
    reveal_strlit("false");
    let word = bool_word(value);
    lemma_after_word(space, word, rest);
    if !value {
        assert((word + rest)[0] == 'f');
        lemma_trimmed_space(space, word + rest);
        lemma_not_word(word + rest, bool_word(true));
    }
}

/// Reads a truth value at `at`.
pub fn take_bool(input: &Vec<char>, at: usize) -> (found: Option<(bool, usize)>)
    requires
        at <= input.len(),
    ensures
        match found {
            Some((value, next)) => at <= next <= input.len() && read_bool(input@.skip(at as int))
                == Some((value, input@.skip(next as int))),
            None => read_bool(input@.skip(at as int)) is None,
        },
{
    if let Some(next) = take_word(input, at, "true") {
        Some((true, next))
    } else if let Some(next) = take_word(input, at, "false") {
        Some((false, next))
    } else {
        None
    }
}

/// A string behind white space, with what follows it.
pub open spec fn string_then(space: Seq<char>, text: Seq<char>, rest: Seq<char>) -> Seq<char> {
    space + (string_text(text) + rest)
}

/// A list of bytes behind white space, with what follows it. The bytes
/// stand without white space between them.
pub open spec fn bytes_then(space: Seq<char>, bytes: Seq<u8>, rest: Seq<char>) -> Seq<char> {
    space + (list_text(bytes, item_writer::<u8>(), none(), none()) + rest)
}

/// No white space.
pub open spec fn none() -> Seq<char> {
    ""@
}

/// One blank.
pub open spec fn blank() -> Seq<char> {
    " "@
}

/// The gaps between the items of a descriptor are white space.
pub proof fn lemma_gaps()
    ensures
        none() == Seq::<char>::empty(),
        blank() == seq![' '],
        all_space(none()),
        all_space(blank()),
{
    reveal_strlit("");
    reveal_strlit(" ");
    assert(none() =~= Seq::<char>::empty());
    assert(blank() =~= seq![' ']);
}

/// What is put behind a piece of text and what follows it is put behind
/// what follows it.
pub proof fn lemma_linear(space: Seq<char>, word: Seq<char>, tail: Seq<char>, rest: Seq<char>)
    ensures
        token(space, word, tail) + rest == token(space, word, tail + rest),
{
    assert(token(space, word, tail) + rest =~= token(space, word, tail + rest));
}

/// [`lemma_linear`] for a key and its colon.
pub proof fn lemma_linear_key(space: Seq<char>, key: Seq<char>, tail: Seq<char>, rest: Seq<char>)
    ensures
        key_then(space, key, tail) + rest == key_then(space, key, tail + rest),
{
    lemma_linear(Seq::empty(), seq![':'], tail, rest);
    lemma_linear(space, quoted(key), token(Seq::empty(), seq![':'], tail), rest);
}

/// Appends a word behind white space, where the text that is being
/// written goes on with them.
pub(crate) fn put_word(
    out: &mut Vec<char>,
    space: &str,
    word: &str,
    Ghost(rest): Ghost<Seq<char>>,
    Ghost(target): Ghost<Seq<char>>,
)
    requires
        old(out)@ + token(space@, word@, rest) == target,
    ensures
        final(out)@ + rest == target,
{
    append_str(out, space);
    append_str(out, word);
    assert(out@ + rest =~= old(out)@ + token(space@, word@, rest));
}

/// Appends a character behind white space, where the text that is being
/// written goes on with them.
pub(crate) fn put_char(
    out: &mut Vec<char>,
    space: &str,
    c: char,
    Ghost(rest): Ghost<Seq<char>>,
    Ghost(target): Ghost<Seq<char>>,
)
    requires
        old(out)@ + token(space@, seq![c], rest) == target,
    ensures
        final(out)@ + rest == target,
{
    append_str(out, space);
    out.push(c);
    assert(out@ + rest =~= old(out)@ + token(space@, seq![c], rest));
}

/// Appends a key and its colon behind white space, where the text that is
/// being written goes on with them.
pub(crate) fn put_key(
    out: &mut Vec<char>,
    space: &str,
    key: &str,
    Ghost(rest): Ghost<Seq<char>>,
    Ghost(target): Ghost<Seq<char>>,
)
    requires
        old(out)@ + key_then(space@, key@, rest) == target,
    ensures
        final(out)@ + rest == target,
{
    append_str(out, space);
    out.push('"');
    append_str(out, key);
    out.push('"');
    out.push(':');
    assert(out@ + rest =~= old(out)@ + key_then(space@, key@, rest));
}

/// Appends a string behind white space, where the text that is being
/// written goes on with them.
pub(crate) fn put_string(
    out: &mut Vec<char>,
    space: &str,
    text: &str,
    Ghost(rest): Ghost<Seq<char>>,
    Ghost(target): Ghost<Seq<char>>,
)
    requires
        old(out)@ + string_then(space@, text@, rest) == target,
    ensures
        final(out)@ + rest == target,
{
    append_str(out, space);
    write_string(out, text);
    assert(out@ + rest =~= old(out)@ + string_then(space@, text@, rest));
}

/// Appends a list behind white space, where the text that is being written
/// goes on with them.
pub(crate) fn put_list<T: Item>(
    out: &mut Vec<char>,
    space: &str,
    items: &Vec<T>,
    inner: &str,
    outer: &str,
    Ghost(rest): Ghost<Seq<char>>,
    Ghost(target): Ghost<Seq<char>>,
)
    requires
        old(out)@ + (space@ + (list_text(views(items@), item_writer::<T>(), inner@, outer@)
            + rest)) == target,
    ensures
        final(out)@ + rest == target,
{
    append_str(out, space);
    write_list::<T>(out, items, inner, outer);
    assert(out@ + rest =~= old(out)@ + (space@ + (list_text(
        views(items@),
        item_writer::<T>(),
        inner@,
        outer@,
    ) + rest)));
}

/// Appends a category behind white space, where the text that is being
/// written goes on with them.
pub(crate) fn put_tag(
    out: &mut Vec<char>,
    space: &str,
    resource_type: ResourceType,
    Ghost(rest): Ghost<Seq<char>>,
    Ghost(target): Ghost<Seq<char>>,
)
    requires
        old(out)@ + token(space@, quoted(tag_name(resource_type)), rest) == target,
    ensures
        final(out)@ + rest == target,
{
    append_str(out, space);
    write_tag(out, resource_type);
    assert(out@ + rest =~= old(out)@ + token(space@, quoted(tag_name(resource_type)), rest));
}

} // verus!
