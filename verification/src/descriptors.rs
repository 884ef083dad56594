//! The items of the lists in the project file: bytes, strings, and the
//! descriptors of binary and text assets, each written as an object with
//! the keys `name`, `data` and `resource_type`.

use vstd::prelude::*;
use crate::fields::{
    blank, bytes_then, key_then, left, lemma_gaps, lemma_linear, lemma_linear_key,
    lemma_read_tag, lemma_then_key, none, put_char, put_key, put_list, put_string, put_tag,
    string_then, tag_name, take_key, take_tag, then_key, then_tag, token,
};
use crate::json::{
    after_word, all_space, byte_text, is_digit, lemma_after_word, lemma_digit_char,
    lemma_read_byte, lemma_read_string, quoted, read_byte, read_string, string_text, take_byte,
    take_char, take_string, then_string, then_word, write_byte, write_string,
};
use crate::lists::{
    follows_item, item_reader, item_writer, lemma_read_list, list_text, reads_back, take_list,
    then_list, views, Item,
};
use crate::resources::{BinaryResource, BinaryResourceView, TextResource, TextResourceView};

verus! {

/// A byte stands in a list as a decimal number.
impl Item for u8 {
    open spec fn read_item(text: Seq<char>) -> Option<(u8, Seq<char>)> {
        read_byte(text)
    }

    open spec fn item_text(value: u8) -> Seq<char> {
        byte_text(value)
    }

    fn take_item(input: &Vec<char>, at: usize) -> (found: Option<(u8, usize)>) {
        take_byte(input, at)
    }

    fn write_item(&self, out: &mut Vec<char>) {
        write_byte(out, *self)
    }
}

/// A text stands in a list as a string.
impl Item for String {
    open spec fn read_item(text: Seq<char>) -> Option<(Seq<char>, Seq<char>)> {
        read_string(text)
    }

    open spec fn item_text(value: Seq<char>) -> Seq<char> {
        string_text(value)
    }

    fn take_item(input: &Vec<char>, at: usize) -> (found: Option<(String, usize)>) {
        take_string(input, at)
    }

    fn write_item(&self, out: &mut Vec<char>) {
        write_string(out, self.as_str())
    }
}

/// A written byte is read back wherever it stands in a list.
pub proof fn lemma_byte_reads_back(value: u8)
    ensures
        reads_back(item_reader::<u8>(), item_writer::<u8>(), value),
{
    let word = byte_text(value);
    lemma_digit_char(value as int % 10);
    if 10 <= value < 100 {
        lemma_digit_char(value as int / 10);
    }
    if value >= 100 {
        lemma_digit_char(value as int / 100);
    }
    assert(is_digit(word[0]));
    assert forall|space: Seq<char>, rest: Seq<char>|
        all_space(space) && follows_item(rest) implies #[trigger] item_reader::<u8>()(
        space + (item_writer::<u8>()(value) + rest),
    ) == Some((value, rest)) by {
        lemma_read_byte(space, value, rest);
    }
}

/// A written string is read back wherever it stands in a list.
pub proof fn lemma_string_reads_back(value: Seq<char>)
    ensures
        reads_back(item_reader::<String>(), item_writer::<String>(), value),
{
    assert(string_text(value)[0] == '"');
    assert forall|space: Seq<char>, rest: Seq<char>|
        all_space(space) && follows_item(rest) implies #[trigger] item_reader::<String>()(
        space + (item_writer::<String>()(value) + rest),
    ) == Some((value, rest)) by {
        lemma_read_string(space, value, rest);
    }
}

/// A binary descriptor behind white space, with what follows it: an object
/// with the keys `name`, `data` and `resource_type`.
pub open spec fn binary_then(
    space: Seq<char>,
    resource: BinaryResourceView,
    rest: Seq<char>,
) -> Seq<char> {
    let close = token(none(), seq!['}'], rest);
    let tag = token(blank(), quoted(tag_name(resource.resource_type)), close);
    let third = token(none(), seq![','], key_then(blank(), "resource_type"@, tag));
    let data = bytes_then(blank(), resource.data, third);
    let second = token(none(), seq![','], key_then(blank(), "data"@, data));
    let name = string_then(blank(), resource.name, second);
    token(space, seq!['{'], key_then(none(), "name"@, name))
}

/// A binary descriptor as it is written.
pub open spec fn binary_text(resource: BinaryResourceView) -> Seq<char> {
    binary_then(none(), resource, none())
}

/// Reads a binary descriptor.
pub open spec fn read_binary(text: Seq<char>) -> Option<(BinaryResourceView, Seq<char>)> {
    let name = then_string(then_key(after_word(text, seq!['{']), "name"@));
    let data = then_list(
        then_key(then_word(left(name), seq![',']), "data"@),
        item_reader::<u8>(),
    );
    let tag = then_tag(then_key(then_word(left(data), seq![',']), "resource_type"@));
    let end = then_word(left(tag), seq!['}']);
    match (name, data, tag, end) {
        (Some((name, _)), Some((data, _)), Some((resource_type, _)), Some(rest)) => Some(
            (BinaryResourceView { name, data, resource_type }, rest),
        ),
        _ => None,
    }
}

/// A written binary descriptor is read back, and what follows it is left.
pub proof fn lemma_read_binary(space: Seq<char>, resource: BinaryResourceView, rest: Seq<char>)
    requires
        all_space(space),
    ensures
        read_binary(binary_then(space, resource, rest)) == Some((resource, rest)),
{
    let t9 = token(none(), seq!['}'], rest);
    let t8 = token(blank(), quoted(tag_name(resource.resource_type)), t9);
    let t7 = key_then(blank(), "resource_type"@, t8);
    let t6 = token(none(), seq![','], t7);
    let t5 = bytes_then(blank(), resource.data, t6);
    let t4 = key_then(blank(), "data"@, t5);
    let t3 = token(none(), seq![','], t4);
    let t2 = string_then(blank(), resource.name, t3);
    let t1 = key_then(none(), "name"@, t2);
    lemma_gaps();
    lemma_after_word(space, seq!['{'], t1);
    lemma_then_key(none(), "name"@, t2);
    lemma_read_string(blank(), resource.name, t3);
    lemma_after_word(none(), seq![','], t4);
    lemma_then_key(blank(), "data"@, t5);
    assert forall|i: int| 0 <= i < resource.data.len() implies reads_back(
        item_reader::<u8>(),
        item_writer::<u8>(),
        #[trigger] resource.data[i],
    ) by {
        lemma_byte_reads_back(resource.data[i]);
    }
    lemma_read_list(
        resource.data,
        item_reader::<u8>(),
        item_writer::<u8>(),
        none(),
        none(),
        blank(),
        t6,
    );
    lemma_after_word(none(), seq![','], t7);
    lemma_then_key(blank(), "resource_type"@, t8);
    lemma_read_tag(blank(), resource.resource_type, t9);
    lemma_after_word(none(), seq!['}'], rest);
}

/// What follows a written binary descriptor stands directly behind its
/// text.
pub proof fn lemma_binary_then(space: Seq<char>, resource: BinaryResourceView, rest: Seq<char>)
    ensures
        binary_then(space, resource, rest) == space + (binary_text(resource) + rest),
        binary_text(resource).len() > 0,
        binary_text(resource)[0] == '{',
{
    lemma_gaps();
    let t9 = token(none(), seq!['}'], none());
    let t8 = token(blank(), quoted(tag_name(resource.resource_type)), t9);
    let t7 = key_then(blank(), "resource_type"@, t8);
    let t6 = token(none(), seq![','], t7);
    let t5 = bytes_then(blank(), resource.data, t6);
    let t4 = key_then(blank(), "data"@, t5);
    let t3 = token(none(), seq![','], t4);
    let t2 = string_then(blank(), resource.name, t3);
    let t1 = key_then(none(), "name"@, t2);
    assert(none() + rest == rest);
    lemma_linear(none(), seq!['}'], none(), rest);
    lemma_linear(blank(), quoted(tag_name(resource.resource_type)), t9, rest);
    lemma_linear_key(blank(), "resource_type"@, t8, rest);
    lemma_linear(none(), seq![','], t7, rest);
    lemma_linear(
        blank(),
        list_text(resource.data, item_writer::<u8>(), none(), none()),
        t6,
        rest,
    );
    lemma_linear_key(blank(), "data"@, t5, rest);
    lemma_linear(none(), seq![','], t4, rest);
    lemma_linear(blank(), string_text(resource.name), t3, rest);
    lemma_linear_key(none(), "name"@, t2, rest);
    lemma_linear(none(), seq!['{'], t1, rest);
    assert(binary_text(resource) + rest == binary_then(none(), resource, rest));
    assert(binary_then(none(), resource, rest) == seq!['{'] + (t1 + rest));
    assert(binary_then(space, resource, rest) == space + (seq!['{'] + (t1 + rest)));
    assert(binary_text(resource) == seq!['{'] + t1);
}

/// A written binary descriptor is read back wherever it stands in a list.
pub proof fn lemma_binary_reads_back(value: BinaryResourceView)
    ensures
        reads_back(item_reader::<BinaryResource>(), item_writer::<BinaryResource>(), value),
{
    lemma_binary_then(none(), value, none());
    assert forall|space: Seq<char>, rest: Seq<char>|
        all_space(space) && follows_item(rest) implies #[trigger] item_reader::<BinaryResource>()(
        space + (item_writer::<BinaryResource>()(value) + rest),
    ) == Some((value, rest)) by {
        lemma_binary_then(space, value, rest);
        lemma_read_binary(space, value, rest);
    }
}

/// A binary descriptor stands in a list as an object, see [`binary_text`].
impl Item for BinaryResource {
    open spec fn read_item(text: Seq<char>) -> Option<(BinaryResourceView, Seq<char>)> {
        read_binary(text)
    }

    open spec fn item_text(value: BinaryResourceView) -> Seq<char> {
        binary_text(value)
    }

    fn take_item(input: &Vec<char>, at: usize) -> (found: Option<(BinaryResource, usize)>) {
        let p = take_char(input, at, '{')?;
        let p = take_key(input, p, "name")?;
        let (name, p) = take_string(input, p)?;
        let p = take_char(input, p, ',')?;
        let p = take_key(input, p, "data")?;
        let (data, p) = take_list::<u8>(input, p)?;
        let p = take_char(input, p, ',')?;
        let p = take_key(input, p, "resource_type")?;
        let (resource_type, p) = take_tag(input, p)?;
        let p = take_char(input, p, '}')?;
        assert(views(data@) == data@);
        Some((BinaryResource { name, data, resource_type }, p))
    }

    fn write_item(&self, out: &mut Vec<char>) {
        let ghost t9 = token(none(), seq!['}'], none());
        let ghost t8 = token(blank(), quoted(tag_name(self.resource_type)), t9);
        let ghost t7 = key_then(blank(), "resource_type"@, t8);
        let ghost t6 = token(none(), seq![','], t7);
        let ghost t5 = bytes_then(blank(), self.data@, t6);
        let ghost t4 = key_then(blank(), "data"@, t5);
        let ghost t3 = token(none(), seq![','], t4);
        let ghost t2 = string_then(blank(), self.name@, t3);
        let ghost t1 = key_then(none(), "name"@, t2);
        let ghost target = old(out)@ + binary_text(self@);
        proof {
            lemma_gaps();
            assert(views(self.data@) == self.data@);
        }
        put_char(out, "", '{', Ghost(t1), Ghost(target));
        put_key(out, "", "name", Ghost(t2), Ghost(target));
        put_string(out, " ", self.name.as_str(), Ghost(t3), Ghost(target));
        put_char(out, "", ',', Ghost(t4), Ghost(target));
        put_key(out, " ", "data", Ghost(t5), Ghost(target));
        put_list::<u8>(out, " ", &self.data, "", "", Ghost(t6), Ghost(target));
        put_char(out, "", ',', Ghost(t7), Ghost(target));
        put_key(out, " ", "resource_type", Ghost(t8), Ghost(target));
        put_tag(out, " ", self.resource_type, Ghost(t9), Ghost(target));
        put_char(out, "", '}', Ghost(none()), Ghost(target));
        assert(out@ + none() == out@);
    }
}

/// A text descriptor behind white space, with what follows it: an object
/// with the keys `name`, `data` and `resource_type`.
pub open spec fn text_then(
    space: Seq<char>,
    resource: TextResourceView,
    rest: Seq<char>,
) -> Seq<char> {
    let close = token(none(), seq!['}'], rest);
    let tag = token(blank(), quoted(tag_name(resource.resource_type)), close);
    let third = token(none(), seq![','], key_then(blank(), "resource_type"@, tag));
    let data = string_then(blank(), resource.data, third);
    let second = token(none(), seq![','], key_then(blank(), "data"@, data));
    let name = string_then(blank(), resource.name, second);
    token(space, seq!['{'], key_then(none(), "name"@, name))
}

/// A text descriptor as it is written.
pub open spec fn text_text(resource: TextResourceView) -> Seq<char> {
    text_then(none(), resource, none())
}

/// Reads a text descriptor.
pub open spec fn read_text(text: Seq<char>) -> Option<(TextResourceView, Seq<char>)> {
    let name = then_string(then_key(after_word(text, seq!['{']), "name"@));
    let data = then_string(then_key(then_word(left(name), seq![',']), "data"@));
    let tag = then_tag(then_key(then_word(left(data), seq![',']), "resource_type"@));
    let end = then_word(left(tag), seq!['}']);
    match (name, data, tag, end) {
        (Some((name, _)), Some((data, _)), Some((resource_type, _)), Some(rest)) => Some(
            (TextResourceView { name, data, resource_type }, rest),
        ),
        _ => None,
    }
}

/// A written text descriptor is read back, and what follows it is left.
pub proof fn lemma_read_text(space: Seq<char>, resource: TextResourceView, rest: Seq<char>)
    requires
        all_space(space),
    ensures
        read_text(text_then(space, resource, rest)) == Some((resource, rest)),
{
    let t9 = token(none(), seq!['}'], rest);
    let t8 = token(blank(), quoted(tag_name(resource.resource_type)), t9);
    let t7 = key_then(blank(), "resource_type"@, t8);
    let t6 = token(none(), seq![','], t7);
    let t5 = string_then(blank(), resource.data, t6);
    let t4 = key_then(blank(), "data"@, t5);
    let t3 = token(none(), seq![','], t4);
    let t2 = string_then(blank(), resource.name, t3);
    let t1 = key_then(none(), "name"@, t2);
    lemma_gaps();
    lemma_after_word(space, seq!['{'], t1);
    lemma_then_key(none(), "name"@, t2);
    lemma_read_string(blank(), resource.name, t3);
    lemma_after_word(none(), seq![','], t4);
    lemma_then_key(blank(), "data"@, t5);
    lemma_read_string(blank(), resource.data, t6);
    lemma_after_word(none(), seq![','], t7);
    lemma_then_key(blank(), "resource_type"@, t8);
    lemma_read_tag(blank(), resource.resource_type, t9);
    lemma_after_word(none(), seq!['}'], rest);
}

/// What follows a written text descriptor stands directly behind its text.
pub proof fn lemma_text_then(space: Seq<char>, resource: TextResourceView, rest: Seq<char>)
    ensures
        text_then(space, resource, rest) == space + (text_text(resource) + rest),
        text_text(resource).len() > 0,
        text_text(resource)[0] == '{',
{
    lemma_gaps();
    let t9 = token(none(), seq!['}'], none());
    let t8 = token(blank(), quoted(tag_name(resource.resource_type)), t9);
    let t7 = key_then(blank(), "resource_type"@, t8);
    let t6 = token(none(), seq![','], t7);
    let t5 = string_then(blank(), resource.data, t6);
    let t4 = key_then(blank(), "data"@, t5);
    let t3 = token(none(), seq![','], t4);
    let t2 = string_then(blank(), resource.name, t3);
    let t1 = key_then(none(), "name"@, t2);
    assert(none() + rest == rest);
    lemma_linear(none(), seq!['}'], none(), rest);
    lemma_linear(blank(), quoted(tag_name(resource.resource_type)), t9, rest);
    lemma_linear_key(blank(), "resource_type"@, t8, rest);
    lemma_linear(none(), seq![','], t7, rest);
    lemma_linear(blank(), string_text(resource.data), t6, rest);
    lemma_linear_key(blank(), "data"@, t5, rest);
    lemma_linear(none(), seq![','], t4, rest);
    lemma_linear(blank(), string_text(resource.name), t3, rest);
    lemma_linear_key(none(), "name"@, t2, rest);
    lemma_linear(none(), seq!['{'], t1, rest);
    assert(text_text(resource) + rest == text_then(none(), resource, rest));
    assert(text_then(none(), resource, rest) == seq!['{'] + (t1 + rest));
    assert(text_then(space, resource, rest) == space + (seq!['{'] + (t1 + rest)));
    assert(text_text(resource) == seq!['{'] + t1);
}

/// A written text descriptor is read back wherever it stands in a list.
pub proof fn lemma_text_reads_back(value: TextResourceView)
    ensures
        reads_back(item_reader::<TextResource>(), item_writer::<TextResource>(), value),
{
    lemma_text_then(none(), value, none());
    assert forall|space: Seq<char>, rest: Seq<char>|
        all_space(space) && follows_item(rest) implies #[trigger] item_reader::<TextResource>()(
        space + (item_writer::<TextResource>()(value) + rest),
    ) == Some((value, rest)) by {
        lemma_text_then(space, value, rest);
        lemma_read_text(space, value, rest);
    }
}

/// A text descriptor stands in a list as an object, see [`text_text`].
impl Item for TextResource {
    open spec fn read_item(text: Seq<char>) -> Option<(TextResourceView, Seq<char>)> {
        read_text(text)
    }

    open spec fn item_text(value: TextResourceView) -> Seq<char> {
        text_text(value)
    }

    fn take_item(input: &Vec<char>, at: usize) -> (found: Option<(TextResource, usize)>) {
        let p = take_char(input, at, '{')?;
        let p = take_key(input, p, "name")?;
        let (name, p) = take_string(input, p)?;
        let p = take_char(input, p, ',')?;
        let p = take_key(input, p, "data")?;
        let (data, p) = take_string(input, p)?;
        let p = take_char(input, p, ',')?;
        let p = take_key(input, p, "resource_type")?;
        let (resource_type, p) = take_tag(input, p)?;
        let p = take_char(input, p, '}')?;
        Some((TextResource { name, data, resource_type }, p))
    }

    fn write_item(&self, out: &mut Vec<char>) {
        let ghost t9 = token(none(), seq!['}'], none());
        let ghost t8 = token(blank(), quoted(tag_name(self.resource_type)), t9);
        let ghost t7 = key_then(blank(), "resource_type"@, t8);
        let ghost t6 = token(none(), seq![','], t7);
        let ghost t5 = string_then(blank(), self.data@, t6);
        let ghost t4 = key_then(blank(), "data"@, t5);
        let ghost t3 = token(none(), seq![','], t4);
        let ghost t2 = string_then(blank(), self.name@, t3);
        let ghost t1 = key_then(none(), "name"@, t2);
        let ghost target = old(out)@ + text_text(self@);
        proof {
            lemma_gaps();
        }
        put_char(out, "", '{', Ghost(t1), Ghost(target));
        put_key(out, "", "name", Ghost(t2), Ghost(target));
        put_string(out, " ", self.name.as_str(), Ghost(t3), Ghost(target));
        put_char(out, "", ',', Ghost(t4), Ghost(target));
        put_key(out, " ", "data", Ghost(t5), Ghost(target));
        put_string(out, " ", self.data.as_str(), Ghost(t6), Ghost(target));
        put_char(out, "", ',', Ghost(t7), Ghost(target));
        put_key(out, " ", "resource_type", Ghost(t8), Ghost(target));
        put_tag(out, " ", self.resource_type, Ghost(t9), Ghost(target));
        put_char(out, "", '}', Ghost(none()), Ghost(target));
        assert(out@ + none() == out@);
    }
}

} // verus!
