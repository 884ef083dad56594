//! Lists in the project file: items between square brackets, parted by
//! commas.
//!
//! The reader and the writer of a list are stated once, over the reader and
//! the writer of its items.

use vstd::prelude::*;
use crate::json::{
    after_word, all_space, is_space, lemma_after_word, lemma_not_word, lemma_trimmed_space,
    take_char,
};
use crate::text::append_str;

verus! {

/// Reads the items of a list that holds at least one, up to the closing
/// bracket: an item, then either the bracket or a comma and more items.
pub open spec fn read_items<T>(
    text: Seq<char>,
    item: spec_fn(Seq<char>) -> Option<(T, Seq<char>)>,
) -> Option<(Seq<T>, Seq<char>)>
    decreases text.len(),
{
    match item(text) {
        None => None,
        Some((first, rest)) => {
            if rest.len() >= text.len() {
                None
            } else {
                match after_word(rest, seq![']']) {
                    Some(end) => Some((seq![first], end)),
                    None => match after_word(rest, seq![',']) {
                        None => None,
                        Some(more) => {
                            if more.len() >= text.len() {
                                None
                            } else {
                                match read_items(more, item) {
                                    Some((others, end)) => Some((seq![first] + others, end)),
                                    None => None,
                                }
                            }
                        },
                    },
                }
            }
        },
    }
}

/// Reads a list: an opening bracket, then the closing bracket or the items
/// and the closing bracket.
pub open spec fn read_list<T>(
    text: Seq<char>,
    item: spec_fn(Seq<char>) -> Option<(T, Seq<char>)>,
) -> Option<(Seq<T>, Seq<char>)> {
    match after_word(text, seq!['[']) {
        None => None,
        Some(inside) => match after_word(inside, seq![']']) {
            Some(end) => Some((Seq::empty(), end)),
            None => read_items(inside, item),
        },
    }
}

/// [`read_list`] on what an earlier reader left.
pub open spec fn then_list<T>(
    cursor: Option<Seq<char>>,
    item: spec_fn(Seq<char>) -> Option<(T, Seq<char>)>,
) -> Option<(Seq<T>, Seq<char>)> {
    match cursor {
        Some(text) => read_list(text, item),
        None => None,
    }
}

/// The items of a list that holds at least one, with the closing bracket.
/// `inner` is the white space behind each comma, `outer` the white space
/// before the closing bracket.
pub open spec fn items_text<T>(
    items: Seq<T>,
    write: spec_fn(T) -> Seq<char>,
    inner: Seq<char>,
    outer: Seq<char>,
) -> Seq<char>
    decreases items.len(),
{
    if items.len() == 0 {
        outer + seq![']']
    } else if items.len() == 1 {
        write(items[0]) + (outer + seq![']'])
    } else {
        write(items[0]) + (seq![','] + (inner + items_text(items.skip(1), write, inner, outer)))
    }
}

/// A list as it is written: `inner` is the white space before each item,
/// `outer` the white space before the closing bracket. An empty list is
/// written as the two brackets.
pub open spec fn list_text<T>(
    items: Seq<T>,
    write: spec_fn(T) -> Seq<char>,
    inner: Seq<char>,
    outer: Seq<char>,
) -> Seq<char> {
    if items.len() == 0 {
        seq!['[', ']']
    } else {
        seq!['['] + (inner + items_text(items, write, inner, outer))
    }
}

/// What a list puts behind an item: white space, a comma or the closing
/// bracket.
pub open spec fn follows_item(rest: Seq<char>) -> bool {
    rest.len() > 0 && (is_space(rest[0]) || rest[0] == ',' || rest[0] == ']')
}

/// The written form of `value` starts like an item and is read back as
/// `value` wherever it stands in a list.
pub open spec fn reads_back<T>(
    item: spec_fn(Seq<char>) -> Option<(T, Seq<char>)>,
    write: spec_fn(T) -> Seq<char>,
    value: T,
) -> bool {
    &&& write(value).len() > 0
    &&& !is_space(write(value)[0])
    &&& write(value)[0] != ']'
    &&& forall|space: Seq<char>, rest: Seq<char>|
        all_space(space) && follows_item(rest) ==> #[trigger] item(space + (write(value) + rest))
            == Some((value, rest))
}

/// The written items of a list, behind white space, are read back in their
/// order, and what follows the closing bracket is left.
pub proof fn lemma_read_items<T>(
    items: Seq<T>,
    item: spec_fn(Seq<char>) -> Option<(T, Seq<char>)>,
    write: spec_fn(T) -> Seq<char>,
    inner: Seq<char>,
    outer: Seq<char>,
    space: Seq<char>,
    rest: Seq<char>,
)
    requires
        items.len() > 0,
        all_space(inner),
        all_space(outer),
        all_space(space),
        forall|i: int| 0 <= i < items.len() ==> reads_back(item, write, #[trigger] items[i]),
    ensures
        read_items(space + (items_text(items, write, inner, outer) + rest), item) == Some(
            (items, rest),
        ),
    decreases items.len(),
{
    let first = items[0];
    let word = write(first);
    let close = seq![']'];
    let comma = seq![','];
    let text = space + (items_text(items, write, inner, outer) + rest);
    assert(reads_back(item, write, first));
    if items.len() == 1 {
        let behind = outer + (close + rest);
        assert(behind[0] == (if outer.len() > 0 { outer[0] } else { ']' }));
        assert(follows_item(behind));
        assert(text == space + (word + behind));
        assert(item(space + (word + behind)) == Some((first, behind)));
        lemma_after_word(outer, close, rest);
        assert(seq![first] == items);
    } else {
        let others = items.skip(1);
        let more = inner + (items_text(others, write, inner, outer) + rest);
        let behind = comma + more;
        assert(behind[0] == ',');
        assert(follows_item(behind));
        assert(text == space + (word + behind));
        assert(item(space + (word + behind)) == Some((first, behind)));
        lemma_not_word(behind, close);
        assert(behind == Seq::<char>::empty() + (comma + more));
        lemma_after_word(Seq::empty(), comma, more);
        assert forall|i: int| 0 <= i < others.len() implies reads_back(
            item,
            write,
            #[trigger] others[i],
        ) by {
            assert(others[i] == items[i + 1]);
        }
        lemma_read_items(others, item, write, inner, outer, inner, rest);
        assert(seq![first] + others == items);
    }
}

/// A written list, behind white space, is read back as its items in their
/// order, and what follows it is left.
pub proof fn lemma_read_list<T>(
    items: Seq<T>,
    item: spec_fn(Seq<char>) -> Option<(T, Seq<char>)>,
    write: spec_fn(T) -> Seq<char>,
    inner: Seq<char>,
    outer: Seq<char>,
    space: Seq<char>,
    rest: Seq<char>,
)
    requires
        all_space(inner),
        all_space(outer),
        all_space(space),
        forall|i: int| 0 <= i < items.len() ==> reads_back(item, write, #[trigger] items[i]),
    ensures
        read_list(space + (list_text(items, write, inner, outer) + rest), item) == Some(
            (items, rest),
        ),
{
    let open = seq!['['];
    let close = seq![']'];
    let text = space + (list_text(items, write, inner, outer) + rest);
    if items.len() == 0 {
        let inside = close + rest;
        assert(text == space + (open + inside));
        lemma_after_word(space, open, inside);
        assert(inside == Seq::<char>::empty() + (close + rest));
        lemma_after_word(Seq::empty(), close, rest);
        assert(items == Seq::<T>::empty());
    } else {
        let body = items_text(items, write, inner, outer) + rest;
        let inside = inner + body;
        assert(text == space + (open + inside));
        lemma_after_word(space, open, inside);
        assert(reads_back(item, write, items[0]));
        assert(body.len() > 0 && body[0] == write(items[0])[0]) by {
            if items.len() == 1 {
                assert(items_text(items, write, inner, outer)[0] == write(items[0])[0]);
            } else {
                assert(items_text(items, write, inner, outer)[0] == write(items[0])[0]);
            }
        }
        lemma_trimmed_space(inner, body);
        lemma_not_word(body, close);
        assert(after_word(inside, close) is None);
        lemma_read_items(items, item, write, inner, outer, inner, rest);
    }
}

/// A value that can stand in a list of the project file.
pub trait Item: Sized + View {
    /// Reads one item from the start of `text`: what it stands for and the
    /// text behind it.
    spec fn read_item(text: Seq<char>) -> Option<(Self::V, Seq<char>)>;

    /// An item as it is written.
    spec fn item_text(value: Self::V) -> Seq<char>;

    /// Reads one item at `at`: the item and the position behind it.
    fn take_item(input: &Vec<char>, at: usize) -> (found: Option<(Self, usize)>)
        requires
            at <= input.len(),
        ensures
            match found {
                Some((value, next)) => at < next <= input.len() && Self::read_item(
                    input@.skip(at as int),
                ) == Some((value@, input@.skip(next as int))),
                None => Self::read_item(input@.skip(at as int)) is None,
            },
    ;

    /// Appends the item to `out` as it is written.
    fn write_item(&self, out: &mut Vec<char>)
        ensures
            final(out)@ == old(out)@ + Self::item_text(self@),
    ;
}

/// The reader of the items of type `T`.
pub open spec fn item_reader<T: Item>() -> spec_fn(Seq<char>) -> Option<(T::V, Seq<char>)> {
    |text: Seq<char>| T::read_item(text)
}

/// The writer of the items of type `T`.
pub open spec fn item_writer<T: Item>() -> spec_fn(T::V) -> Seq<char> {
    |value: T::V| T::item_text(value)
}

/// What the items of a sequence stand for, in order.
pub open spec fn views<T: View>(items: Seq<T>) -> Seq<T::V> {
    Seq::new(items.len(), |i: int| items[i]@)
}

/// A reader's result with `items` before the items it read.
pub open spec fn with_items<V>(items: Seq<V>, tail: Option<(Seq<V>, Seq<char>)>) -> Option<
    (Seq<V>, Seq<char>),
> {
    match tail {
        Some((more, rest)) => Some((items + more, rest)),
        None => None,
    }
}

/// Reads a list at `at`, white space before it passed over: its items in
/// order and the position behind its closing bracket.
pub fn take_list<T: Item>(input: &Vec<char>, at: usize) -> (found: Option<(Vec<T>, usize)>)
    requires
        at <= input.len(),
    ensures
        match found {
            Some((items, next)) => at < next <= input.len() && read_list(
                input@.skip(at as int),
                item_reader::<T>(),
            ) == Some((views(items@), input@.skip(next as int))),
            None => read_list(input@.skip(at as int), item_reader::<T>()) is None,
        },
{
    let inside = match take_char(input, at, '[') {
        Some(p) => p,
        None => {
            return None;
        },
    };
    let mut items: Vec<T> = Vec::new();
    match take_char(input, inside, ']') {
        Some(end) => {
            assert(views(items@) == Seq::<T::V>::empty());
            return Some((items, end));
        },
        None => {},
    }
    let ghost whole = read_items(input@.skip(inside as int), item_reader::<T>());
    let mut i: usize = inside;
    proof {
        if let Some((more, _)) = whole {
            assert(views(items@) + more == more);
        }
    }
    loop
        invariant
            at < inside <= i <= input.len(),
            whole == read_list(input@.skip(at as int), item_reader::<T>()),
            whole == with_items(
                views(items@),
                read_items(input@.skip(i as int), item_reader::<T>()),
            ),
        decreases input.len() - i,
    {
        let ghost before = views(items@);
        let (value, behind) = match T::take_item(input, i) {
            Some(read) => read,
            None => {
                return None;
            },
        };
        assert(views(items@.push(value)) == before.push(value@));
        match take_char(input, behind, ']') {
            Some(end) => {
                items.push(value);
                assert(before + seq![value@] == before.push(value@));
                return Some((items, end));
            },
            None => {},
        }
        let more = match take_char(input, behind, ',') {
            Some(p) => p,
            None => {
                return None;
            },
        };
        proof {
            if let Some((others, _)) = read_items(input@.skip(more as int), item_reader::<T>()) {
                assert(before + (seq![value@] + others) == before.push(value@) + others);
            }
        }
        items.push(value);
        i = more;
    }
}

/// Appends a list to `out` as it is written, see [`list_text`].
pub fn write_list<T: Item>(out: &mut Vec<char>, items: &Vec<T>, inner: &str, outer: &str)
    ensures
        final(out)@ == old(out)@ + list_text(views(items@), item_writer::<T>(), inner@, outer@),
{
    let ghost all = views(items@);
    let ghost write = item_writer::<T>();
    out.push('[');
    if items.len() == 0 {
        out.push(']');
        assert(out@ == old(out)@ + seq!['[', ']']);
        return;
    }
    append_str(out, inner);
    let ghost start = out@;
    assert(start + items_text(all, write, inner@, outer@) == old(out)@ + list_text(
        all,
        write,
        inner@,
        outer@,
    ));
    let mut i: usize = 0;
    assert(all.skip(0) == all);
    while i < items.len()
        invariant
            i <= items.len(),
            items.len() > 0,
            all == views(items@),
            write == item_writer::<T>(),
            i < items.len() ==> out@ + items_text(all.skip(i as int), write, inner@, outer@)
                == start + items_text(all, write, inner@, outer@),
            i == items.len() ==> out@ == start + items_text(all, write, inner@, outer@),
        decreases items.len() - i,
    {
        let ghost before = out@;
        let ghost left = all.skip(i as int);
        let ghost word = write(left[0]);
        assert(left[0] == items@[i as int]@);
        items[i].write_item(out);
        assert(out@ == before + word);
        if i + 1 == items.len() {
            let ghost tail = outer@ + seq![']'];
            assert(left.len() == 1);
            assert(before + (word + tail) == before + word + outer@ + seq![']']);
            append_str(out, outer);
            out.push(']');
        } else {
            let ghost others = items_text(all.skip(i + 1), write, inner@, outer@);
            assert(left.skip(1) == all.skip(i + 1));
            assert(before + (word + (seq![','] + (inner@ + others))) == before + word + seq![',']
                + inner@ + others);
            out.push(',');
            append_str(out, inner);
        }
        i = i + 1;
    }
}

} // verus!
