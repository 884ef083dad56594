//! Templates for the files of a new project.
//!
//! A template is text in which a placeholder stands wherever a value is to
//! be put. The template text itself is data that the caller supplies.

use vstd::prelude::*;
use crate::text::{append_chars, from_chars, has_at, starts_with, to_chars};

verus! {

/// The placeholder that stands for the project's name in a template.
pub const PROJECT_NAME_PLACEHOLDER: &'static str = "ENIGMA_PROJECT_NAME";

/// `template` with `value` in place of each occurrence of `placeholder`,
/// the occurrences taken from the left and not overlapping. An empty
/// placeholder occurs nowhere.
pub open spec fn substituted(
    template: Seq<char>,
    placeholder: Seq<char>,
    value: Seq<char>,
) -> Seq<char>
    decreases template.len(),
{
    if template.len() == 0 {
        template
    } else if placeholder.len() > 0 && starts_with(template, placeholder) {
        value + substituted(template.skip(placeholder.len() as int), placeholder, value)
    } else {
        seq![template[0]] + substituted(template.skip(1), placeholder, value)
    }
}

/// Puts `value` in place of each occurrence of `placeholder` in
/// `template`, see [`substituted`].
pub fn substitute(template: &str, placeholder: &str, value: &str) -> (result: String)
    ensures
        result@ == substituted(template@, placeholder@, value@),
{
    let chars = to_chars(template);
    let value_chars = to_chars(value);
    let width = placeholder.unicode_len();
    let mut out: Vec<char> = Vec::new();
    let mut i: usize = 0;
    assert(chars@.skip(0) == chars@);
    while i < chars.len()
        invariant
            i <= chars.len(),
            chars@ == template@,
            value_chars@ == value@,
            width == placeholder@.len(),
            out@ + substituted(chars@.skip(i as int), placeholder@, value@) == substituted(
                template@,
                placeholder@,
                value@,
            ),
        decreases chars.len() - i,
    {
        let ghost rest = chars@.skip(i as int);
        if width > 0 && has_at(&chars, i, placeholder) {
            let ghost after = substituted(rest.skip(width as int), placeholder@, value@);
            assert(rest.skip(width as int) == chars@.skip(i + width));
            assert(out@ + (value@ + after) == (out@ + value@) + after);
            append_chars(&mut out, &value_chars);
            i = i + width;
        } else {
            let ghost after = substituted(rest.skip(1), placeholder@, value@);
            assert(rest.skip(1) == chars@.skip(i + 1));
            assert(out@ + (seq![rest[0]] + after) == out@.push(chars@[i as int]) + after);
            out.push(chars[i]);
            i = i + 1;
        }
    }
    assert(out@ + Seq::<char>::empty() == out@);
    from_chars(&out)
}

/// Puts the project's name in place of [`PROJECT_NAME_PLACEHOLDER`].
pub fn render_template(template: &str, project_name: &str) -> (result: String)
    ensures
        result@ == substituted(template@, PROJECT_NAME_PLACEHOLDER@, project_name@),
{
    substitute(template, PROJECT_NAME_PLACEHOLDER, project_name)
}

} // verus!
