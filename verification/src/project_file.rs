//! The project file: the text in which the project aggregate is kept on
//! disk.
//!
//! The file is a JSON object of fixed shape. Its keys stand in a fixed
//! order, a format version first; white space between its items is free.
//! A file without a format version is read as well.
//! [`project_text`] says how an aggregate is written, [`read_project`]
//! which aggregate a text stands for, and [`lemma_project_round_trip`] that
//! what was written is read back unchanged.

use vstd::prelude::*;
use crate::descriptors::{lemma_binary_reads_back, lemma_string_reads_back, lemma_text_reads_back};
use crate::engine::{Engine, EngineView};
use crate::fields::{
    blank, bool_word, key_then, left, lemma_gaps, lemma_read_bool, lemma_then_key, none,
    put_char, put_key, put_list, put_string, put_word, string_then, take_bool, take_key,
    then_bool, then_key, token,
};
use crate::json::{
    after_word, all_space, lemma_after_word, lemma_read_string, lemma_trimmed_space, quoted,
    skip_spaces, take_char, take_quoted, take_string, then_string, then_word, trimmed,
};
use crate::lists::{
    item_reader, item_writer, lemma_read_list, list_text, reads_back, take_list, then_list,
    views, Item,
};
use crate::resources::{BinaryResource, BinaryResourceView, TextResource, TextResourceView};
use crate::text::{append_str, from_chars, to_chars};

verus! {

/// The white space before each key of the project file: a new line and
/// two blanks.
pub open spec fn line() -> Seq<char> {
    "\n  "@
}

/// The white space before each descriptor of a catalog: a new line and
/// four blanks.
pub open spec fn deep() -> Seq<char> {
    "\n    "@
}

/// A new line.
pub open spec fn newline() -> Seq<char> {
    "\n"@
}

/// The version of the format, as it is written.
pub open spec fn version_word() -> Seq<char> {
    seq!['1']
}

/// The gaps between the items of the project file are white space.
pub proof fn lemma_indents()
    ensures
        all_space(line()),
        all_space(deep()),
        all_space(newline()),
        line().len() > 0,
        newline().len() > 0,
{
    reveal_strlit("\n  ");
    reveal_strlit("\n    ");
    reveal_strlit("\n");
}

/// The first keys of the project file, each with its value and a comma:
/// the format version, the project path, the selected resource and the
/// flag of the object builder.
pub open spec fn head_then(project: EngineView, rest: Seq<char>) -> Seq<char> {
    let open = token(
        blank(),
        bool_word(project.object_builder_open),
        token(none(), seq![','], rest),
    );
    let fourth = token(none(), seq![','], key_then(line(), "object_builder_open"@, open));
    let selected = string_then(blank(), project.selected_resource, fourth);
    let third = token(none(), seq![','], key_then(line(), "selected_resource"@, selected));
    let path = string_then(blank(), project.current_project, third);
    let second = token(none(), seq![','], key_then(line(), "current_project"@, path));
    key_then(line(), "format_version"@, token(blank(), version_word(), second))
}

/// Reads the format version where the project file starts with one: the
/// key, the version that this library writes, and a comma. A file that
/// starts with another key has no version and is read from there.
pub open spec fn read_version(cursor: Option<Seq<char>>) -> Option<Seq<char>> {
    if then_word(cursor, quoted("format_version"@)) is Some {
        then_word(then_word(then_key(cursor, "format_version"@), version_word()), seq![','])
    } else {
        cursor
    }
}

/// Reads the first keys of the project file: the project path, the
/// selected resource and the flag of the object builder, behind the format
/// version if there is one.
pub open spec fn read_head(cursor: Option<Seq<char>>) -> Option<
    ((Seq<char>, Seq<char>, bool), Seq<char>),
> {
    let version = read_version(cursor);
    let path = then_string(then_key(version, "current_project"@));
    let selected = then_string(
        then_key(then_word(left(path), seq![',']), "selected_resource"@),
    );
    let open = then_bool(
        then_key(then_word(left(selected), seq![',']), "object_builder_open"@),
    );
    let end = then_word(left(open), seq![',']);
    match (path, selected, open, end) {
        (Some((path, _)), Some((selected, _)), Some((open, _)), Some(rest)) => Some(
            ((path, selected, open), rest),
        ),
        _ => None,
    }
}

/// The written first keys are read back, and what follows them is left.
pub proof fn lemma_read_head(project: EngineView, rest: Seq<char>)
    ensures
        read_head(Some(head_then(project, rest))) == Some(
            (
                (project.current_project, project.selected_resource, project.object_builder_open),
                rest,
            ),
        ),
{
    let t11 = token(none(), seq![','], rest);
    let t10 = token(blank(), bool_word(project.object_builder_open), t11);
    let t9 = key_then(line(), "object_builder_open"@, t10);
    let t8 = token(none(), seq![','], t9);
    let t7 = string_then(blank(), project.selected_resource, t8);
    let t6 = key_then(line(), "selected_resource"@, t7);
    let t5 = token(none(), seq![','], t6);
    let t4 = string_then(blank(), project.current_project, t5);
    let t3 = key_then(line(), "current_project"@, t4);
    let t2 = token(none(), seq![','], t3);
    let t1 = token(blank(), version_word(), t2);
    lemma_gaps();
    lemma_indents();
    lemma_then_key(line(), "format_version"@, t1);
    assert(then_word(Some(head_then(project, rest)), quoted("format_version"@)) is Some);
    lemma_after_word(blank(), version_word(), t2);
    lemma_after_word(none(), seq![','], t3);
    lemma_then_key(line(), "current_project"@, t4);
    lemma_read_string(blank(), project.current_project, t5);
    lemma_after_word(none(), seq![','], t6);
    lemma_then_key(line(), "selected_resource"@, t7);
    lemma_read_string(blank(), project.selected_resource, t8);
    lemma_after_word(none(), seq![','], t9);
    lemma_then_key(line(), "object_builder_open"@, t10);
    lemma_read_bool(blank(), project.object_builder_open, t11);
    lemma_after_word(none(), seq![','], rest);
}

/// A key with a list as its value, and what follows it. Each item of the
/// list stands on a line of its own.
pub open spec fn catalog_then<T: Item>(key: Seq<char>, items: Seq<T::V>, rest: Seq<char>) -> Seq<
    char,
> {
    key_then(
        line(),
        key,
        blank() + (list_text(items, item_writer::<T>(), deep(), line()) + rest),
    )
}

/// Reads a key with a list as its value on what an earlier reader left.
pub open spec fn then_catalog<T: Item>(cursor: Option<Seq<char>>, key: Seq<char>) -> Option<
    (Seq<T::V>, Seq<char>),
> {
    then_list(then_key(cursor, key), item_reader::<T>())
}

/// A written key with its list is read back, and what follows it is left.
pub proof fn lemma_read_catalog<T: Item>(key: Seq<char>, items: Seq<T::V>, rest: Seq<char>)
    requires
        forall|i: int|
            0 <= i < items.len() ==> reads_back(
                item_reader::<T>(),
                item_writer::<T>(),
                #[trigger] items[i],
            ),
    ensures
        then_catalog::<T>(Some(catalog_then::<T>(key, items, rest)), key) == Some((items, rest)),
{
    lemma_gaps();
    lemma_indents();
    let value = blank() + (list_text(items, item_writer::<T>(), deep(), line()) + rest);
    lemma_then_key(line(), key, value);
    lemma_read_list(items, item_reader::<T>(), item_writer::<T>(), deep(), line(), blank(), rest);
}

/// The four catalogs of binary assets, each with a comma behind it.
pub open spec fn binaries_then(project: EngineView, rest: Seq<char>) -> Seq<char> {
    let others = catalog_then::<BinaryResource>(
        "other_binary_resources"@,
        project.other_binary_resources,
        token(none(), seq![','], rest),
    );
    let textures = catalog_then::<BinaryResource>(
        "texture_resources"@,
        project.texture_resources,
        token(none(), seq![','], others),
    );
    let audio = catalog_then::<BinaryResource>(
        "audio_resources"@,
        project.audio_resources,
        token(none(), seq![','], textures),
    );
    catalog_then::<BinaryResource>(
        "model_resources"@,
        project.model_resources,
        token(none(), seq![','], audio),
    )
}

/// Reads the four catalogs of binary assets: models, audio, textures and
/// others.
pub open spec fn read_binaries(cursor: Option<Seq<char>>) -> Option<
    (
        (
            Seq<BinaryResourceView>,
            Seq<BinaryResourceView>,
            Seq<BinaryResourceView>,
            Seq<BinaryResourceView>,
        ),
        Seq<char>,
    ),
> {
    let models = then_catalog::<BinaryResource>(cursor, "model_resources"@);
    let audio = then_catalog::<BinaryResource>(
        then_word(left(models), seq![',']),
        "audio_resources"@,
    );
    let textures = then_catalog::<BinaryResource>(
        then_word(left(audio), seq![',']),
        "texture_resources"@,
    );
    let others = then_catalog::<BinaryResource>(
        then_word(left(textures), seq![',']),
        "other_binary_resources"@,
    );
    let end = then_word(left(others), seq![',']);
    match (models, audio, textures, others, end) {
        (
            Some((models, _)),
            Some((audio, _)),
            Some((textures, _)),
            Some((others, _)),
            Some(rest),
        ) => Some(((models, audio, textures, others), rest)),
        _ => None,
    }
}

/// The written catalogs of binary assets are read back, and what follows
/// them is left.
pub proof fn lemma_read_binaries(project: EngineView, rest: Seq<char>)
    ensures
        read_binaries(Some(binaries_then(project, rest))) == Some(
            (
                (
                    project.model_resources,
                    project.audio_resources,
                    project.texture_resources,
                    project.other_binary_resources,
                ),
                rest,
            ),
        ),
{
    let t7 = token(none(), seq![','], rest);
    let t6 = catalog_then::<BinaryResource>(
        "other_binary_resources"@,
        project.other_binary_resources,
        t7,
    );
    let t5 = token(none(), seq![','], t6);
    let t4 = catalog_then::<BinaryResource>("texture_resources"@, project.texture_resources, t5);
    let t3 = token(none(), seq![','], t4);
    let t2 = catalog_then::<BinaryResource>("audio_resources"@, project.audio_resources, t3);
    let t1 = token(none(), seq![','], t2);
    lemma_gaps();
    assert forall|value: BinaryResourceView|
        reads_back(
            item_reader::<BinaryResource>(),
            item_writer::<BinaryResource>(),
            value,
        ) by {
        lemma_binary_reads_back(value);
    }
    lemma_read_catalog::<BinaryResource>("model_resources"@, project.model_resources, t1);
    lemma_after_word(none(), seq![','], t2);
    lemma_read_catalog::<BinaryResource>("audio_resources"@, project.audio_resources, t3);
    lemma_after_word(none(), seq![','], t4);
    lemma_read_catalog::<BinaryResource>("texture_resources"@, project.texture_resources, t5);
    lemma_after_word(none(), seq![','], t6);
    lemma_read_catalog::<BinaryResource>(
        "other_binary_resources"@,
        project.other_binary_resources,
        t7,
    );
    lemma_after_word(none(), seq![','], rest);
}

/// The two catalogs of text assets and the scene objects, with the brace
/// that closes the project file.
pub open spec fn texts_then(project: EngineView, rest: Seq<char>) -> Seq<char> {
    let objects = catalog_then::<String>(
        "object_resources"@,
        project.object_resources,
        token(newline(), seq!['}'], rest),
    );
    let others = catalog_then::<TextResource>(
        "other_text_resources"@,
        project.other_text_resources,
        token(none(), seq![','], objects),
    );
    catalog_then::<TextResource>(
        "shader_resources"@,
        project.shader_resources,
        token(none(), seq![','], others),
    )
}

/// Reads the two catalogs of text assets and the scene objects, up to the
/// brace that closes the project file.
pub open spec fn read_texts(cursor: Option<Seq<char>>) -> Option<
    ((Seq<TextResourceView>, Seq<TextResourceView>, Seq<Seq<char>>), Seq<char>),
> {
    let shaders = then_catalog::<TextResource>(cursor, "shader_resources"@);
    let others = then_catalog::<TextResource>(
        then_word(left(shaders), seq![',']),
        "other_text_resources"@,
    );
    let objects = then_catalog::<String>(
        then_word(left(others), seq![',']),
        "object_resources"@,
    );
    let end = then_word(left(objects), seq!['}']);
    match (shaders, others, objects, end) {
        (Some((shaders, _)), Some((others, _)), Some((objects, _)), Some(rest)) => Some(
            ((shaders, others, objects), rest),
        ),
        _ => None,
    }
}

/// The written catalogs of text assets and scene objects are read back,
/// and what follows the closing brace is left.
pub proof fn lemma_read_texts(project: EngineView, rest: Seq<char>)
    ensures
        read_texts(Some(texts_then(project, rest))) == Some(
            (
                (project.shader_resources, project.other_text_resources, project.object_resources),
                rest,
            ),
        ),
{
    let t5 = token(newline(), seq!['}'], rest);
    let t4 = catalog_then::<String>("object_resources"@, project.object_resources, t5);
    let t3 = token(none(), seq![','], t4);
    let t2 = catalog_then::<TextResource>(
        "other_text_resources"@,
        project.other_text_resources,
        t3,
    );
    let t1 = token(none(), seq![','], t2);
    lemma_gaps();
    lemma_indents();
    assert forall|value: TextResourceView|
        reads_back(item_reader::<TextResource>(), item_writer::<TextResource>(), value) by {
        lemma_text_reads_back(value);
    }
    assert forall|value: Seq<char>|
        reads_back(item_reader::<String>(), item_writer::<String>(), value) by {
        lemma_string_reads_back(value);
    }
    lemma_read_catalog::<TextResource>("shader_resources"@, project.shader_resources, t1);
    lemma_after_word(none(), seq![','], t2);
    lemma_read_catalog::<TextResource>(
        "other_text_resources"@,
        project.other_text_resources,
        t3,
    );
    lemma_after_word(none(), seq![','], t4);
    lemma_read_catalog::<String>("object_resources"@, project.object_resources, t5);
    lemma_after_word(newline(), seq!['}'], rest);
}

/// The project file of an aggregate: its text, as [`serialize_project`]
/// writes it.
#[verifier::opaque]
pub open spec fn project_text(project: EngineView) -> Seq<char> {
    token(
        none(),
        seq!['{'],
        head_then(project, binaries_then(project, texts_then(project, newline()))),
    )
}

/// The aggregate that a text stands for as a project file, `None` where the
/// text is no project file: where it is not of the shape that
/// [`project_text`] gives, white space between the items and a missing
/// format version set aside, where its format version is another one, or
/// where a descriptor stands in a catalog of another category than its
/// own.
#[verifier::opaque]
pub open spec fn read_project(text: Seq<char>) -> Option<EngineView> {
    let head = read_head(after_word(text, seq!['{']));
    let binaries = read_binaries(left(head));
    let texts = read_texts(left(binaries));
    match (head, binaries, texts) {
        (Some((head, _)), Some((binaries, _)), Some((texts, rest))) => {
            let project = EngineView {
                current_project: head.0,
                selected_resource: head.1,
                object_builder_open: head.2,
                model_resources: binaries.0,
                audio_resources: binaries.1,
                texture_resources: binaries.2,
                other_binary_resources: binaries.3,
                shader_resources: texts.0,
                other_text_resources: texts.1,
                object_resources: texts.2,
            };
            if trimmed(rest).len() == 0 && project.catalogs_consistent() {
                Some(project)
            } else {
                None
            }
        },
        _ => None,
    }
}

/// Round trip: the project file of an aggregate whose descriptors stand in
/// the catalogs of their categories is read back as that aggregate, every
/// catalog with its entries in their order, names, contents and
/// categories unchanged.
pub proof fn lemma_project_round_trip(project: EngineView)
    requires
        project.catalogs_consistent(),
    ensures
        read_project(project_text(project)) == Some(project),
{
    reveal(project_text);
    reveal(read_project);
    let t3 = texts_then(project, newline());
    let t2 = binaries_then(project, t3);
    let t1 = head_then(project, t2);
    lemma_gaps();
    lemma_indents();
    lemma_after_word(none(), seq!['{'], t1);
    lemma_read_head(project, t2);
    lemma_read_binaries(project, t3);
    lemma_read_texts(project, newline());
    assert(trimmed(newline()).len() == 0) by {
        lemma_trimmed_space(newline(), Seq::empty());
        assert(newline() + Seq::<char>::empty() == newline());
    }
    let read = read_project(project_text(project));
    assert(read is Some);
    assert(read.unwrap() =~= project);
}

/// What was read from a project file stays the same however often it is
/// written and read again.
pub proof fn lemma_read_project_is_stable(text: Seq<char>)
    requires
        read_project(text) is Some,
    ensures
        read_project(project_text(read_project(text).unwrap())) == read_project(text),
{
    assert(read_project(text).unwrap().catalogs_consistent()) by {
        reveal(read_project);
    }
    lemma_project_round_trip(read_project(text).unwrap());
}

/// Reads the first keys of the project file at `at`.
fn take_head(input: &Vec<char>, at: usize) -> (found: Option<((String, String, bool), usize)>)
    requires
        at <= input.len(),
    ensures
        match found {
            Some(((path, selected, open), next)) => at <= next <= input.len() && read_head(
                Some(input@.skip(at as int)),
            ) == Some(((path@, selected@, open), input@.skip(next as int))),
            None => read_head(Some(input@.skip(at as int))) is None,
        },
{
    let p = match take_quoted(input, at, "format_version") {
        Some(_) => {
            let p = take_key(input, at, "format_version")?;
            let p = take_char(input, p, '1')?;
            take_char(input, p, ',')?
        },
        None => at,
    };
    let p = take_key(input, p, "current_project")?;
    let (path, p) = take_string(input, p)?;
    let p = take_char(input, p, ',')?;
    let p = take_key(input, p, "selected_resource")?;
    let (selected, p) = take_string(input, p)?;
    let p = take_char(input, p, ',')?;
    let p = take_key(input, p, "object_builder_open")?;
    let (open, p) = take_bool(input, p)?;
    let p = take_char(input, p, ',')?;
    Some(((path, selected, open), p))
}

/// Reads the key `key` with a list as its value at `at`.
fn take_catalog<T: Item>(input: &Vec<char>, at: usize, key: &str) -> (found: Option<
    (Vec<T>, usize),
>)
    requires
        at <= input.len(),
    ensures
        match found {
            Some((items, next)) => at <= next <= input.len() && then_catalog::<T>(
                Some(input@.skip(at as int)),
                key@,
            ) == Some((views(items@), input@.skip(next as int))),
            None => then_catalog::<T>(Some(input@.skip(at as int)), key@) is None,
        },
{
    let p = take_key(input, at, key)?;
    take_list::<T>(input, p)
}

/// Reads the four catalogs of binary assets at `at`.
fn take_binaries(input: &Vec<char>, at: usize) -> (found: Option<
    ((Vec<BinaryResource>, Vec<BinaryResource>, Vec<BinaryResource>, Vec<BinaryResource>), usize),
>)
    requires
        at <= input.len(),
    ensures
        match found {
            Some(((models, audio, textures, others), next)) => at <= next <= input.len()
                && read_binaries(Some(input@.skip(at as int))) == Some(
                (
                    (
                        views(models@),
                        views(audio@),
                        views(textures@),
                        views(others@),
                    ),
                    input@.skip(next as int),
                ),
            ),
            None => read_binaries(Some(input@.skip(at as int))) is None,
        },
{
    let (models, p) = take_catalog::<BinaryResource>(input, at, "model_resources")?;
    let p = take_char(input, p, ',')?;
    let (audio, p) = take_catalog::<BinaryResource>(input, p, "audio_resources")?;
    let p = take_char(input, p, ',')?;
    let (textures, p) = take_catalog::<BinaryResource>(input, p, "texture_resources")?;
    let p = take_char(input, p, ',')?;
    let (others, p) = take_catalog::<BinaryResource>(input, p, "other_binary_resources")?;
    let p = take_char(input, p, ',')?;
    Some(((models, audio, textures, others), p))
}

/// Reads the two catalogs of text assets and the scene objects at `at`, up
/// to the closing brace.
fn take_texts(input: &Vec<char>, at: usize) -> (found: Option<
    ((Vec<TextResource>, Vec<TextResource>, Vec<String>), usize),
>)
    requires
        at <= input.len(),
    ensures
        match found {
            Some(((shaders, others, objects), next)) => at <= next <= input.len() && read_texts(
                Some(input@.skip(at as int)),
            ) == Some(
                (
                    (views(shaders@), views(others@), views(objects@)),
                    input@.skip(next as int),
                ),
            ),
            None => read_texts(Some(input@.skip(at as int))) is None,
        },
{
    let (shaders, p) = take_catalog::<TextResource>(input, at, "shader_resources")?;
    let p = take_char(input, p, ',')?;
    let (others, p) = take_catalog::<TextResource>(input, p, "other_text_resources")?;
    let p = take_char(input, p, ',')?;
    let (objects, p) = take_catalog::<String>(input, p, "object_resources")?;
    let p = take_char(input, p, '}')?;
    Some(((shaders, others, objects), p))
}

/// Reads a project file: the aggregate that `text` stands for, `None`
/// where it is no project file, see [`read_project`].
pub fn parse_project(text: &str) -> (project: Option<Engine>)
    ensures
        match project {
            Some(engine) => read_project(text@) == Some(engine@) && engine.wf(),
            None => read_project(text@) is None,
        },
{
    reveal(read_project);
    let input = to_chars(text);
    assert(input@.skip(0) == text@);
    let p = take_char(&input, 0, '{')?;
    let ((current_project, selected_resource, object_builder_open), p) = take_head(&input, p)?;
    let ((model_resources, audio_resources, texture_resources, other_binary_resources), p) =
        take_binaries(&input, p)?;
    let ((shader_resources, other_text_resources, object_resources), p) = take_texts(&input, p)?;
    let end = skip_spaces(&input, p);
    let engine = Engine {
        current_project,
        selected_resource,
        object_builder_open,
        model_resources,
        audio_resources,
        texture_resources,
        other_binary_resources,
        shader_resources,
        other_text_resources,
        object_resources,
    };
    if end == input.len() && engine.is_consistent() {
        Some(engine)
    } else {
        None
    }
}

/// Appends the first keys of the project file, where the text that is
/// being written goes on with them.
fn put_head(
    out: &mut Vec<char>,
    engine: &Engine,
    Ghost(rest): Ghost<Seq<char>>,
    Ghost(target): Ghost<Seq<char>>,
)
    requires
        old(out)@ + head_then(engine@, rest) == target,
    ensures
        final(out)@ + rest == target,
{
    let ghost project = engine@;
    let ghost t11 = token(none(), seq![','], rest);
    let ghost t10 = token(blank(), bool_word(project.object_builder_open), t11);
    let ghost t9 = key_then(line(), "object_builder_open"@, t10);
    let ghost t8 = token(none(), seq![','], t9);
    let ghost t7 = string_then(blank(), project.selected_resource, t8);
    let ghost t6 = key_then(line(), "selected_resource"@, t7);
    let ghost t5 = token(none(), seq![','], t6);
    let ghost t4 = string_then(blank(), project.current_project, t5);
    let ghost t3 = key_then(line(), "current_project"@, t4);
    let ghost t2 = token(none(), seq![','], t3);
    let ghost t1 = token(blank(), version_word(), t2);
    put_key(out, "\n  ", "format_version", Ghost(t1), Ghost(target));
    put_char(out, " ", '1', Ghost(t2), Ghost(target));
    put_char(out, "", ',', Ghost(t3), Ghost(target));
    put_key(out, "\n  ", "current_project", Ghost(t4), Ghost(target));
    put_string(out, " ", engine.current_project.as_str(), Ghost(t5), Ghost(target));
    put_char(out, "", ',', Ghost(t6), Ghost(target));
    put_key(out, "\n  ", "selected_resource", Ghost(t7), Ghost(target));
    put_string(out, " ", engine.selected_resource.as_str(), Ghost(t8), Ghost(target));
    put_char(out, "", ',', Ghost(t9), Ghost(target));
    put_key(out, "\n  ", "object_builder_open", Ghost(t10), Ghost(target));
    if engine.object_builder_open {
        put_word(out, " ", "true", Ghost(t11), Ghost(target));
    } else {
        put_word(out, " ", "false", Ghost(t11), Ghost(target));
    }
    put_char(out, "", ',', Ghost(rest), Ghost(target));
}

/// Appends a key with a list as its value, where the text that is being
/// written goes on with them.
fn put_catalog<T: Item>(
    out: &mut Vec<char>,
    key: &str,
    items: &Vec<T>,
    Ghost(rest): Ghost<Seq<char>>,
    Ghost(target): Ghost<Seq<char>>,
)
    requires
        old(out)@ + catalog_then::<T>(key@, views(items@), rest) == target,
    ensures
        final(out)@ + rest == target,
{
    let ghost value = blank() + (list_text(views(items@), item_writer::<T>(), deep(), line())
        + rest);
    put_key(out, "\n  ", key, Ghost(value), Ghost(target));
    put_list::<T>(out, " ", items, "\n    ", "\n  ", Ghost(rest), Ghost(target));
}

/// Appends the four catalogs of binary assets, where the text that is
/// being written goes on with them.
fn put_binaries(
    out: &mut Vec<char>,
    engine: &Engine,
    Ghost(rest): Ghost<Seq<char>>,
    Ghost(target): Ghost<Seq<char>>,
)
    requires
        old(out)@ + binaries_then(engine@, rest) == target,
    ensures
        final(out)@ + rest == target,
{
    let ghost project = engine@;
    let ghost t7 = token(none(), seq![','], rest);
    let ghost t6 = catalog_then::<BinaryResource>(
        "other_binary_resources"@,
        project.other_binary_resources,
        t7,
    );
    let ghost t5 = token(none(), seq![','], t6);
    let ghost t4 = catalog_then::<BinaryResource>(
        "texture_resources"@,
        project.texture_resources,
        t5,
    );
    let ghost t3 = token(none(), seq![','], t4);
    let ghost t2 = catalog_then::<BinaryResource>(
        "audio_resources"@,
        project.audio_resources,
        t3,
    );
    let ghost t1 = token(none(), seq![','], t2);
    put_catalog(out, "model_resources", &engine.model_resources, Ghost(t1), Ghost(target));
    put_char(out, "", ',', Ghost(t2), Ghost(target));
    put_catalog(out, "audio_resources", &engine.audio_resources, Ghost(t3), Ghost(target));
    put_char(out, "", ',', Ghost(t4), Ghost(target));
    put_catalog(out, "texture_resources", &engine.texture_resources, Ghost(t5), Ghost(target));
    put_char(out, "", ',', Ghost(t6), Ghost(target));
    put_catalog(
        out,
        "other_binary_resources",
        &engine.other_binary_resources,
        Ghost(t7),
        Ghost(target),
    );
    put_char(out, "", ',', Ghost(rest), Ghost(target));
}

/// Appends the two catalogs of text assets, the scene objects and the
/// closing brace, where the text that is being written goes on with them.
fn put_texts(
    out: &mut Vec<char>,
    engine: &Engine,
    Ghost(rest): Ghost<Seq<char>>,
    Ghost(target): Ghost<Seq<char>>,
)
    requires
        old(out)@ + texts_then(engine@, rest) == target,
    ensures
        final(out)@ + rest == target,
{
    let ghost project = engine@;
    let ghost t5 = token(newline(), seq!['}'], rest);
    let ghost t4 = catalog_then::<String>("object_resources"@, project.object_resources, t5);
    let ghost t3 = token(none(), seq![','], t4);
    let ghost t2 = catalog_then::<TextResource>(
        "other_text_resources"@,
        project.other_text_resources,
        t3,
    );
    let ghost t1 = token(none(), seq![','], t2);
    put_catalog(out, "shader_resources", &engine.shader_resources, Ghost(t1), Ghost(target));
    put_char(out, "", ',', Ghost(t2), Ghost(target));
    put_catalog(
        out,
        "other_text_resources",
        &engine.other_text_resources,
        Ghost(t3),
        Ghost(target),
    );
    put_char(out, "", ',', Ghost(t4), Ghost(target));
    put_catalog(out, "object_resources", &engine.object_resources, Ghost(t5), Ghost(target));
    put_char(out, "\n", '}', Ghost(rest), Ghost(target));
}

/// Writes an aggregate as a project file, see [`project_text`].
pub fn serialize_project(engine: &Engine) -> (text: String)
    ensures
        text@ == project_text(engine@),
{
    reveal(project_text);
    let ghost project = engine@;
    let ghost target = project_text(project);
    let ghost t3 = texts_then(project, newline());
    let ghost t2 = binaries_then(project, t3);
    let ghost t1 = head_then(project, t2);
    let mut out: Vec<char> = Vec::new();
    assert(out@ + target == target);
    put_char(&mut out, "", '{', Ghost(t1), Ghost(target));
    put_head(&mut out, engine, Ghost(t2), Ghost(target));
    put_binaries(&mut out, engine, Ghost(t3), Ghost(target));
    put_texts(&mut out, engine, Ghost(newline()), Ghost(target));
    append_str(&mut out, "\n");
    from_chars(&out)
}

} // verus!
