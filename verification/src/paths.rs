//! Paths as text.
//!
//! A path is a sequence of characters whose segments are parted by `/`. The
//! library never asks the disk about a path: what stands there is observed
//! by the caller and handed in as a [`PathState`].

use vstd::prelude::*;
use crate::text::{append_str, from_chars, to_chars};

verus! {

/// What the caller found at a path.
#[derive(Clone, Copy, Debug, PartialEq, Eq, Structural)]
pub enum PathState {
    /// Nothing exists at the path.
    Missing,
    /// A regular file.
    File,
    /// A directory without entries.
    EmptyDirectory,
    /// A directory with at least one entry, file or folder.
    OccupiedDirectory,
}

/// A path with every `\` turned into `/`.
pub open spec fn normalized(path: Seq<char>) -> Seq<char> {
    Seq::new(path.len(), |i: int| if path[i] == '\\' { '/' } else { path[i] })
}

/// A path without the slashes at its end.
pub open spec fn without_trailing_slashes(path: Seq<char>) -> Seq<char>
    decreases path.len(),
{
    if path.len() > 0 && path.last() == '/' {
        without_trailing_slashes(path.drop_last())
    } else {
        path
    }
}

/// Where the last segment of a path starts: behind its last `/`, or at 0
/// where it has none.
pub open spec fn file_name_start(path: Seq<char>) -> int
    decreases path.len(),
{
    if path.len() == 0 {
        0
    } else if path.last() == '/' {
        path.len() as int
    } else {
        file_name_start(path.drop_last())
    }
}

/// The last segment of a path: what follows its last `/`. It is empty where
/// the path ends in `/`.
pub open spec fn file_name(path: Seq<char>) -> Seq<char> {
    path.skip(file_name_start(path))
}

/// The name of what a path leads to: its last segment, slashes at the end
/// of the path set aside.
pub open spec fn base_name(path: Seq<char>) -> Seq<char> {
    file_name(without_trailing_slashes(path))
}

/// The path of `relative` below the directory `directory`. An empty
/// directory path stands for the current directory.
pub open spec fn joined(directory: Seq<char>, relative: Seq<char>) -> Seq<char> {
    if directory.len() == 0 {
        relative
    } else if directory.last() == '/' {
        directory + relative
    } else {
        directory + seq!['/'] + relative
    }
}

/// The start of the last segment lies inside the path, directly behind a
/// `/` unless it is 0, and no `/` follows it.
pub proof fn lemma_file_name_start(path: Seq<char>)
    ensures
        0 <= file_name_start(path) <= path.len(),
        file_name_start(path) > 0 ==> path[file_name_start(path) - 1] == '/',
        forall|i: int| file_name_start(path) <= i < path.len() ==> path[i] != '/',
    decreases path.len(),
{
    if path.len() > 0 && path.last() != '/' {
        let shorter = path.drop_last();
        lemma_file_name_start(shorter);
        assert forall|i: int| file_name_start(path) <= i < path.len() implies path[i] != '/' by {
            if i < shorter.len() {
                assert(shorter[i] == path[i]);
            }
        }
    }
}

/// A position behind a `/` from which no `/` follows is the start of the
/// last segment.
pub proof fn lemma_file_name_start_unique(path: Seq<char>, start: int)
    requires
        0 <= start <= path.len(),
        start > 0 ==> path[start - 1] == '/',
        forall|i: int| start <= i < path.len() ==> path[i] != '/',
    ensures
        file_name_start(path) == start,
    decreases path.len(),
{
    if path.len() > 0 && path.last() != '/' {
        let shorter = path.drop_last();
        assert forall|i: int| start <= i < shorter.len() implies shorter[i] != '/' by {
            assert(shorter[i] == path[i]);
        }
        if start > 0 {
            assert(shorter[start - 1] == path[start - 1]);
        }
        lemma_file_name_start_unique(shorter, start);
    }
}

/// Turns every `\` of `path` into `/`.
pub fn normalize_path(path: &str) -> (result: String)
    ensures
        result@ == normalized(path@),
{
    let chars = to_chars(path);
    let mut out: Vec<char> = Vec::new();
    let mut i: usize = 0;
    while i < chars.len()
        invariant
            i <= chars.len(),
            chars@ == path@,
            out@ == normalized(path@).take(i as int),
        decreases chars.len() - i,
    {
        let c = chars[i];
        out.push(if c == '\\' { '/' } else { c });
        assert(normalized(path@).take(i + 1) == normalized(path@).take(i as int).push(
            normalized(path@)[i as int],
        ));
        i = i + 1;
    }
    from_chars(&out)
}

/// The characters of `chars` from `from` up to `to`.
fn slice_chars(chars: &Vec<char>, from: usize, to: usize) -> (part: Vec<char>)
    requires
        from <= to <= chars.len(),
    ensures
        part@ == chars@.subrange(from as int, to as int),
{
    let mut part: Vec<char> = Vec::new();
    let mut i: usize = from;
    while i < to
        invariant
            from <= i <= to <= chars.len(),
            part@ == chars@.subrange(from as int, i as int),
        decreases to - i,
    {
        part.push(chars[i]);
        assert(chars@.subrange(from as int, i + 1) == chars@.subrange(from as int, i as int).push(
            chars@[i as int],
        ));
        i = i + 1;
    }
    part
}

/// The length of `chars` without the slashes at its end.
fn trimmed_len(chars: &Vec<char>) -> (len: usize)
    ensures
        len <= chars.len(),
        chars@.take(len as int) == without_trailing_slashes(chars@),
{
    let mut len: usize = chars.len();
    assert(chars@.take(len as int) == chars@);
    while len > 0 && chars[len - 1] == '/'
        invariant
            len <= chars.len(),
            without_trailing_slashes(chars@.take(len as int)) == without_trailing_slashes(chars@),
        decreases len,
    {
        assert(chars@.take(len as int).drop_last() == chars@.take(len - 1));
        len = len - 1;
    }
    len
}

/// Where the last segment of the first `len` characters starts.
fn segment_start(chars: &Vec<char>, len: usize) -> (start: usize)
    requires
        len <= chars.len(),
    ensures
        start == file_name_start(chars@.take(len as int)),
        start <= len,
{
    let ghost path = chars@.take(len as int);
    let mut start: usize = len;
    while start > 0 && chars[start - 1] != '/'
        invariant
            start <= len <= chars.len(),
            path == chars@.take(len as int),
            forall|i: int| start <= i < len ==> path[i] != '/',
        decreases start,
    {
        start = start - 1;
    }
    proof {
        lemma_file_name_start_unique(path, start as int);
    }
    start
}

/// The last segment of `path`, see [`file_name`].
pub fn path_file_name(path: &str) -> (name: String)
    ensures
        name@ == file_name(path@),
{
    let chars = to_chars(path);
    assert(chars@.take(chars.len() as int) == chars@);
    let start = segment_start(&chars, chars.len());
    let part = slice_chars(&chars, start, chars.len());
    from_chars(&part)
}

/// The name of what `path` leads to, see [`base_name`].
pub fn path_base_name(path: &str) -> (name: String)
    ensures
        name@ == base_name(path@),
{
    let chars = to_chars(path);
    let len = trimmed_len(&chars);
    let start = segment_start(&chars, len);
    let part = slice_chars(&chars, start, len);
    assert(part@ == chars@.take(len as int).skip(start as int));
    from_chars(&part)
}

/// The path of `relative` below `directory`, see [`joined`].
pub fn join_path(directory: &str, relative: &str) -> (path: String)
    ensures
        path@ == joined(directory@, relative@),
{
    let mut out = to_chars(directory);
    let n = out.len();
    if n > 0 && out[n - 1] != '/' {
        out.push('/');
    }
    append_str(&mut out, relative);
    from_chars(&out)
}

/// Whether `name` is a single segment: no `/` and no `\` stands in it.
pub open spec fn plain_name(name: Seq<char>) -> bool {
    forall|i: int| 0 <= i < name.len() ==> #[trigger] name[i] != '/' && name[i] != '\\'
}

/// The last segment of a path has no `/` in it.
pub proof fn lemma_file_name_has_no_slash(path: Seq<char>)
    ensures
        forall|i: int| 0 <= i < file_name(path).len() ==> #[trigger] file_name(path)[i] != '/',
{
    lemma_file_name_start(path);
}

/// A name without `/` that is put below a directory is the last segment of
/// the path that results.
pub proof fn lemma_joined_file_name(directory: Seq<char>, name: Seq<char>)
    requires
        forall|i: int| 0 <= i < name.len() ==> #[trigger] name[i] != '/',
    ensures
        file_name(joined(directory, name)) == name,
{
    let path = joined(directory, name);
    let start = path.len() - name.len();
    assert forall|i: int| start <= i < path.len() implies path[i] != '/' by {
        assert(path[i] == name[i - start]);
    }
    lemma_file_name_start_unique(path, start);
    assert(path.skip(start) =~= name);
}

/// A single segment that is put below a directory is still the last
/// segment once every `\` of the path is turned into `/`.
pub proof fn lemma_normalized_joined_file_name(directory: Seq<char>, name: Seq<char>)
    requires
        plain_name(name),
    ensures
        file_name(normalized(joined(directory, name))) == name,
{
    let raw = joined(directory, name);
    let path = normalized(raw);
    let start = path.len() - name.len();
    assert forall|i: int| start <= i < path.len() implies path[i] == name[i - start] by {
        assert(raw[i] == name[i - start]);
    }
    if start > 0 {
        assert(raw[start - 1] == '/');
    }
    lemma_file_name_start_unique(path, start);
    assert(path.skip(start) =~= name);
}

} // verus!
