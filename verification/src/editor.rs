//! What the editor's project window shows and accepts.
//!
//! The window itself is drawn by the program around the library; the texts
//! and the checks behind its entries are decided here.

use vstd::prelude::*;
use crate::engine::Engine;
use crate::paths::{file_name, join_path, joined, path_file_name};
use crate::text::to_chars;

verus! {

/// The title that stands for "no project is open", quotes included.
pub const NO_PROJECT_TITLE: &'static str = "\"No Project\"";

/// The title of a project: the last segment of its path, or
/// [`NO_PROJECT_TITLE`] while no project is open.
pub open spec fn title_of(current_project: Option<Seq<char>>) -> Seq<char> {
    match current_project {
        Some(path) => if path.len() == 0 {
            NO_PROJECT_TITLE@
        } else {
            file_name(path)
        },
        None => NO_PROJECT_TITLE@,
    }
}

/// The path of the open project, if the editor holds an aggregate.
pub open spec fn open_path(engine: Option<&Engine>) -> Option<Seq<char>> {
    match engine {
        Some(engine) => Some(engine.current_project@),
        None => None,
    }
}

/// The line at the top of the project window: `Project: ` and the title
/// of the project that `engine` holds.
pub fn project_label(engine: Option<&Engine>) -> (label: String)
    ensures
        label@ == "Project: "@ + title_of(open_path(engine)),
{
    let title = match engine {
        Some(engine) => {
            if engine.current_project.as_str().unicode_len() == 0 {
                NO_PROJECT_TITLE.to_owned()
            } else {
                path_file_name(engine.current_project.as_str())
            }
        },
        None => NO_PROJECT_TITLE.to_owned(),
    };
    "Project: ".to_owned().concat(title.as_str())
}

/// The folder in which the scenes of the project at `root` are kept.
pub fn scenes_folder(root: &str) -> (folder: String)
    ensures
        folder@ == joined(root@, "src/resources/scenes"@),
{
    join_path(root, "src/resources/scenes")
}

/// Whether `text` ends with `.json`.
pub open spec fn has_scene_suffix(text: Seq<char>) -> bool {
    text.len() >= 5 && text.skip(text.len() - 5) == seq!['.', 'j', 's', 'o', 'n']
}

/// Whether a scene can be saved under `path`: only under a name that ends
/// with `.json`.
pub fn is_scene_path(path: &str) -> (accepted: bool)
    ensures
        accepted == has_scene_suffix(path@),
{
    let chars = to_chars(path);
    let n = chars.len();
    if n < 5 {
        return false;
    }
    let ghost tail = chars@.skip(n - 5);
    let accepted = chars[n - 5] == '.' && chars[n - 4] == 'j' && chars[n - 3] == 's' && chars[n
        - 2] == 'o' && chars[n - 1] == 'n';
    proof {
        assert(tail[0] == chars@[n - 5]);
        assert(tail[1] == chars@[n - 4]);
        assert(tail[2] == chars@[n - 3]);
        assert(tail[3] == chars@[n - 2]);
        assert(tail[4] == chars@[n - 1]);
        if accepted {
            assert(tail =~= seq!['.', 'j', 's', 'o', 'n']);
        }
    }
    accepted
}

} // verus!
