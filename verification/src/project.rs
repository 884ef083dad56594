//! Creating, saving and loading a project.
//!
//! A project is a directory with a fixed layout: a build manifest, an entry
//! point, a folder per kind of resource below `src/resources/`, a default
//! scene, and the project file at its root. The functions here decide what
//! is to be done and say it as plain values: the caller looks at the disk
//! before the call and writes to it afterwards.

use vstd::prelude::*;
use crate::engine::{Engine, EngineView};
use crate::lists::views;
use crate::paths::{
    base_name, file_name, join_path, joined, normalize_path, normalized, path_base_name,
    path_file_name, PathState,
};
use crate::project_file::{parse_project, project_text, read_project, serialize_project};
use crate::resources::ResourceType;
use crate::template::{render_template, substituted, PROJECT_NAME_PLACEHOLDER};

verus! {

/// Name of the project file at the root of a project.
pub const PROJECT_FILE_NAME: &'static str = "enigma_project.json";

/// One step on the disk that the caller takes for the library.
#[derive(Clone, Debug)]
pub enum FsAction {
    /// Create the directory and every directory above it that is missing.
    CreateDir { path: String },
    /// Create the file, or replace it, with this content.
    WriteFile { path: String, content: String },
    /// Remove the file, if it is there.
    RemoveFile { path: String },
    /// Remove the directory with all that is in it, if it is there.
    RemoveDir { path: String },
}

/// What an [`FsAction`] stands for.
#[verifier::ext_equal]
pub ghost enum FsActionView {
    CreateDir { path: Seq<char> },
    WriteFile { path: Seq<char>, content: Seq<char> },
    RemoveFile { path: Seq<char> },
    RemoveDir { path: Seq<char> },
}

impl View for FsAction {
    type V = FsActionView;

    open spec fn view(&self) -> FsActionView {
        match self {
            FsAction::CreateDir { path } => FsActionView::CreateDir { path: path@ },
            FsAction::WriteFile { path, content } => FsActionView::WriteFile {
                path: path@,
                content: content@,
            },
            FsAction::RemoveFile { path } => FsActionView::RemoveFile { path: path@ },
            FsAction::RemoveDir { path } => FsActionView::RemoveDir { path: path@ },
        }
    }
}

/// Why a project was not loaded.
#[derive(Clone, Copy, Debug, PartialEq, Eq, Structural)]
pub enum LoadError {
    /// The path does not lead to a project file.
    NotAProject,
    /// The file's content is no project file.
    Malformed,
}

/// Whether `path` leads to a project file: a regular file whose name is
/// [`PROJECT_FILE_NAME`].
pub open spec fn valid_project(path: Seq<char>, state: PathState) -> bool {
    state == PathState::File && file_name(path) == PROJECT_FILE_NAME@
}

/// Whether `path`, at which the caller found `state`, leads to a project
/// file.
pub fn is_valid_project(path: &str, state: PathState) -> (valid: bool)
    ensures
        valid == valid_project(path@, state),
{
    if state == PathState::File {
        let name = path_file_name(path);
        crate::text::has_whole(&name, PROJECT_FILE_NAME)
    } else {
        false
    }
}

/// Whether a new project can be created at a path at which the caller
/// found `state`: only in a directory without entries.
pub fn check_empty_directory(state: PathState) -> (empty: bool)
    ensures
        empty == (state == PathState::EmptyDirectory),
{
    state == PathState::EmptyDirectory
}

/// The folder below a project's root that holds resources of one kind.
pub open spec fn resource_folder(root: Seq<char>, kind: Seq<char>) -> Seq<char> {
    joined(root, "src/resources/"@ + kind)
}

/// The directory of a resource folder, as a step.
pub open spec fn folder_step(root: Seq<char>, kind: Seq<char>) -> FsActionView {
    FsActionView::CreateDir { path: resource_folder(root, kind) }
}

/// The path of the project file of the project at `root`.
pub open spec fn project_file_path(root: Seq<char>) -> Seq<char> {
    joined(root, PROJECT_FILE_NAME@)
}

/// The step that writes the build manifest: the template with the name of
/// the directory in place of the placeholder.
pub open spec fn manifest_step(root: Seq<char>, template: Seq<char>) -> FsActionView {
    FsActionView::WriteFile {
        path: joined(root, "Cargo.toml"@),
        content: substituted(template, PROJECT_NAME_PLACEHOLDER@, base_name(root)),
    }
}

/// The step that writes the entry point: the template with the name of the
/// directory in place of the placeholder, and a new line.
pub open spec fn entry_step(root: Seq<char>, template: Seq<char>) -> FsActionView {
    FsActionView::WriteFile {
        path: joined(root, "src/main.rs"@),
        content: substituted(template, PROJECT_NAME_PLACEHOLDER@, base_name(root)) + "\n"@,
    }
}

/// The step that writes the default scene: an empty object.
pub open spec fn scene_step(root: Seq<char>) -> FsActionView {
    FsActionView::WriteFile {
        path: joined(root, "src/resources/scenes/enigma_main_scene.json"@),
        content: "{}\n"@,
    }
}

/// The step that writes the project file of `project`.
pub open spec fn project_file_step(root: Seq<char>, project: EngineView) -> FsActionView {
    FsActionView::WriteFile { path: project_file_path(root), content: project_text(project) }
}

/// The steps that make a project of the empty directory at `root`, in the
/// order in which they are taken: the six resource folders, the build
/// manifest, the entry point, the default scene, and the project file of
/// `project`.
pub open spec fn scaffold_plan(
    root: Seq<char>,
    project: EngineView,
    manifest_template: Seq<char>,
    entry_template: Seq<char>,
) -> Seq<FsActionView> {
    seq![
        folder_step(root, "textures"@),
        folder_step(root, "models"@),
        folder_step(root, "shader"@),
        folder_step(root, "scenes"@),
        folder_step(root, "audio"@),
        folder_step(root, "other"@),
        manifest_step(root, manifest_template),
        entry_step(root, entry_template),
        scene_step(root),
        project_file_step(root, project),
    ]
}

/// The step that creates the resource folder `kind` below `root`.
fn create_folder(root: &str, kind: &str) -> (step: FsAction)
    ensures
        step@ == folder_step(root@, kind@),
{
    let relative = "src/resources/".to_owned().concat(kind);
    FsAction::CreateDir { path: join_path(root, relative.as_str()) }
}

/// The step that writes the build manifest.
fn write_manifest(root: &str, template: &str) -> (step: FsAction)
    ensures
        step@ == manifest_step(root@, template@),
{
    let name = path_base_name(root);
    FsAction::WriteFile {
        path: join_path(root, "Cargo.toml"),
        content: render_template(template, name.as_str()),
    }
}

/// The step that writes the entry point.
fn write_entry(root: &str, template: &str) -> (step: FsAction)
    ensures
        step@ == entry_step(root@, template@),
{
    let name = path_base_name(root);
    FsAction::WriteFile {
        path: join_path(root, "src/main.rs"),
        content: render_template(template, name.as_str()).concat("\n"),
    }
}

/// The step that writes the default scene.
fn write_scene(root: &str) -> (step: FsAction)
    ensures
        step@ == scene_step(root@),
{
    FsAction::WriteFile {
        path: join_path(root, "src/resources/scenes/enigma_main_scene.json"),
        content: "{}\n".to_owned(),
    }
}

/// The step that writes the project file of `engine`.
fn write_project_file(root: &str, engine: &Engine) -> (step: FsAction)
    ensures
        step@ == project_file_step(root@, engine@),
{
    FsAction::WriteFile {
        path: join_path(root, PROJECT_FILE_NAME),
        content: serialize_project(engine),
    }
}

/// Appends a step to the steps taken so far.
fn then_step(steps: &mut Vec<FsAction>, step: FsAction)
    ensures
        views(final(steps)@) == views(old(steps)@).push(step@),
{
    steps.push(step);
    assert(views(steps@) =~= views(old(steps)@).push(step@));
}

/// The steps that make a project of the empty directory at `path`, see
/// [`scaffold_plan`]. `engine` is the aggregate that the project file is
/// to hold.
pub fn create_folder_struct(
    path: &str,
    engine: &Engine,
    manifest_template: &str,
    entry_template: &str,
) -> (steps: Vec<FsAction>)
    ensures
        views(steps@) == scaffold_plan(path@, engine@, manifest_template@, entry_template@),
{
    let mut steps: Vec<FsAction> = Vec::new();
    assert(views(steps@) =~= Seq::<FsActionView>::empty());
    then_step(&mut steps, create_folder(path, "textures"));
    then_step(&mut steps, create_folder(path, "models"));
    then_step(&mut steps, create_folder(path, "shader"));
    then_step(&mut steps, create_folder(path, "scenes"));
    then_step(&mut steps, create_folder(path, "audio"));
    then_step(&mut steps, create_folder(path, "other"));
    then_step(&mut steps, write_manifest(path, manifest_template));
    then_step(&mut steps, write_entry(path, entry_template));
    then_step(&mut steps, write_scene(path));
    then_step(&mut steps, write_project_file(path, engine));
    steps
}

/// The path that a step works on.
pub open spec fn step_path(step: FsActionView) -> Seq<char> {
    match step {
        FsActionView::CreateDir { path } => path,
        FsActionView::WriteFile { path, .. } => path,
        FsActionView::RemoveFile { path } => path,
        FsActionView::RemoveDir { path } => path,
    }
}

/// The steps that take a half-made project away again and leave the
/// directory at `root` as empty as it was: they remove the project file,
/// the build manifest and the folder `src` with all that is in it.
pub open spec fn cleanup_plan(root: Seq<char>) -> Seq<FsActionView> {
    seq![
        FsActionView::RemoveFile { path: project_file_path(root) },
        FsActionView::RemoveFile { path: joined(root, "Cargo.toml"@) },
        FsActionView::RemoveDir { path: joined(root, "src"@) },
    ]
}

/// Whether `path` leads into the directory `directory`.
pub open spec fn below(path: Seq<char>, directory: Seq<char>) -> bool {
    crate::text::starts_with(path, directory + seq!['/'])
}

/// Whether the cleanup of the project at `root` takes away what stands at
/// `path`: it is one of the two files that the cleanup removes, or it
/// lies in the folder that the cleanup removes.
pub open spec fn taken_back(root: Seq<char>, path: Seq<char>) -> bool {
    path == project_file_path(root) || path == joined(root, "Cargo.toml"@) || below(
        path,
        joined(root, "src"@),
    )
}

/// The steps that take a half-made project at `path` away again, see
/// [`cleanup_plan`].
pub fn scaffold_cleanup(path: &str) -> (steps: Vec<FsAction>)
    ensures
        views(steps@) == cleanup_plan(path@),
{
    let mut steps: Vec<FsAction> = Vec::new();
    assert(views(steps@) =~= Seq::<FsActionView>::empty());
    then_step(&mut steps, FsAction::RemoveFile { path: join_path(path, PROJECT_FILE_NAME) });
    then_step(&mut steps, FsAction::RemoveFile { path: join_path(path, "Cargo.toml") });
    then_step(&mut steps, FsAction::RemoveDir { path: join_path(path, "src") });
    steps
}

/// A project that was just laid out: its aggregate, the steps that bring
/// it to the disk, and the steps that take it away again should one of
/// those fail.
#[derive(Clone, Debug)]
pub struct NewProject {
    pub engine: Engine,
    pub steps: Vec<FsAction>,
    pub cleanup: Vec<FsAction>,
}

/// Lays out a new project at `path`, at which the caller found `state`.
/// Only a directory without entries takes a project: on any other state
/// the answer is `None` and there is nothing to write. The aggregate of
/// the new project holds the path with `/` for every `\` and nothing
/// else.
pub fn try_new_project(
    path: &str,
    state: PathState,
    manifest_template: &str,
    entry_template: &str,
) -> (created: Option<NewProject>)
    ensures
        created is Some <==> state == PathState::EmptyDirectory,
        created matches Some(project) ==> {
            &&& project.engine@ == EngineView::fresh(normalized(path@))
            &&& project.engine.wf()
            &&& views(project.steps@) == scaffold_plan(
                normalized(path@),
                project.engine@,
                manifest_template@,
                entry_template@,
            )
            &&& views(project.cleanup@) == cleanup_plan(normalized(path@))
        },
{
    if !check_empty_directory(state) {
        return None;
    }
    let root = normalize_path(path);
    let mut engine = Engine::new();
    engine.current_project = root.clone();
    assert(engine@ =~= EngineView::fresh(normalized(path@)));
    let steps = create_folder_struct(root.as_str(), &engine, manifest_template, entry_template);
    let cleanup = scaffold_cleanup(root.as_str());
    Some(NewProject { engine, steps, cleanup })
}

/// What saving gives for an aggregate whose project file the caller found
/// in `state`: the step that replaces the project file with the text of
/// the aggregate, where a project is open, its project file exists and
/// each descriptor stands in the catalog of its category; else nothing.
pub open spec fn saved(project: EngineView, state: PathState) -> Option<FsActionView> {
    if project.current_project.len() > 0 && project.catalogs_consistent() && valid_project(
        project_file_path(project.current_project),
        state,
    ) {
        Some(project_file_step(project.current_project, project))
    } else {
        None
    }
}

/// What loading gives for `path`, at which the caller found `state` and
/// read `content`: the aggregate that the content stands for, where the
/// path, with `/` for every `\`, leads to a project file and the content
/// is one.
pub open spec fn loaded(path: Seq<char>, state: PathState, content: Seq<char>) -> Result<
    EngineView,
    LoadError,
> {
    if !valid_project(normalized(path), state) {
        Err(LoadError::NotAProject)
    } else {
        match read_project(content) {
            Some(project) => Ok(project),
            None => Err(LoadError::Malformed),
        }
    }
}

/// The path of the project file of the open project, `None` while no
/// project is open. The caller looks at what stands there before it
/// saves.
pub fn save_target(engine: &Engine) -> (target: Option<String>)
    ensures
        target is Some <==> engine.current_project@.len() > 0,
        target matches Some(path) ==> path@ == project_file_path(engine.current_project@),
{
    if engine.current_project.as_str().unicode_len() == 0 {
        None
    } else {
        Some(join_path(engine.current_project.as_str(), PROJECT_FILE_NAME))
    }
}

/// Saves the open project, whose project file the caller found in `state`:
/// the step that replaces the file, or `None` where nothing is to be
/// written, see [`saved`].
pub fn try_save_project(engine: &Engine, state: PathState) -> (step: Option<FsAction>)
    ensures
        match step {
            Some(write) => saved(engine@, state) == Some(write@),
            None => saved(engine@, state) is None,
        },
{
    let target = match save_target(engine) {
        Some(path) => path,
        None => {
            return None;
        },
    };
    if is_valid_project(target.as_str(), state) && engine.is_consistent() {
        Some(write_project_file(engine.current_project.as_str(), engine))
    } else {
        None
    }
}

/// Loads the project whose file is at `path`, where the caller found
/// `state` and read `content`; the content is not looked at unless the
/// path leads to a project file. See [`loaded`].
pub fn try_load_project(path: &str, state: PathState, content: &str) -> (project: Result<
    Engine,
    LoadError,
>)
    ensures
        match project {
            Ok(engine) => loaded(path@, state, content@) == Ok::<EngineView, LoadError>(engine@)
                && engine.wf(),
            Err(error) => loaded(path@, state, content@) == Err::<EngineView, LoadError>(error),
        },
{
    let path = normalize_path(path);
    if !is_valid_project(path.as_str(), state) {
        return Err(LoadError::NotAProject);
    }
    match parse_project(content) {
        Some(engine) => Ok(engine),
        None => Err(LoadError::Malformed),
    }
}

/// Where an imported file is copied to: below the project's root, in the
/// folder of its category, under the name of the source file.
pub open spec fn import_path(
    root: Seq<char>,
    source: Seq<char>,
    resource_type: ResourceType,
) -> Seq<char> {
    joined(
        resource_folder(root, resource_type.folder_name()),
        file_name(normalized(source)),
    )
}

/// The path to which the file at `source` is copied when it is imported
/// into the project at `root` under `resource_type`, see [`import_path`].
pub fn import_destination(root: &str, source: &str, resource_type: ResourceType) -> (path:
    String)
    ensures
        path@ == import_path(root@, source@, resource_type),
{
    let relative = "src/resources/".to_owned().concat(resource_type.folder());
    let folder = join_path(root, relative.as_str());
    let source = normalize_path(source);
    let name = path_file_name(source.as_str());
    join_path(folder.as_str(), name.as_str())
}

/// The name of the project file is a single segment.
pub proof fn lemma_project_file_name_plain()
    ensures
        crate::paths::plain_name(PROJECT_FILE_NAME@),
        PROJECT_FILE_NAME@.len() == 19,
{
    reveal_strlit("enigma_project.json");
    let name = PROJECT_FILE_NAME@;
    assert forall|i: int| 0 <= i < name.len() implies #[trigger] name[i] != '/' && name[i]
        != '\\' by {
        if i < 5 {
        } else if i < 10 {
        } else if i < 15 {
        } else {
        }
    }
}

/// The project file of a project, once it exists as a regular file, is a
/// valid project, also where its path is written with `\`.
pub proof fn lemma_project_file_valid(root: Seq<char>)
    ensures
        valid_project(project_file_path(root), PathState::File),
        valid_project(normalized(project_file_path(root)), PathState::File),
{
    lemma_project_file_name_plain();
    crate::paths::lemma_joined_file_name(root, PROJECT_FILE_NAME@);
    crate::paths::lemma_normalized_joined_file_name(root, PROJECT_FILE_NAME@);
}

/// Round trip through the disk: an open project whose descriptors stand in
/// the catalogs of their categories is saved over its project file, and
/// loading from the path that was written, with the content that was
/// written, gives the same aggregate.
pub proof fn lemma_save_then_load(project: EngineView)
    requires
        project.catalogs_consistent(),
        project.current_project.len() > 0,
    ensures
        saved(project, PathState::File) == Some(
            project_file_step(project.current_project, project),
        ),
        loaded(
            project_file_path(project.current_project),
            PathState::File,
            project_text(project),
        ) == Ok::<EngineView, LoadError>(project),
{
    lemma_project_file_valid(project.current_project);
    crate::project_file::lemma_project_round_trip(project);
}

/// What scaffolding leaves behind: the plan for the directory at `root`
/// creates the six resource folders and writes, last, a project file that
/// is valid once it exists and that is read back as the aggregate of a
/// project at `root` with all catalogs empty.
pub proof fn lemma_scaffold_gives_project(
    root: Seq<char>,
    manifest_template: Seq<char>,
    entry_template: Seq<char>,
)
    ensures
        ({
            let project = EngineView::fresh(root);
            let plan = scaffold_plan(root, project, manifest_template, entry_template);
            &&& plan.len() == 10
            &&& plan[0] == folder_step(root, ResourceType::Texture.folder_name())
            &&& plan[1] == folder_step(root, ResourceType::Model.folder_name())
            &&& plan[2] == folder_step(root, ResourceType::Shader.folder_name())
            &&& plan[3] == folder_step(root, "scenes"@)
            &&& plan[4] == folder_step(root, ResourceType::Audio.folder_name())
            &&& plan[5] == folder_step(root, ResourceType::Other.folder_name())
            &&& plan[9] == project_file_step(root, project)
            &&& valid_project(project_file_path(root), PathState::File)
            &&& read_project(project_text(project)) == Some(project)
            &&& project.current_project == root
            &&& project.catalogs_empty()
        }),
{
    let project = EngineView::fresh(root);
    lemma_project_file_valid(root);
    crate::project_file::lemma_project_round_trip(project);
}

/// An imported file lands directly in the folder of its category, under
/// the name of the source file.
pub proof fn lemma_import_lands_in_category(
    root: Seq<char>,
    source: Seq<char>,
    resource_type: ResourceType,
)
    ensures
        import_path(root, source, resource_type) == joined(
            resource_folder(root, resource_type.folder_name()),
            file_name(normalized(source)),
        ),
        file_name(import_path(root, source, resource_type)) == file_name(normalized(source)),
{
    crate::paths::lemma_file_name_has_no_slash(normalized(source));
    crate::paths::lemma_joined_file_name(
        resource_folder(root, resource_type.folder_name()),
        file_name(normalized(source)),
    );
}

/// What is put below a directory under a path that starts with a folder
/// lies in that folder of the directory.
proof fn lemma_joined_below(root: Seq<char>, folder: Seq<char>, rest: Seq<char>)
    ensures
        below(joined(root, folder + seq!['/'] + rest), joined(root, folder)),
{
    let path = joined(root, folder + seq!['/'] + rest);
    let start = joined(root, folder) + seq!['/'];
    assert(path.take(start.len() as int) =~= start);
}

/// The cleanup is enough: every step of the plan that lays out a project
/// works on a path that the cleanup of that project takes away.
pub proof fn lemma_cleanup_covers_scaffold(
    root: Seq<char>,
    project: EngineView,
    manifest_template: Seq<char>,
    entry_template: Seq<char>,
)
    ensures
        forall|k: int|
            0 <= k < 10 ==> taken_back(
                root,
                step_path(
                    #[trigger] scaffold_plan(root, project, manifest_template, entry_template)[k],
                ),
            ),
{
    reveal_strlit("src");
    reveal_strlit("src/resources/");
    reveal_strlit("resources/");
    reveal_strlit("src/main.rs");
    reveal_strlit("main.rs");
    reveal_strlit("src/resources/scenes/enigma_main_scene.json");
    reveal_strlit("resources/scenes/enigma_main_scene.json");
    let src = "src"@;
    let slash = seq!['/'];
    assert("src/resources/"@ =~= src + slash + "resources/"@);
    assert("src/main.rs"@ =~= src + slash + "main.rs"@);
    assert("src/resources/scenes/enigma_main_scene.json"@ =~= src + slash
        + "resources/scenes/enigma_main_scene.json"@);
    assert forall|kind: Seq<char>| below(#[trigger] resource_folder(root, kind), joined(root, src)) by {
        assert("src/resources/"@ + kind =~= src + slash + ("resources/"@ + kind));
        lemma_joined_below(root, src, "resources/"@ + kind);
    }
    lemma_joined_below(root, src, "main.rs"@);
    lemma_joined_below(root, src, "resources/scenes/enigma_main_scene.json"@);
    let plan = scaffold_plan(root, project, manifest_template, entry_template);
    assert forall|k: int| 0 <= k < 10 implies taken_back(root, step_path(#[trigger] plan[k])) by {
        if k == 0 {
        } else if k == 1 {
        } else if k == 2 {
        } else if k == 3 {
        } else if k == 4 {
        } else if k == 5 {
        } else if k == 6 {
        } else if k == 7 {
        } else if k == 8 {
        } else {
        }
    }
}

} // verus!
