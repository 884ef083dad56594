//! Project persistence and resource cataloguing for the Enigma editor.
//!
//! The library owns the layout of a project on disk, the text of the
//! project file, and the descriptors of imported assets. It decides and
//! computes; the program around it touches the disk. Every function here
//! works on plain values: paths as text, file contents as text or bytes,
//! what was found at a path as a [`paths::PathState`], and what is to be
//! done on the disk as a list of [`project::FsAction`].
//!
//! - [`resources`]: the descriptors of imported assets and how an import
//!   builds them.
//! - [`engine`]: the project aggregate with its six catalogs.
//! - [`project`]: creating, saving and loading a project.
//! - [`project_file`]: the text of the project file, written and read back,
//!   made of [`descriptors`] and [`fields`] on top of [`json`] and
//!   [`lists`].
//! - [`paths`], [`template`], [`text`]: paths, templates and text as
//!   sequences of characters.
//! - [`toolchain`]: the commands that build and run a project.
//! - [`editor`]: the texts and checks behind the editor's project window.

pub mod descriptors;
pub mod editor;
pub mod engine;
pub mod fields;
pub mod json;
pub mod lists;
pub mod paths;
pub mod project;
pub mod project_file;
pub mod resources;
pub mod template;
pub mod text;
pub mod toolchain;
