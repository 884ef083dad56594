//! Typed descriptors of imported assets.
//!
//! A descriptor carries a logical name, the full content of the asset and
//! the category it was imported under. Building one never fails: a source
//! that could not be read gives a descriptor with empty content, so that a
//! batch of imports goes on past a bad file.

use vstd::prelude::*;

verus! {

/// The category of an imported asset.
#[derive(Clone, Copy, Debug, PartialEq, Eq, Structural)]
pub enum ResourceType {
    Texture,
    Model,
    Audio,
    Shader,
    Other,
}

impl ResourceType {
    /// Name of the folder below `src/resources/` that holds assets of this
    /// category.
    pub open spec fn folder_name(self) -> Seq<char> {
        match self {
            ResourceType::Texture => "textures"@,
            ResourceType::Model => "models"@,
            ResourceType::Audio => "audio"@,
            ResourceType::Shader => "shader"@,
            ResourceType::Other => "other"@,
        }
    }

    /// The folder of this category, see [`ResourceType::folder_name`].
    pub fn folder(self) -> (name: &'static str)
        ensures
            name@ == self.folder_name(),
    {
        match self {
            ResourceType::Texture => "textures",
            ResourceType::Model => "models",
            ResourceType::Audio => "audio",
            ResourceType::Shader => "shader",
            ResourceType::Other => "other",
        }
    }
}

/// An asset whose content is raw bytes.
#[derive(Clone, Debug)]
pub struct BinaryResource {
    pub name: String,
    pub data: Vec<u8>,
    pub resource_type: ResourceType,
}

/// What a [`BinaryResource`] stands for.
#[verifier::ext_equal]
pub ghost struct BinaryResourceView {
    pub name: Seq<char>,
    pub data: Seq<u8>,
    pub resource_type: ResourceType,
}

impl View for BinaryResource {
    type V = BinaryResourceView;

    open spec fn view(&self) -> BinaryResourceView {
        BinaryResourceView {
            name: self.name@,
            data: self.data@,
            resource_type: self.resource_type,
        }
    }
}

impl BinaryResource {
    pub fn new(name: &str, data: Vec<u8>, resource_type: ResourceType) -> (resource: Self)
        ensures
            resource@ == (BinaryResourceView { name: name@, data: data@, resource_type }),
    {
        BinaryResource { name: name.to_owned(), data, resource_type }
    }
}

/// An asset whose content is text.
#[derive(Clone, Debug)]
pub struct TextResource {
    pub name: String,
    pub data: String,
    pub resource_type: ResourceType,
}

/// What a [`TextResource`] stands for.
#[verifier::ext_equal]
pub ghost struct TextResourceView {
    pub name: Seq<char>,
    pub data: Seq<char>,
    pub resource_type: ResourceType,
}

impl View for TextResource {
    type V = TextResourceView;

    open spec fn view(&self) -> TextResourceView {
        TextResourceView {
            name: self.name@,
            data: self.data@,
            resource_type: self.resource_type,
        }
    }
}

impl TextResource {
    pub fn new(name: &str, data: &str, resource_type: ResourceType) -> (resource: Self)
        ensures
            resource@ == (TextResourceView { name: name@, data: data@, resource_type }),
    {
        TextResource { name: name.to_owned(), data: data.to_owned(), resource_type }
    }
}

/// The content that an import keeps: what was read, or nothing where the
/// source could not be read.
pub open spec fn imported_bytes(content: Option<Vec<u8>>) -> Seq<u8> {
    match content {
        Some(bytes) => bytes@,
        None => Seq::empty(),
    }
}

/// The text that an import keeps: what was read, or nothing where the
/// source could not be read.
pub open spec fn imported_text(content: Option<String>) -> Seq<char> {
    match content {
        Some(text) => text@,
        None => Seq::empty(),
    }
}

/// Builds the descriptor of a binary asset from what reading its source
/// gave: `Some` with the bytes, or `None` where the source was unreadable.
/// The name is the caller's logical name, not the file's.
pub fn import_resource_binary(
    name: &str,
    content: Option<Vec<u8>>,
    resource_type: ResourceType,
) -> (resource: BinaryResource)
    ensures
        resource@ == (BinaryResourceView {
            name: name@,
            data: imported_bytes(content),
            resource_type,
        }),
{
    match content {
        Some(bytes) => BinaryResource::new(name, bytes, resource_type),
        None => BinaryResource::new(name, Vec::new(), resource_type),
    }
}

/// Builds the descriptor of a text asset from what reading its source gave:
/// `Some` with the text, or `None` where the source was unreadable.
pub fn import_resource_text(
    name: &str,
    content: Option<String>,
    resource_type: ResourceType,
) -> (resource: TextResource)
    ensures
        resource@ == (TextResourceView {
            name: name@,
            data: imported_text(content),
            resource_type,
        }),
{
    match content {
        Some(text) => TextResource { name: name.to_owned(), data: text, resource_type },
        None => TextResource { name: name.to_owned(), data: String::new(), resource_type },
    }
}

/// One file of a batch of binary imports: the logical name and what
/// reading the source gave, `None` where it could not be read.
#[derive(Clone, Debug)]
pub struct BinarySource {
    pub name: String,
    pub content: Option<Vec<u8>>,
}

/// One file of a batch of text imports: the logical name and what reading
/// the source gave, `None` where it could not be read.
#[derive(Clone, Debug)]
pub struct TextSource {
    pub name: String,
    pub content: Option<String>,
}

/// The descriptor that importing `source` under `resource_type` gives.
pub open spec fn imported_binary(
    source: BinarySource,
    resource_type: ResourceType,
) -> BinaryResourceView {
    BinaryResourceView {
        name: source.name@,
        data: imported_bytes(source.content),
        resource_type,
    }
}

/// The descriptor that importing `source` under `resource_type` gives.
pub open spec fn imported_text_resource(
    source: TextSource,
    resource_type: ResourceType,
) -> TextResourceView {
    TextResourceView { name: source.name@, data: imported_text(source.content), resource_type }
}

/// Imports a batch of binary files under one category: one descriptor for
/// each source, in the order of the sources. A source that could not be
/// read gives a descriptor with empty content and does not stop the
/// others.
pub fn import_binary_batch(sources: &Vec<BinarySource>, resource_type: ResourceType) -> (resources:
    Vec<BinaryResource>)
    ensures
        resources.len() == sources.len(),
        forall|i: int|
            0 <= i < sources.len() ==> (#[trigger] resources[i])@ == imported_binary(
                sources[i],
                resource_type,
            ),
{
    let mut resources: Vec<BinaryResource> = Vec::new();
    let mut i: usize = 0;
    while i < sources.len()
        invariant
            i <= sources.len(),
            resources.len() == i,
            forall|k: int|
                0 <= k < i ==> (#[trigger] resources[k])@ == imported_binary(
                    sources[k],
                    resource_type,
                ),
        decreases sources.len() - i,
    {
        let source = &sources[i];
        let content = match &source.content {
            Some(bytes) => Some(bytes.clone()),
            None => None,
        };
        resources.push(import_resource_binary(source.name.as_str(), content, resource_type));
        i = i + 1;
    }
    resources
}

/// Imports a batch of text files under one category: one descriptor for
/// each source, in the order of the sources. A source that could not be
/// read gives a descriptor with empty content and does not stop the
/// others.
pub fn import_text_batch(sources: &Vec<TextSource>, resource_type: ResourceType) -> (resources:
    Vec<TextResource>)
    ensures
        resources.len() == sources.len(),
        forall|i: int|
            0 <= i < sources.len() ==> (#[trigger] resources[i])@ == imported_text_resource(
                sources[i],
                resource_type,
            ),
{
    let mut resources: Vec<TextResource> = Vec::new();
    let mut i: usize = 0;
    while i < sources.len()
        invariant
            i <= sources.len(),
            resources.len() == i,
            forall|k: int|
                0 <= k < i ==> (#[trigger] resources[k])@ == imported_text_resource(
                    sources[k],
                    resource_type,
                ),
        decreases sources.len() - i,
    {
        let source = &sources[i];
        let content = match &source.content {
            Some(text) => Some(text.clone()),
            None => None,
        };
        resources.push(import_resource_text(source.name.as_str(), content, resource_type));
        i = i + 1;
    }
    resources
}

} // verus!
