//! The project aggregate: the state of an open project that is saved and
//! loaded as one unit.
//!
//! Six catalogs hold the imported assets, one per coarse category, each in
//! the order in which its descriptors were added. A descriptor's category
//! decides the catalog it is filed under.

use vstd::prelude::*;
use crate::lists::views;
use crate::resources::{
    BinaryResource, BinaryResourceView, ResourceType, TextResource, TextResourceView,
};

verus! {

/// The state of an open project.
#[derive(Clone, Debug)]
pub struct Engine {
    /// Path of the project directory; empty while no project is open.
    pub current_project: String,
    /// Name of the resource that is selected in the editor.
    pub selected_resource: String,
    pub object_builder_open: bool,
    pub model_resources: Vec<BinaryResource>,
    pub audio_resources: Vec<BinaryResource>,
    pub texture_resources: Vec<BinaryResource>,
    pub other_binary_resources: Vec<BinaryResource>,
    pub shader_resources: Vec<TextResource>,
    pub other_text_resources: Vec<TextResource>,
    /// Scene objects as serialized by the engine runtime, carried as they
    /// are.
    pub object_resources: Vec<String>,
}

/// What an [`Engine`] stands for.
#[verifier::ext_equal]
pub ghost struct EngineView {
    pub current_project: Seq<char>,
    pub selected_resource: Seq<char>,
    pub object_builder_open: bool,
    pub model_resources: Seq<BinaryResourceView>,
    pub audio_resources: Seq<BinaryResourceView>,
    pub texture_resources: Seq<BinaryResourceView>,
    pub other_binary_resources: Seq<BinaryResourceView>,
    pub shader_resources: Seq<TextResourceView>,
    pub other_text_resources: Seq<TextResourceView>,
    pub object_resources: Seq<Seq<char>>,
}

/// Every binary descriptor of `catalog` has the category `expected`.
pub open spec fn all_binary_tagged(catalog: Seq<BinaryResourceView>, expected: ResourceType) -> bool {
    forall|i: int| 0 <= i < catalog.len() ==> (#[trigger] catalog[i]).resource_type == expected
}

/// Every text descriptor of `catalog` has the category `expected`.
pub open spec fn all_text_tagged(catalog: Seq<TextResourceView>, expected: ResourceType) -> bool {
    forall|i: int| 0 <= i < catalog.len() ==> (#[trigger] catalog[i]).resource_type == expected
}

impl EngineView {
    /// The aggregate of a project at `path` into which nothing was imported
    /// yet.
    pub open spec fn fresh(path: Seq<char>) -> EngineView {
        EngineView {
            current_project: path,
            selected_resource: Seq::empty(),
            object_builder_open: false,
            model_resources: Seq::empty(),
            audio_resources: Seq::empty(),
            texture_resources: Seq::empty(),
            other_binary_resources: Seq::empty(),
            shader_resources: Seq::empty(),
            other_text_resources: Seq::empty(),
            object_resources: Seq::empty(),
        }
    }

    /// Each descriptor lives in the catalog of its category.
    pub open spec fn catalogs_consistent(self) -> bool {
        &&& all_binary_tagged(self.model_resources, ResourceType::Model)
        &&& all_binary_tagged(self.audio_resources, ResourceType::Audio)
        &&& all_binary_tagged(self.texture_resources, ResourceType::Texture)
        &&& all_binary_tagged(self.other_binary_resources, ResourceType::Other)
        &&& all_text_tagged(self.shader_resources, ResourceType::Shader)
        &&& all_text_tagged(self.other_text_resources, ResourceType::Other)
    }

    /// All six catalogs are empty.
    pub open spec fn catalogs_empty(self) -> bool {
        &&& self.model_resources.len() == 0
        &&& self.audio_resources.len() == 0
        &&& self.texture_resources.len() == 0
        &&& self.other_binary_resources.len() == 0
        &&& self.shader_resources.len() == 0
        &&& self.other_text_resources.len() == 0
    }

    /// The aggregate after `resource` was filed under the catalog of its
    /// category. A binary asset has no catalog under `Shader`: the aggregate
    /// is then unchanged.
    pub open spec fn with_binary(self, resource: BinaryResourceView) -> EngineView {
        match resource.resource_type {
            ResourceType::Model => EngineView {
                model_resources: self.model_resources.push(resource),
                ..self
            },
            ResourceType::Audio => EngineView {
                audio_resources: self.audio_resources.push(resource),
                ..self
            },
            ResourceType::Texture => EngineView {
                texture_resources: self.texture_resources.push(resource),
                ..self
            },
            ResourceType::Other => EngineView {
                other_binary_resources: self.other_binary_resources.push(resource),
                ..self
            },
            ResourceType::Shader => self,
        }
    }

    /// The aggregate after `resource` was filed under the catalog of its
    /// category. A text asset has a catalog under `Shader` and `Other`
    /// only: with another category the aggregate is unchanged.
    pub open spec fn with_text(self, resource: TextResourceView) -> EngineView {
        match resource.resource_type {
            ResourceType::Shader => EngineView {
                shader_resources: self.shader_resources.push(resource),
                ..self
            },
            ResourceType::Other => EngineView {
                other_text_resources: self.other_text_resources.push(resource),
                ..self
            },
            _ => self,
        }
    }
}

/// Filing keeps the catalogs in order: where each descriptor stood in the
/// catalog of its category before, it does so after a binary descriptor
/// was filed, and the descriptors that were there stay where they were.
pub proof fn lemma_filing_binary_keeps_catalogs(project: EngineView, resource: BinaryResourceView)
    requires
        project.catalogs_consistent(),
    ensures
        project.with_binary(resource).catalogs_consistent(),
        project.model_resources.is_prefix_of(project.with_binary(resource).model_resources),
        project.audio_resources.is_prefix_of(project.with_binary(resource).audio_resources),
        project.texture_resources.is_prefix_of(project.with_binary(resource).texture_resources),
        project.other_binary_resources.is_prefix_of(
            project.with_binary(resource).other_binary_resources,
        ),
{
}

/// Filing keeps the catalogs in order: where each descriptor stood in the
/// catalog of its category before, it does so after a text descriptor was
/// filed, and the descriptors that were there stay where they were.
pub proof fn lemma_filing_text_keeps_catalogs(project: EngineView, resource: TextResourceView)
    requires
        project.catalogs_consistent(),
    ensures
        project.with_text(resource).catalogs_consistent(),
        project.shader_resources.is_prefix_of(project.with_text(resource).shader_resources),
        project.other_text_resources.is_prefix_of(
            project.with_text(resource).other_text_resources,
        ),
{
}

impl View for Engine {
    type V = EngineView;

    open spec fn view(&self) -> EngineView {
        EngineView {
            current_project: self.current_project@,
            selected_resource: self.selected_resource@,
            object_builder_open: self.object_builder_open,
            model_resources: views(self.model_resources@),
            audio_resources: views(self.audio_resources@),
            texture_resources: views(self.texture_resources@),
            other_binary_resources: views(self.other_binary_resources@),
            shader_resources: views(self.shader_resources@),
            other_text_resources: views(self.other_text_resources@),
            object_resources: views(self.object_resources@),
        }
    }
}

/// Whether a binary asset of this category has a catalog.
pub open spec fn binary_category(resource_type: ResourceType) -> bool {
    resource_type != ResourceType::Shader
}

/// Whether a text asset of this category has a catalog.
pub open spec fn text_category(resource_type: ResourceType) -> bool {
    resource_type == ResourceType::Shader || resource_type == ResourceType::Other
}

/// Whether every binary descriptor of `catalog` has the category
/// `expected`.
fn binaries_tagged(catalog: &Vec<BinaryResource>, expected: ResourceType) -> (all: bool)
    ensures
        all == all_binary_tagged(views(catalog@), expected),
{
    let mut i: usize = 0;
    while i < catalog.len()
        invariant
            i <= catalog.len(),
            forall|k: int|
                0 <= k < i ==> (#[trigger] views(catalog@)[k]).resource_type == expected,
        decreases catalog.len() - i,
    {
        if catalog[i].resource_type != expected {
            assert(views(catalog@)[i as int].resource_type != expected);
            return false;
        }
        i = i + 1;
    }
    true
}

/// Whether every text descriptor of `catalog` has the category `expected`.
fn texts_tagged(catalog: &Vec<TextResource>, expected: ResourceType) -> (all: bool)
    ensures
        all == all_text_tagged(views(catalog@), expected),
{
    let mut i: usize = 0;
    while i < catalog.len()
        invariant
            i <= catalog.len(),
            forall|k: int|
                0 <= k < i ==> (#[trigger] views(catalog@)[k]).resource_type == expected,
        decreases catalog.len() - i,
    {
        if catalog[i].resource_type != expected {
            assert(views(catalog@)[i as int].resource_type != expected);
            return false;
        }
        i = i + 1;
    }
    true
}

impl Engine {
    /// Each descriptor lives in the catalog of its category.
    pub open spec fn wf(&self) -> bool {
        self@.catalogs_consistent()
    }

    /// Whether each descriptor lives in the catalog of its category.
    pub fn is_consistent(&self) -> (consistent: bool)
        ensures
            consistent == self.wf(),
    {
        binaries_tagged(&self.model_resources, ResourceType::Model) && binaries_tagged(
            &self.audio_resources,
            ResourceType::Audio,
        ) && binaries_tagged(&self.texture_resources, ResourceType::Texture) && binaries_tagged(
            &self.other_binary_resources,
            ResourceType::Other,
        ) && texts_tagged(&self.shader_resources, ResourceType::Shader) && texts_tagged(
            &self.other_text_resources,
            ResourceType::Other,
        )
    }

    /// The aggregate with no project open and nothing imported.
    pub fn new() -> (engine: Self)
        ensures
            engine@ == EngineView::fresh(Seq::empty()),
            engine.wf(),
    {
        let engine = Engine {
            current_project: String::new(),
            selected_resource: String::new(),
            object_builder_open: false,
            model_resources: Vec::new(),
            audio_resources: Vec::new(),
            texture_resources: Vec::new(),
            other_binary_resources: Vec::new(),
            shader_resources: Vec::new(),
            other_text_resources: Vec::new(),
            object_resources: Vec::new(),
        };
        assert(engine@ =~~= EngineView::fresh(Seq::empty()));
        engine
    }

    /// Files a binary descriptor at the end of the catalog of its category
    /// and says whether it had one. Binary assets have no catalog under
    /// `Shader`: such a descriptor is turned down and nothing changes.
    pub fn add_binary_resource(&mut self, resource: BinaryResource) -> (filed: bool)
        ensures
            filed == binary_category(resource.resource_type),
            final(self)@ == old(self)@.with_binary(resource@),
            old(self).wf() ==> final(self).wf(),
    {
        let ghost before = self@;
        match resource.resource_type {
            ResourceType::Model => {
                self.model_resources.push(resource);
                assert(self@.model_resources =~= before.model_resources.push(resource@));
            },
            ResourceType::Audio => {
                self.audio_resources.push(resource);
                assert(self@.audio_resources =~= before.audio_resources.push(resource@));
            },
            ResourceType::Texture => {
                self.texture_resources.push(resource);
                assert(self@.texture_resources =~= before.texture_resources.push(resource@));
            },
            ResourceType::Other => {
                self.other_binary_resources.push(resource);
                assert(self@.other_binary_resources =~= before.other_binary_resources.push(
                    resource@,
                ));
            },
            ResourceType::Shader => {
                return false;
            },
        }
        true
    }

    /// Files a text descriptor at the end of the catalog of its category
    /// and says whether it had one. Text assets have a catalog under
    /// `Shader` and `Other` only: any other descriptor is turned down and
    /// nothing changes.
    pub fn add_text_resource(&mut self, resource: TextResource) -> (filed: bool)
        ensures
            filed == text_category(resource.resource_type),
            final(self)@ == old(self)@.with_text(resource@),
            old(self).wf() ==> final(self).wf(),
    {
        let ghost before = self@;
        match resource.resource_type {
            ResourceType::Shader => {
                self.shader_resources.push(resource);
                assert(self@.shader_resources =~= before.shader_resources.push(resource@));
            },
            ResourceType::Other => {
                self.other_text_resources.push(resource);
                assert(self@.other_text_resources =~= before.other_text_resources.push(
                    resource@,
                ));
            },
            _ => {
                return false;
            },
        }
        true
    }
}

} // verus!
