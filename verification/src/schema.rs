//! The reference schema: what a section of a chapter declares that it uses
//! and produces.
//!
//! Each type has a view, a value made of sequences and numbers alone, and the
//! contracts of the library speak of the views.

use vstd::prelude::*;

verus! {

/// The views of the elements of a sequence.
pub open spec fn views<T: View>(s: Seq<T>) -> Seq<T::V> {
    s.map_values(|x: T| x@)
}

/// The view of an optional string.
pub open spec fn optional_text(s: Option<String>) -> Option<Seq<char>> {
    match s {
        Some(t) => Some(t@),
        None => None,
    }
}

// ---------------------------------------------------------------------------
// References
// ---------------------------------------------------------------------------

/// A reference to an item that is counted: a fastener, an electronic part, a
/// custom part, an assembly or a subassembly.
#[derive(Debug, Clone)]
pub struct PartReference {
    pub name: String,
    pub quantity: u32,
    pub exclude_from_bom: bool,
    pub exclude_from_overview: bool,
}

/// The view of a [`PartReference`].
pub struct PartRef {
    pub name: Seq<char>,
    pub quantity: nat,
    pub exclude_from_bom: bool,
    pub exclude_from_overview: bool,
}

impl View for PartReference {
    type V = PartRef;

    open spec fn view(&self) -> PartRef {
        PartRef {
            name: self.name@,
            quantity: self.quantity as nat,
            exclude_from_bom: self.exclude_from_bom,
            exclude_from_overview: self.exclude_from_overview,
        }
    }
}

/// A reference to a consumable. A consumable is used or it is not: it has no
/// quantity.
#[derive(Debug, Clone)]
pub struct ConsumableReference {
    pub name: String,
    pub exclude_from_bom: bool,
    pub exclude_from_overview: bool,
}

/// The view of a [`ConsumableReference`].
pub struct ConsumableRef {
    pub name: Seq<char>,
    pub exclude_from_bom: bool,
    pub exclude_from_overview: bool,
}

impl View for ConsumableReference {
    type V = ConsumableRef;

    open spec fn view(&self) -> ConsumableRef {
        ConsumableRef {
            name: self.name@,
            exclude_from_bom: self.exclude_from_bom,
            exclude_from_overview: self.exclude_from_overview,
        }
    }
}

/// A reference to a tool, with the setting at which it is used, if any.
#[derive(Debug, Clone)]
pub struct ToolReference {
    pub name: String,
    pub setting: Option<String>,
    pub exclude_from_bom: bool,
    pub exclude_from_overview: bool,
}

/// The view of a [`ToolReference`].
pub struct ToolRef {
    pub name: Seq<char>,
    pub setting: Option<Seq<char>>,
    pub exclude_from_bom: bool,
    pub exclude_from_overview: bool,
}

impl View for ToolReference {
    type V = ToolRef;

    open spec fn view(&self) -> ToolRef {
        ToolRef {
            name: self.name@,
            setting: optional_text(self.setting),
            exclude_from_bom: self.exclude_from_bom,
            exclude_from_overview: self.exclude_from_overview,
        }
    }
}

/// A reference to an assembly or subassembly that a section produces. What a
/// document produces is not part of what it consumes, so an output has no
/// flag that would keep it out of the bill of materials.
#[derive(Debug, Clone)]
pub struct OutputReference {
    pub name: String,
    pub quantity: u32,
    pub exclude_from_overview: bool,
}

/// The view of an [`OutputReference`].
pub struct OutputRef {
    pub name: Seq<char>,
    pub quantity: nat,
    pub exclude_from_overview: bool,
}

impl View for OutputReference {
    type V = OutputRef;

    open spec fn view(&self) -> OutputRef {
        OutputRef {
            name: self.name@,
            quantity: self.quantity as nat,
            exclude_from_overview: self.exclude_from_overview,
        }
    }
}

// ---------------------------------------------------------------------------
// Sections and chapters
// ---------------------------------------------------------------------------

/// What a section consumes, by category.
#[derive(Debug, Clone)]
pub struct SectionInput {
    pub hardware: Vec<PartReference>,
    pub electronics: Vec<PartReference>,
    pub custom_parts: Vec<PartReference>,
    pub subassemblies: Vec<PartReference>,
    pub assemblies: Vec<PartReference>,
    pub tools: Vec<ToolReference>,
    pub consumables: Vec<ConsumableReference>,
}

/// The view of a [`SectionInput`].
pub struct InputBundle {
    pub hardware: Seq<PartRef>,
    pub electronics: Seq<PartRef>,
    pub custom_parts: Seq<PartRef>,
    pub subassemblies: Seq<PartRef>,
    pub assemblies: Seq<PartRef>,
    pub tools: Seq<ToolRef>,
    pub consumables: Seq<ConsumableRef>,
}

impl View for SectionInput {
    type V = InputBundle;

    open spec fn view(&self) -> InputBundle {
        InputBundle {
            hardware: views(self.hardware@),
            electronics: views(self.electronics@),
            custom_parts: views(self.custom_parts@),
            subassemblies: views(self.subassemblies@),
            assemblies: views(self.assemblies@),
            tools: views(self.tools@),
            consumables: views(self.consumables@),
        }
    }
}

impl InputBundle {
    /// Whether the bundle holds no reference at all.
    pub open spec fn is_empty(self) -> bool {
        &&& self.hardware.len() == 0
        &&& self.electronics.len() == 0
        &&& self.custom_parts.len() == 0
        &&& self.subassemblies.len() == 0
        &&& self.assemblies.len() == 0
        &&& self.tools.len() == 0
        &&& self.consumables.len() == 0
    }
}

impl SectionInput {
    /// An input bundle without references.
    pub fn new() -> (r: SectionInput)
        ensures
            r@.is_empty(),
    {
        SectionInput {
            hardware: Vec::new(),
            electronics: Vec::new(),
            custom_parts: Vec::new(),
            subassemblies: Vec::new(),
            assemblies: Vec::new(),
            tools: Vec::new(),
            consumables: Vec::new(),
        }
    }

    /// Whether the bundle holds no reference at all.
    pub fn is_empty(&self) -> (r: bool)
        ensures
            r == self@.is_empty(),
    {
        self.hardware.len() == 0 && self.electronics.len() == 0 && self.custom_parts.len() == 0
            && self.subassemblies.len() == 0 && self.assemblies.len() == 0 && self.tools.len() == 0
            && self.consumables.len() == 0
    }
}

/// What a section produces.
#[derive(Debug, Clone)]
pub struct SectionOutput {
    pub subassemblies: Vec<OutputReference>,
    pub assemblies: Vec<OutputReference>,
}

/// The view of a [`SectionOutput`].
pub struct OutputBundle {
    pub subassemblies: Seq<OutputRef>,
    pub assemblies: Seq<OutputRef>,
}

impl View for SectionOutput {
    type V = OutputBundle;

    open spec fn view(&self) -> OutputBundle {
        OutputBundle {
            subassemblies: views(self.subassemblies@),
            assemblies: views(self.assemblies@),
        }
    }
}

impl OutputBundle {
    /// Whether the bundle holds no reference at all.
    pub open spec fn is_empty(self) -> bool {
        self.subassemblies.len() == 0 && self.assemblies.len() == 0
    }
}

impl SectionOutput {
    /// An output bundle without references.
    pub fn new() -> (r: SectionOutput)
        ensures
            r@.is_empty(),
    {
        SectionOutput { subassemblies: Vec::new(), assemblies: Vec::new() }
    }

    /// Whether the bundle holds no reference at all.
    pub fn is_empty(&self) -> (r: bool)
        ensures
            r == self@.is_empty(),
    {
        self.subassemblies.len() == 0 && self.assemblies.len() == 0
    }
}

/// The declaration of one section: a documented step.
#[derive(Debug, Clone)]
pub struct SectionMetadata {
    pub input: SectionInput,
    pub output: SectionOutput,
}

/// The view of a [`SectionMetadata`].
pub struct SectionModel {
    pub input: InputBundle,
    pub output: OutputBundle,
}

impl View for SectionMetadata {
    type V = SectionModel;

    open spec fn view(&self) -> SectionModel {
        SectionModel { input: self.input@, output: self.output@ }
    }
}

/// A section under its key, such as `step_3`.
#[derive(Debug, Clone)]
pub struct Section {
    pub key: String,
    pub metadata: SectionMetadata,
}

/// The view of a [`Section`].
pub struct SectionEntry {
    pub key: Seq<char>,
    pub section: SectionModel,
}

impl View for Section {
    type V = SectionEntry;

    open spec fn view(&self) -> SectionEntry {
        SectionEntry { key: self.key@, section: self.metadata@ }
    }
}

/// The declaration of a chapter: its sections. Where two sections have the
/// same key, the first stands for the key.
#[derive(Debug, Clone)]
pub struct ChapterMetadata {
    pub sections: Vec<Section>,
}

impl View for ChapterMetadata {
    type V = Seq<SectionEntry>;

    open spec fn view(&self) -> Seq<SectionEntry> {
        views(self.sections@)
    }
}

/// The position of the first section with the key `key`, if there is one.
pub open spec fn section_index(sections: Seq<SectionEntry>, key: Seq<char>) -> Option<int>
    decreases sections.len(),
{
    if sections.len() == 0 {
        None
    } else {
        match section_index(sections.drop_last(), key) {
            Some(i) => Some(i),
            None => if sections.last().key == key {
                Some(sections.len() - 1)
            } else {
                None
            },
        }
    }
}

/// What `section_index` finds is the first section with that key.
pub proof fn lemma_section_index(sections: Seq<SectionEntry>, key: Seq<char>)
    ensures
        match section_index(sections, key) {
            Some(i) => 0 <= i < sections.len() && sections[i].key == key && forall|j: int|
                0 <= j < i ==> sections[j].key != key,
            None => forall|j: int| 0 <= j < sections.len() ==> sections[j].key != key,
        },
    decreases sections.len(),
{
    if sections.len() > 0 {
        let front = sections.drop_last();
        lemma_section_index(front, key);
        match section_index(front, key) {
            Some(i) => {
                assert(front[i] == sections[i]);
                assert forall|j: int| 0 <= j < i implies sections[j].key != key by {
                    assert(front[j] == sections[j]);
                }
            },
            None => {
                assert forall|j: int| 0 <= j < sections.len() - 1 implies sections[j].key != key by {
                    assert(front[j] == sections[j]);
                }
            },
        }
    }
}

/// The position of the first section with the key `key`.
pub fn find_section(sections: &Vec<Section>, key: &str) -> (r: Option<usize>)
    ensures
        match r {
            Some(i) => section_index(views(sections@), key@) == Some(i as int) && i < sections.len(),
            None => section_index(views(sections@), key@) is None,
        },
{
    let mut i: usize = 0;
    while i < sections.len()
        invariant
            i <= sections.len(),
            section_index(views(sections@).take(i as int), key@) is None,
        decreases sections.len() - i,
    {
        proof {
            let all = views(sections@);
            assert(all.take(i + 1).drop_last() =~= all.take(i as int));
            assert(all.take(i + 1).last() == sections@[i as int]@);
        }
        if crate::text::str_eq(sections[i].key.as_str(), key) {
            proof {
                lemma_section_index_prefix(views(sections@), key@, i + 1);
            }
            return Some(i);
        }
        i += 1;
    }
    proof {
        assert(views(sections@).take(sections.len() as int) =~= views(sections@));
    }
    None
}

/// A section found among the first `n` is the one found among all.
proof fn lemma_section_index_prefix(sections: Seq<SectionEntry>, key: Seq<char>, n: int)
    requires
        0 <= n <= sections.len(),
        section_index(sections.take(n), key) is Some,
    ensures
        section_index(sections, key) == section_index(sections.take(n), key),
    decreases sections.len() - n,
{
    if n < sections.len() {
        assert(sections.take(n + 1).drop_last() =~= sections.take(n));
        lemma_section_index_prefix(sections, key, n + 1);
    } else {
        assert(sections.take(n) =~= sections);
    }
}

} // verus!
