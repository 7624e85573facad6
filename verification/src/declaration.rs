//! The declaration of a chapter as it is written, in each of its layouts,
//! and the one shape to which all of them are brought.
//!
//! The layout has changed over time. At first a chapter listed its parts,
//! consumables and tools itself. Then the lists moved into sections; the
//! fasteners of a section were called `parts`, then `fasteners`, then
//! `hardware`. At last the lists of a section moved into its `input`, beside
//! an `output`. A declaration may use any of these, and mix them. Nothing
//! after this module knows of the difference.

use crate::schema::{
    views, ChapterMetadata, ConsumableReference, InputBundle, OutputBundle, OutputReference,
    PartReference, Section, SectionEntry, SectionInput, SectionMetadata, SectionModel,
    SectionOutput, ToolReference,
};
use vstd::prelude::*;

verus! {

/// The key of the one section of a chapter that lists its items itself.
pub const LEGACY_KEY: &'static str = "legacy";

/// What a section uses, as written under `input`.
#[derive(Debug, Clone)]
pub struct DeclaredInput {
    pub hardware: Option<Vec<PartReference>>,
    pub electronics: Option<Vec<PartReference>>,
    pub custom_parts: Option<Vec<PartReference>>,
    pub subassemblies: Option<Vec<PartReference>>,
    pub assemblies: Option<Vec<PartReference>>,
    pub tools: Option<Vec<ToolReference>>,
    pub consumables: Option<Vec<ConsumableReference>>,
}

/// What a section produces, as written under `output`.
#[derive(Debug, Clone)]
pub struct DeclaredOutput {
    pub subassemblies: Option<Vec<OutputReference>>,
    pub assemblies: Option<Vec<OutputReference>>,
}

/// A section as written: its `input` and `output`, and the lists that older
/// layouts put into the section itself.
#[derive(Debug, Clone)]
pub struct DeclaredSection {
    pub input: Option<DeclaredInput>,
    pub output: Option<DeclaredOutput>,
    pub hardware: Option<Vec<PartReference>>,
    pub fasteners: Option<Vec<PartReference>>,
    pub parts: Option<Vec<PartReference>>,
    pub electronics: Option<Vec<PartReference>>,
    pub custom_parts: Option<Vec<PartReference>>,
    pub tools: Option<Vec<ToolReference>>,
    pub consumables: Option<Vec<ConsumableReference>>,
}

/// A section as written, under its key.
#[derive(Debug, Clone)]
pub struct DeclaredEntry {
    pub key: String,
    pub section: DeclaredSection,
}

/// A chapter as written: its sections, or the lists that the oldest layout
/// put into the chapter itself.
#[derive(Debug, Clone)]
pub struct DeclaredChapter {
    pub sections: Option<Vec<DeclaredEntry>>,
    pub parts: Option<Vec<PartReference>>,
    pub consumables: Option<Vec<ConsumableReference>>,
    pub tools: Option<Vec<ToolReference>>,
}

/// The views of a list that may be missing: a missing list is empty.
pub open spec fn listed<T: View>(list: Option<Vec<T>>) -> Seq<T::V> {
    match list {
        Some(v) => views(v@),
        None => Seq::empty(),
    }
}

/// What a section uses: for each category what stands under `input`, then
/// what stands in the section itself. The hardware of the section itself is
/// its `hardware`, then its `fasteners`, then its `parts`.
pub open spec fn normalized_input(section: DeclaredSection) -> InputBundle {
    let flat = InputBundle {
        hardware: listed(section.hardware) + listed(section.fasteners) + listed(section.parts),
        electronics: listed(section.electronics),
        custom_parts: listed(section.custom_parts),
        subassemblies: Seq::empty(),
        assemblies: Seq::empty(),
        tools: listed(section.tools),
        consumables: listed(section.consumables),
    };
    match section.input {
        Some(input) => InputBundle {
            hardware: listed(input.hardware) + flat.hardware,
            electronics: listed(input.electronics) + flat.electronics,
            custom_parts: listed(input.custom_parts) + flat.custom_parts,
            subassemblies: listed(input.subassemblies),
            assemblies: listed(input.assemblies),
            tools: listed(input.tools) + flat.tools,
            consumables: listed(input.consumables) + flat.consumables,
        },
        None => flat,
    }
}

/// What a section produces.
pub open spec fn normalized_output(section: DeclaredSection) -> OutputBundle {
    match section.output {
        Some(output) => OutputBundle {
            subassemblies: listed(output.subassemblies),
            assemblies: listed(output.assemblies),
        },
        None => OutputBundle { subassemblies: Seq::empty(), assemblies: Seq::empty() },
    }
}

/// A section in the one shape.
pub open spec fn normalized_section(section: DeclaredSection) -> SectionModel {
    SectionModel { input: normalized_input(section), output: normalized_output(section) }
}

/// The sections of a chapter in the one shape, in their order.
pub open spec fn normalized_entries(entries: Seq<DeclaredEntry>) -> Seq<SectionEntry> {
    entries.map_values(
        |entry: DeclaredEntry|
            SectionEntry { key: entry.key@, section: normalized_section(entry.section) },
    )
}

/// The one section of a chapter that lists its items itself: its parts are
/// hardware.
pub open spec fn legacy_section(chapter: DeclaredChapter) -> SectionEntry {
    SectionEntry {
        key: LEGACY_KEY@,
        section: SectionModel {
            input: InputBundle {
                hardware: listed(chapter.parts),
                electronics: Seq::empty(),
                custom_parts: Seq::empty(),
                subassemblies: Seq::empty(),
                assemblies: Seq::empty(),
                tools: listed(chapter.tools),
                consumables: listed(chapter.consumables),
            },
            output: OutputBundle { subassemblies: Seq::empty(), assemblies: Seq::empty() },
        },
    }
}

/// A chapter in the one shape. Where the chapter has sections, they are its
/// declaration, and lists in the chapter itself are passed over. Where it
/// has none, its own lists make one section.
pub open spec fn normalized_chapter(chapter: DeclaredChapter) -> Seq<SectionEntry> {
    match chapter.sections {
        Some(entries) => normalized_entries(entries@),
        None => seq![legacy_section(chapter)],
    }
}

/// The list, or an empty one where it is missing.
fn list_of<T: View>(list: Option<Vec<T>>) -> (r: Vec<T>)
    ensures
        views(r@) == listed(list),
{
    match list {
        Some(v) => v,
        None => {
            let r: Vec<T> = Vec::new();
            assert(views(r@) =~= Seq::<T::V>::empty());
            r
        },
    }
}

/// The first list, then the second.
fn joined<T: View>(first: Option<Vec<T>>, second: Vec<T>) -> (r: Vec<T>)
    ensures
        views(r@) == listed(first) + views(second@),
{
    let mut r = list_of(first);
    let mut rest = second;
    let ghost a = r@;
    let ghost b = rest@;
    r.append(&mut rest);
    assert(views(r@) =~= views(a) + views(b));
    r
}

/// Brings a section into the one shape.
pub fn normalize_section(section: DeclaredSection) -> (r: SectionMetadata)
    ensures
        r@ == normalized_section(section),
{
    let parts = list_of(section.parts);
    let fasteners = joined(section.fasteners, parts);
    let hardware = joined(section.hardware, fasteners);
    assert(views(hardware@) =~= listed(section.hardware) + listed(section.fasteners) + listed(
        section.parts,
    ));
    let electronics = list_of(section.electronics);
    let custom_parts = list_of(section.custom_parts);
    let tools = list_of(section.tools);
    let consumables = list_of(section.consumables);
    let input = match section.input {
        Some(input) => SectionInput {
            hardware: joined(input.hardware, hardware),
            electronics: joined(input.electronics, electronics),
            custom_parts: joined(input.custom_parts, custom_parts),
            subassemblies: list_of(input.subassemblies),
            assemblies: list_of(input.assemblies),
            tools: joined(input.tools, tools),
            consumables: joined(input.consumables, consumables),
        },
        None => {
            let subassemblies: Vec<PartReference> = Vec::new();
            let assemblies: Vec<PartReference> = Vec::new();
            assert(views(subassemblies@) =~= Seq::empty());
            assert(views(assemblies@) =~= Seq::empty());
            SectionInput {
                hardware,
                electronics,
                custom_parts,
                subassemblies,
                assemblies,
                tools,
                consumables,
            }
        },
    };
    let output = match section.output {
        Some(output) => SectionOutput {
            subassemblies: list_of(output.subassemblies),
            assemblies: list_of(output.assemblies),
        },
        None => {
            let r = SectionOutput::new();
            assert(r@.subassemblies =~= Seq::empty());
            assert(r@.assemblies =~= Seq::empty());
            r
        },
    };
    SectionMetadata { input, output }
}

/// Brings the declaration of a chapter into the one shape.
pub fn normalize_chapter(chapter: DeclaredChapter) -> (r: ChapterMetadata)
    ensures
        r@ == normalized_chapter(chapter),
{
    match chapter.sections {
        Some(entries) => {
            let ghost all = entries@;
            let mut sections: Vec<Section> = Vec::new();
            for entry in it: entries
                invariant
                    it.seq() == all,
                    sections@.len() == it.index(),
                    forall|j: int|
                        0 <= j < it.index() ==> (#[trigger] sections@[j])@ == (SectionEntry {
                            key: all[j].key@,
                            section: normalized_section(all[j].section),
                        }),
            {
                let metadata = normalize_section(entry.section);
                sections.push(Section { key: entry.key, metadata });
            }
            let r = ChapterMetadata { sections };
            assert(r@ =~= normalized_entries(all));
            r
        },
        None => {
            let mut input = SectionInput::new();
            input.hardware = list_of(chapter.parts);
            input.tools = list_of(chapter.tools);
            input.consumables = list_of(chapter.consumables);
            let output = SectionOutput::new();
            let mut sections: Vec<Section> = Vec::new();
            let section = Section {
                key: LEGACY_KEY.to_owned(),
                metadata: SectionMetadata { input, output },
            };
            assert(section@.section.input.electronics =~= Seq::empty());
            assert(section@.section.input.custom_parts =~= Seq::empty());
            assert(section@.section.input.subassemblies =~= Seq::empty());
            assert(section@.section.input.assemblies =~= Seq::empty());
            assert(section@.section.output.subassemblies =~= Seq::empty());
            assert(section@.section.output.assemblies =~= Seq::empty());
            assert(section@ == legacy_section(chapter));
            sections.push(section);
            let r = ChapterMetadata { sections };
            assert(r@ =~= seq![legacy_section(chapter)]);
            r
        },
    }
}

} // verus!
