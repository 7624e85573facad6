//! The overview of a chapter, and the tables of one section.
//!
//! The overview lists what all sections of a chapter use and produce: the
//! references of all sections are merged, and a merged reference is left out
//! only if every reference to its name is excluded from the overview. The
//! tables of a section list the references of the section as they stand.
//! Tables come in a fixed order: hardware, electronics, custom parts,
//! subassemblies, assemblies, tools, consumables; then what is produced.

use crate::inventory::{Inventory, InventoryModel};
use crate::merge::{
    combine_parts, deduplicate_consumables, deduplicate_tools, merge_consumables, merge_parts,
    merge_tools, output_parts, outputs_as_parts, quantities_fit,
};
use crate::render::{
    consumables_table, generate_consumables_table, generate_show_all_button, generate_tools_table,
    parts_table, render_parts_table, show_all_button, tools_table, PartCategory,
};
use crate::schema::{
    views, ConsumableRef, ConsumableReference, PartRef, PartReference, Section, SectionEntry,
    SectionMetadata, SectionModel, ToolRef, ToolReference,
};
use vstd::prelude::*;

verus! {

/// The identifier of the overview in the identifiers of its tables.
pub const OVERVIEW_ID: &'static str = "overview";

/// What follows each table.
pub const LINE_FEED: &'static str = "\n";

/// What stands above the tables of what is used, where tables of what is
/// produced follow.
pub const INPUT_DIVIDER: &'static str = "<p class=\"bom-divider\"><strong>Input</strong></p>\n\n";

/// What stands above the tables of what is produced, where tables of what is
/// used come before.
pub const OUTPUT_DIVIDER: &'static str = "<p class=\"bom-divider\"><strong>Output</strong></p>\n\n";

// ---------------------------------------------------------------------------
// Copies
// ---------------------------------------------------------------------------

fn copy_parts(parts: &Vec<PartReference>) -> (out: Vec<PartReference>)
    ensures
        views(out@) == views(parts@),
{
    let mut out: Vec<PartReference> = Vec::new();
    let mut i: usize = 0;
    while i < parts.len()
        invariant
            i <= parts.len(),
            out@.len() == i,
            forall|j: int| 0 <= j < i ==> (#[trigger] out@[j])@ == parts@[j]@,
        decreases parts.len() - i,
    {
        out.push(
            PartReference {
                name: parts[i].name.clone(),
                quantity: parts[i].quantity,
                exclude_from_bom: parts[i].exclude_from_bom,
                exclude_from_overview: parts[i].exclude_from_overview,
            },
        );
        i += 1;
    }
    assert(views(out@) =~= views(parts@));
    out
}

fn copy_tool(tool: &ToolReference) -> (out: ToolReference)
    ensures
        out@ == tool@,
{
    let setting = match &tool.setting {
        Some(s) => Some(s.clone()),
        None => None,
    };
    ToolReference {
        name: tool.name.clone(),
        setting,
        exclude_from_bom: tool.exclude_from_bom,
        exclude_from_overview: tool.exclude_from_overview,
    }
}

fn copy_tools(tools: &Vec<ToolReference>) -> (out: Vec<ToolReference>)
    ensures
        views(out@) == views(tools@),
{
    let mut out: Vec<ToolReference> = Vec::new();
    let mut i: usize = 0;
    while i < tools.len()
        invariant
            i <= tools.len(),
            out@.len() == i,
            forall|j: int| 0 <= j < i ==> (#[trigger] out@[j])@ == tools@[j]@,
        decreases tools.len() - i,
    {
        out.push(copy_tool(&tools[i]));
        i += 1;
    }
    assert(views(out@) =~= views(tools@));
    out
}

fn copy_consumables(consumables: &Vec<ConsumableReference>) -> (out: Vec<ConsumableReference>)
    ensures
        views(out@) == views(consumables@),
{
    let mut out: Vec<ConsumableReference> = Vec::new();
    let mut i: usize = 0;
    while i < consumables.len()
        invariant
            i <= consumables.len(),
            out@.len() == i,
            forall|j: int| 0 <= j < i ==> (#[trigger] out@[j])@ == consumables@[j]@,
        decreases consumables.len() - i,
    {
        out.push(
            ConsumableReference {
                name: consumables[i].name.clone(),
                exclude_from_bom: consumables[i].exclude_from_bom,
                exclude_from_overview: consumables[i].exclude_from_overview,
            },
        );
        i += 1;
    }
    assert(views(out@) =~= views(consumables@));
    out
}

// ---------------------------------------------------------------------------
// The references of all sections
// ---------------------------------------------------------------------------

impl PartCategory {
    /// The references of the category in a section.
    pub open spec fn refs_of(self, section: SectionModel) -> Seq<PartRef> {
        match self {
            PartCategory::Hardware => section.input.hardware,
            PartCategory::Electronics => section.input.electronics,
            PartCategory::CustomParts => section.input.custom_parts,
            PartCategory::Subassemblies => section.input.subassemblies,
            PartCategory::Assemblies => section.input.assemblies,
            PartCategory::ProducedSubassemblies => outputs_as_parts(section.output.subassemblies),
            PartCategory::ProducedAssemblies => outputs_as_parts(section.output.assemblies),
        }
    }

    /// The references of the category in a section.
    pub fn refs(self, section: &SectionMetadata) -> (out: Vec<PartReference>)
        ensures
            views(out@) == self.refs_of(section@),
    {
        match self {
            PartCategory::Hardware => copy_parts(&section.input.hardware),
            PartCategory::Electronics => copy_parts(&section.input.electronics),
            PartCategory::CustomParts => copy_parts(&section.input.custom_parts),
            PartCategory::Subassemblies => copy_parts(&section.input.subassemblies),
            PartCategory::Assemblies => copy_parts(&section.input.assemblies),
            PartCategory::ProducedSubassemblies => output_parts(&section.output.subassemblies),
            PartCategory::ProducedAssemblies => output_parts(&section.output.assemblies),
        }
    }
}

/// The references of a category in all sections, section after section.
pub open spec fn gathered_parts(sections: Seq<SectionEntry>, category: PartCategory) -> Seq<PartRef>
    decreases sections.len(),
{
    if sections.len() == 0 {
        Seq::empty()
    } else {
        gathered_parts(sections.drop_last(), category) + category.refs_of(sections.last().section)
    }
}

/// The references to tools in all sections, section after section.
pub open spec fn gathered_tools(sections: Seq<SectionEntry>) -> Seq<ToolRef>
    decreases sections.len(),
{
    if sections.len() == 0 {
        Seq::empty()
    } else {
        gathered_tools(sections.drop_last()) + sections.last().section.input.tools
    }
}

/// The references to consumables in all sections, section after section.
pub open spec fn gathered_consumables(sections: Seq<SectionEntry>) -> Seq<ConsumableRef>
    decreases sections.len(),
{
    if sections.len() == 0 {
        Seq::empty()
    } else {
        gathered_consumables(sections.drop_last()) + sections.last().section.input.consumables
    }
}

/// The references of a category in all sections.
pub fn gather_parts(sections: &Vec<Section>, category: PartCategory) -> (out: Vec<PartReference>)
    ensures
        views(out@) == gathered_parts(views(sections@), category),
{
    let ghost all = views(sections@);
    let mut out: Vec<PartReference> = Vec::new();
    let mut i: usize = 0;
    assert(views(out@) =~= gathered_parts(all.take(0), category));
    while i < sections.len()
        invariant
            i <= sections.len(),
            all == views(sections@),
            views(out@) == gathered_parts(all.take(i as int), category),
        decreases sections.len() - i,
    {
        let mut refs = category.refs(&sections[i].metadata);
        proof {
            assert(all.take(i + 1).drop_last() =~= all.take(i as int));
            assert(all.take(i + 1).last() == sections@[i as int]@);
        }
        let ghost before = out@;
        let ghost added = refs@;
        out.append(&mut refs);
        assert(views(out@) =~= views(before) + views(added));
        i += 1;
    }
    proof {
        assert(all.take(sections.len() as int) =~= all);
    }
    out
}

/// The references to tools in all sections.
pub fn gather_tools(sections: &Vec<Section>) -> (out: Vec<ToolReference>)
    ensures
        views(out@) == gathered_tools(views(sections@)),
{
    let ghost all = views(sections@);
    let mut out: Vec<ToolReference> = Vec::new();
    let mut i: usize = 0;
    assert(views(out@) =~= gathered_tools(all.take(0)));
    while i < sections.len()
        invariant
            i <= sections.len(),
            all == views(sections@),
            views(out@) == gathered_tools(all.take(i as int)),
        decreases sections.len() - i,
    {
        proof {
            assert(all.take(i + 1).drop_last() =~= all.take(i as int));
            assert(all.take(i + 1).last() == sections@[i as int]@);
        }
        let mut tools = copy_tools(&sections[i].metadata.input.tools);
        let ghost before = out@;
        let ghost added = tools@;
        out.append(&mut tools);
        assert(views(out@) =~= views(before) + views(added));
        i += 1;
    }
    proof {
        assert(all.take(sections.len() as int) =~= all);
    }
    out
}

/// The references to consumables in all sections.
pub fn gather_consumables(sections: &Vec<Section>) -> (out: Vec<ConsumableReference>)
    ensures
        views(out@) == gathered_consumables(views(sections@)),
{
    let ghost all = views(sections@);
    let mut out: Vec<ConsumableReference> = Vec::new();
    let mut i: usize = 0;
    assert(views(out@) =~= gathered_consumables(all.take(0)));
    while i < sections.len()
        invariant
            i <= sections.len(),
            all == views(sections@),
            views(out@) == gathered_consumables(all.take(i as int)),
        decreases sections.len() - i,
    {
        proof {
            assert(all.take(i + 1).drop_last() =~= all.take(i as int));
            assert(all.take(i + 1).last() == sections@[i as int]@);
        }
        let mut consumables = copy_consumables(&sections[i].metadata.input.consumables);
        let ghost before = out@;
        let ghost added = consumables@;
        out.append(&mut consumables);
        assert(views(out@) =~= views(before) + views(added));
        i += 1;
    }
    proof {
        assert(all.take(sections.len() as int) =~= all);
    }
    out
}

// ---------------------------------------------------------------------------
// What the overview shows
// ---------------------------------------------------------------------------

/// The references that are not excluded from the overview, in their order.
pub open spec fn visible_parts(refs: Seq<PartRef>) -> Seq<PartRef>
    decreases refs.len(),
{
    if refs.len() == 0 {
        Seq::empty()
    } else if refs.last().exclude_from_overview {
        visible_parts(refs.drop_last())
    } else {
        visible_parts(refs.drop_last()).push(refs.last())
    }
}

/// The references that are not excluded from the overview, in their order.
pub open spec fn visible_tools(refs: Seq<ToolRef>) -> Seq<ToolRef>
    decreases refs.len(),
{
    if refs.len() == 0 {
        Seq::empty()
    } else if refs.last().exclude_from_overview {
        visible_tools(refs.drop_last())
    } else {
        visible_tools(refs.drop_last()).push(refs.last())
    }
}

/// The references that are not excluded from the overview, in their order.
pub open spec fn visible_consumables(refs: Seq<ConsumableRef>) -> Seq<ConsumableRef>
    decreases refs.len(),
{
    if refs.len() == 0 {
        Seq::empty()
    } else if refs.last().exclude_from_overview {
        visible_consumables(refs.drop_last())
    } else {
        visible_consumables(refs.drop_last()).push(refs.last())
    }
}

/// What the overview lists of a category: the merged references of all
/// sections but those that every section excludes.
pub open spec fn overview_parts(sections: Seq<SectionEntry>, category: PartCategory) -> Seq<PartRef> {
    visible_parts(merge_parts(gathered_parts(sections, category)))
}

/// What the overview lists of the tools.
pub open spec fn overview_tools(sections: Seq<SectionEntry>) -> Seq<ToolRef> {
    visible_tools(merge_tools(gathered_tools(sections)))
}

/// What the overview lists of the consumables.
pub open spec fn overview_consumables(sections: Seq<SectionEntry>) -> Seq<ConsumableRef> {
    visible_consumables(merge_consumables(gathered_consumables(sections)))
}

/// Whether the quantities of each name, taken over all sections, add up to
/// numbers that a merged reference can hold.
pub open spec fn overview_fits(sections: Seq<SectionEntry>) -> bool {
    forall|category: PartCategory| #[trigger] quantities_fit(gathered_parts(sections, category))
}

fn keep_visible_parts(parts: Vec<PartReference>) -> (out: Vec<PartReference>)
    ensures
        views(out@) == visible_parts(views(parts@)),
{
    let ghost refs = views(parts@);
    let mut out: Vec<PartReference> = Vec::new();
    assert(views(out@) =~= visible_parts(refs.take(0)));
    for part in it: parts
        invariant
            views(it.seq()) == refs,
            views(out@) == visible_parts(refs.take(it.index())),
    {
        proof {
            assert(refs.take(it.index() + 1).drop_last() =~= refs.take(it.index()));
            assert(refs.take(it.index() + 1).last() == part@);
        }
        if !part.exclude_from_overview {
            let ghost before = views(out@);
            out.push(part);
            assert(views(out@) =~= before.push(part@));
        }
    }
    proof {
        assert(refs.take(refs.len() as int) =~= refs);
    }
    out
}

fn keep_visible_tools(tools: Vec<ToolReference>) -> (out: Vec<ToolReference>)
    ensures
        views(out@) == visible_tools(views(tools@)),
{
    let ghost refs = views(tools@);
    let mut out: Vec<ToolReference> = Vec::new();
    assert(views(out@) =~= visible_tools(refs.take(0)));
    for tool in it: tools
        invariant
            views(it.seq()) == refs,
            views(out@) == visible_tools(refs.take(it.index())),
    {
        proof {
            assert(refs.take(it.index() + 1).drop_last() =~= refs.take(it.index()));
            assert(refs.take(it.index() + 1).last() == tool@);
        }
        if !tool.exclude_from_overview {
            let ghost before = views(out@);
            out.push(tool);
            assert(views(out@) =~= before.push(tool@));
        }
    }
    proof {
        assert(refs.take(refs.len() as int) =~= refs);
    }
    out
}

fn keep_visible_consumables(consumables: Vec<ConsumableReference>) -> (out: Vec<
    ConsumableReference,
>)
    ensures
        views(out@) == visible_consumables(views(consumables@)),
{
    let ghost refs = views(consumables@);
    let mut out: Vec<ConsumableReference> = Vec::new();
    assert(views(out@) =~= visible_consumables(refs.take(0)));
    for consumable in it: consumables
        invariant
            views(it.seq()) == refs,
            views(out@) == visible_consumables(refs.take(it.index())),
    {
        proof {
            assert(refs.take(it.index() + 1).drop_last() =~= refs.take(it.index()));
            assert(refs.take(it.index() + 1).last() == consumable@);
        }
        if !consumable.exclude_from_overview {
            let ghost before = views(out@);
            out.push(consumable);
            assert(views(out@) =~= before.push(consumable@));
        }
    }
    proof {
        assert(refs.take(refs.len() as int) =~= refs);
    }
    out
}

// ---------------------------------------------------------------------------
// A set of tables and its layout
// ---------------------------------------------------------------------------

/// The tables of one section, or of the overview. A table without rows is
/// empty text.
pub struct Tables {
    pub hardware: String,
    pub electronics: String,
    pub custom_parts: String,
    pub subassemblies: String,
    pub assemblies: String,
    pub tools: String,
    pub consumables: String,
    pub produced_subassemblies: String,
    pub produced_assemblies: String,
}

/// The view of a [`Tables`].
pub struct TableSet {
    pub hardware: Seq<char>,
    pub electronics: Seq<char>,
    pub custom_parts: Seq<char>,
    pub subassemblies: Seq<char>,
    pub assemblies: Seq<char>,
    pub tools: Seq<char>,
    pub consumables: Seq<char>,
    pub produced_subassemblies: Seq<char>,
    pub produced_assemblies: Seq<char>,
}

impl View for Tables {
    type V = TableSet;

    open spec fn view(&self) -> TableSet {
        TableSet {
            hardware: self.hardware@,
            electronics: self.electronics@,
            custom_parts: self.custom_parts@,
            subassemblies: self.subassemblies@,
            assemblies: self.assemblies@,
            tools: self.tools@,
            consumables: self.consumables@,
            produced_subassemblies: self.produced_subassemblies@,
            produced_assemblies: self.produced_assemblies@,
        }
    }
}

/// A table with a line feed after it; nothing for a table without rows.
pub open spec fn followed(table: Seq<char>) -> Seq<char> {
    if table.len() == 0 {
        Seq::empty()
    } else {
        table + LINE_FEED@
    }
}

/// The tables of what is used, in their order.
pub open spec fn input_tables(t: TableSet) -> Seq<char> {
    followed(t.hardware) + followed(t.electronics) + followed(t.custom_parts) + followed(
        t.subassemblies,
    ) + followed(t.assemblies) + followed(t.tools) + followed(t.consumables)
}

/// The tables of what is produced, in their order.
pub open spec fn output_tables(t: TableSet) -> Seq<char> {
    followed(t.produced_subassemblies) + followed(t.produced_assemblies)
}

/// The block of what is used: the control that opens all tables, a divider
/// where a block of what is produced exists too, and the tables. Nothing
/// where no table has rows.
pub open spec fn input_block(t: TableSet, section_id: Seq<char>) -> Seq<char> {
    if input_tables(t).len() == 0 {
        Seq::empty()
    } else if output_tables(t).len() == 0 {
        show_all_button(section_id) + LINE_FEED@ + input_tables(t)
    } else {
        show_all_button(section_id) + LINE_FEED@ + INPUT_DIVIDER@ + input_tables(t)
    }
}

/// The block of what is produced: a divider where a block of what is used
/// exists too, and the tables. Nothing where no table has rows.
pub open spec fn output_block(t: TableSet) -> Seq<char> {
    if output_tables(t).len() == 0 {
        Seq::empty()
    } else if input_tables(t).len() == 0 {
        output_tables(t)
    } else {
        OUTPUT_DIVIDER@ + output_tables(t)
    }
}

fn push_followed(out: &mut String, table: &String)
    ensures
        final(out)@ == old(out)@ + followed(table@),
{
    if table.as_str().is_empty() {
        assert(out@ =~= old(out)@ + followed(table@));
    } else {
        out.append(table.as_str());
        out.append(LINE_FEED);
        assert(out@ =~= old(out)@ + followed(table@));
    }
}

fn input_tables_text(tables: &Tables) -> (r: String)
    ensures
        r@ == input_tables(tables@),
{
    let mut r = String::new();
    push_followed(&mut r, &tables.hardware);
    push_followed(&mut r, &tables.electronics);
    push_followed(&mut r, &tables.custom_parts);
    push_followed(&mut r, &tables.subassemblies);
    push_followed(&mut r, &tables.assemblies);
    push_followed(&mut r, &tables.tools);
    push_followed(&mut r, &tables.consumables);
    assert(r@ =~= input_tables(tables@));
    r
}

fn output_tables_text(tables: &Tables) -> (r: String)
    ensures
        r@ == output_tables(tables@),
{
    let mut r = String::new();
    push_followed(&mut r, &tables.produced_subassemblies);
    push_followed(&mut r, &tables.produced_assemblies);
    assert(r@ =~= output_tables(tables@));
    r
}

impl Tables {
    /// The block of what is used.
    pub fn input_block(&self, section_id: &str) -> (r: String)
        ensures
            r@ == input_block(self@, section_id@),
    {
        let inputs = input_tables_text(self);
        if inputs.as_str().is_empty() {
            return inputs;
        }
        let outputs = output_tables_text(self);
        let mut r = generate_show_all_button(section_id);
        r.append(LINE_FEED);
        if !outputs.as_str().is_empty() {
            r.append(INPUT_DIVIDER);
        }
        r.append(inputs.as_str());
        r
    }

    /// The block of what is produced.
    pub fn output_block(&self) -> (r: String)
        ensures
            r@ == output_block(self@),
    {
        let outputs = output_tables_text(self);
        if outputs.as_str().is_empty() {
            return outputs;
        }
        let inputs = input_tables_text(self);
        if inputs.as_str().is_empty() {
            return outputs;
        }
        let mut r = String::new();
        r.append(OUTPUT_DIVIDER);
        r.append(outputs.as_str());
        assert(r@ =~= OUTPUT_DIVIDER@ + output_tables(self@));
        r
    }
}

// ---------------------------------------------------------------------------
// The tables of a section
// ---------------------------------------------------------------------------

/// The table of a category of counted items in a section.
pub open spec fn section_parts_table(
    section: SectionModel,
    inventory: InventoryModel,
    category: PartCategory,
    section_id: Seq<char>,
) -> Seq<char> {
    parts_table(category, category.refs_of(section), category.catalog_of(inventory), section_id)
}

/// The tables of a section: its references as they stand.
pub open spec fn section_table_set(
    section: SectionModel,
    inventory: InventoryModel,
    section_id: Seq<char>,
) -> TableSet {
    TableSet {
        hardware: section_parts_table(section, inventory, PartCategory::Hardware, section_id),
        electronics: section_parts_table(section, inventory, PartCategory::Electronics, section_id),
        custom_parts: section_parts_table(section, inventory, PartCategory::CustomParts, section_id),
        subassemblies: section_parts_table(
            section,
            inventory,
            PartCategory::Subassemblies,
            section_id,
        ),
        assemblies: section_parts_table(section, inventory, PartCategory::Assemblies, section_id),
        tools: tools_table(section.input.tools, inventory.tools, section_id),
        consumables: consumables_table(section.input.consumables, inventory.consumables, section_id),
        produced_subassemblies: section_parts_table(
            section,
            inventory,
            PartCategory::ProducedSubassemblies,
            section_id,
        ),
        produced_assemblies: section_parts_table(
            section,
            inventory,
            PartCategory::ProducedAssemblies,
            section_id,
        ),
    }
}

fn section_parts(
    section: &SectionMetadata,
    inventory: &Inventory,
    category: PartCategory,
    section_id: &str,
) -> (r: String)
    ensures
        r@ == section_parts_table(section@, inventory@, category, section_id@),
{
    let refs = category.refs(section);
    render_parts_table(category, &refs, category.catalog(inventory), section_id)
}

/// The tables of a section.
pub fn section_tables(section: &SectionMetadata, inventory: &Inventory, section_id: &str) -> (r:
    Tables)
    ensures
        r@ == section_table_set(section@, inventory@, section_id@),
{
    Tables {
        hardware: section_parts(section, inventory, PartCategory::Hardware, section_id),
        electronics: section_parts(section, inventory, PartCategory::Electronics, section_id),
        custom_parts: section_parts(section, inventory, PartCategory::CustomParts, section_id),
        subassemblies: section_parts(section, inventory, PartCategory::Subassemblies, section_id),
        assemblies: section_parts(section, inventory, PartCategory::Assemblies, section_id),
        tools: generate_tools_table(&section.input.tools, inventory, section_id),
        consumables: generate_consumables_table(&section.input.consumables, inventory, section_id),
        produced_subassemblies: section_parts(
            section,
            inventory,
            PartCategory::ProducedSubassemblies,
            section_id,
        ),
        produced_assemblies: section_parts(
            section,
            inventory,
            PartCategory::ProducedAssemblies,
            section_id,
        ),
    }
}

// ---------------------------------------------------------------------------
// The overview
// ---------------------------------------------------------------------------

/// The table of a category of counted items in the overview.
pub open spec fn overview_parts_table(
    sections: Seq<SectionEntry>,
    inventory: InventoryModel,
    category: PartCategory,
) -> Seq<char> {
    parts_table(
        category,
        overview_parts(sections, category),
        category.catalog_of(inventory),
        OVERVIEW_ID@,
    )
}

/// The tables of the overview.
pub open spec fn overview_table_set(sections: Seq<SectionEntry>, inventory: InventoryModel) -> TableSet {
    TableSet {
        hardware: overview_parts_table(sections, inventory, PartCategory::Hardware),
        electronics: overview_parts_table(sections, inventory, PartCategory::Electronics),
        custom_parts: overview_parts_table(sections, inventory, PartCategory::CustomParts),
        subassemblies: overview_parts_table(sections, inventory, PartCategory::Subassemblies),
        assemblies: overview_parts_table(sections, inventory, PartCategory::Assemblies),
        tools: tools_table(overview_tools(sections), inventory.tools, OVERVIEW_ID@),
        consumables: consumables_table(
            overview_consumables(sections),
            inventory.consumables,
            OVERVIEW_ID@,
        ),
        produced_subassemblies: overview_parts_table(
            sections,
            inventory,
            PartCategory::ProducedSubassemblies,
        ),
        produced_assemblies: overview_parts_table(
            sections,
            inventory,
            PartCategory::ProducedAssemblies,
        ),
    }
}

/// The overview of a chapter: the block of what its sections use, then the
/// block of what they produce. Nothing where nothing is to be listed.
pub open spec fn overview_text(sections: Seq<SectionEntry>, inventory: InventoryModel) -> Seq<char> {
    let tables = overview_table_set(sections, inventory);
    input_block(tables, OVERVIEW_ID@) + output_block(tables)
}

fn overview_parts_of(sections: &Vec<Section>, inventory: &Inventory, category: PartCategory) -> (r:
    String)
    requires
        quantities_fit(gathered_parts(views(sections@), category)),
    ensures
        r@ == overview_parts_table(views(sections@), inventory@, category),
{
    let all = gather_parts(sections, category);
    let merged = combine_parts(&all);
    let shown = keep_visible_parts(merged);
    render_parts_table(category, &shown, category.catalog(inventory), OVERVIEW_ID)
}

/// The tables of the overview.
pub fn overview_tables(sections: &Vec<Section>, inventory: &Inventory) -> (r: Tables)
    requires
        overview_fits(views(sections@)),
    ensures
        r@ == overview_table_set(views(sections@), inventory@),
{
    let ghost all = views(sections@);
    assert(quantities_fit(gathered_parts(all, PartCategory::Hardware)));
    assert(quantities_fit(gathered_parts(all, PartCategory::Electronics)));
    assert(quantities_fit(gathered_parts(all, PartCategory::CustomParts)));
    assert(quantities_fit(gathered_parts(all, PartCategory::Subassemblies)));
    assert(quantities_fit(gathered_parts(all, PartCategory::Assemblies)));
    assert(quantities_fit(gathered_parts(all, PartCategory::ProducedSubassemblies)));
    assert(quantities_fit(gathered_parts(all, PartCategory::ProducedAssemblies)));
    let tools = keep_visible_tools(deduplicate_tools(&gather_tools(sections)));
    let consumables = keep_visible_consumables(
        deduplicate_consumables(&gather_consumables(sections)),
    );
    Tables {
        hardware: overview_parts_of(sections, inventory, PartCategory::Hardware),
        electronics: overview_parts_of(sections, inventory, PartCategory::Electronics),
        custom_parts: overview_parts_of(sections, inventory, PartCategory::CustomParts),
        subassemblies: overview_parts_of(sections, inventory, PartCategory::Subassemblies),
        assemblies: overview_parts_of(sections, inventory, PartCategory::Assemblies),
        tools: generate_tools_table(&tools, inventory, OVERVIEW_ID),
        consumables: generate_consumables_table(&consumables, inventory, OVERVIEW_ID),
        produced_subassemblies: overview_parts_of(
            sections,
            inventory,
            PartCategory::ProducedSubassemblies,
        ),
        produced_assemblies: overview_parts_of(
            sections,
            inventory,
            PartCategory::ProducedAssemblies,
        ),
    }
}

/// The overview of a chapter with the sections `sections`.
pub fn generate_overview_tables(sections: &Vec<Section>, inventory: &Inventory) -> (r: String)
    requires
        overview_fits(views(sections@)),
    ensures
        r@ == overview_text(views(sections@), inventory@),
{
    let tables = overview_tables(sections, inventory);
    let mut r = tables.input_block(OVERVIEW_ID);
    let output = tables.output_block();
    r.append(output.as_str());
    r
}

} // verus!
