//! The table renderer: a list of references as a block of HTML.
//!
//! A table has one row for each reference. The rows stand by name in
//! ascending order, and rows of the same name in the order of the list. A
//! name that the inventory does not hold still has its row, with a sentence
//! in place of the description. An empty list gives no table at all.

use crate::inventory::{Catalog, Inventory, InventoryEntry, InventoryModel, NOT_GIVEN};
use crate::merge::{
    consumable_name_set, consumable_names, part_name_set, part_names, tool_name_set, tool_names,
};
use crate::names::distinct_sorted;
use crate::schema::{
    views, ConsumableRef, ConsumableReference, PartRef, PartReference, ToolRef, ToolReference,
};
use crate::text::{decimal, push_decimal, str_eq, string_views};
use vstd::prelude::*;

verus! {

/// The start of a table, up to the identifier of its block.
pub const DETAILS_OPEN: &'static str = "<details id=\"";

/// What joins the category and the section in the identifier of a table.
pub const ID_JOIN: &'static str = "-";

/// What stands between the identifier of a table and its heading.
pub const SUMMARY_OPEN: &'static str = "\">\n<summary><strong>";

/// What stands between the heading of a table and the names of its columns.
pub const SUMMARY_CLOSE: &'static str =
    "</strong></summary>\n<br>\n<table style=\"margin: 0;\">\n<thead>\n";

/// The names of the columns of a table of counted items.
pub const PART_COLUMNS: &'static str =
    "<tr><th>Name</th><th>Description</th><th>Quantity</th></tr>\n";

/// The names of the columns of the table of consumables.
pub const CONSUMABLE_COLUMNS: &'static str = "<tr><th>Name</th><th>Description</th></tr>\n";

/// The names of the columns of the table of tools.
pub const TOOL_COLUMNS: &'static str = "<tr><th>Name</th><th>Setting</th><th>Brand</th></tr>\n";

/// What stands between the names of the columns and the rows.
pub const BODY_OPEN: &'static str = "</thead>\n<tbody>\n";

/// The end of a table, after its rows.
pub const TABLE_FOOT: &'static str = "</tbody>\n</table>\n<br>\n</details>\n\n";

/// The start of a row.
pub const ROW_OPEN: &'static str = "<tr><td>";

/// What stands between two cells of a row.
pub const CELL_BREAK: &'static str = "</td><td>";

/// The end of a row.
pub const ROW_CLOSE: &'static str = "</td></tr>\n";

/// The first part of the identifier of the table of tools.
pub const TOOLS_SLUG: &'static str = "tools";

/// The heading of the table of tools.
pub const TOOLS_LABEL: &'static str = "🔧 Tools";

/// What stands for the brand of a tool that the inventory lacks.
pub const TOOL_NOT_FOUND: &'static str = "Tool not found in inventory";

/// The first part of the identifier of the table of consumables.
pub const CONSUMABLES_SLUG: &'static str = "consumables";

/// The heading of the table of consumables.
pub const CONSUMABLES_LABEL: &'static str = "🧪 Consumables";

/// What stands for the description of a consumable that the inventory lacks.
pub const CONSUMABLE_NOT_FOUND: &'static str = "Consumable not found in inventory";

/// The control that opens all tables, up to the identifier of its section.
pub const SHOW_ALL_HEAD: &'static str = "\n<button onclick=\"toggleAllTables('";

/// The control that opens all tables, after the identifier of its section.
pub const SHOW_ALL_TAIL: &'static str = "')\" class=\"bom-show-all-button\" style=\"
    background: transparent;
    color: var(--icons, #747474);
    border: 1px solid var(--icons, #747474);
    padding: 8px 16px;
    border-radius: 4px;
    cursor: pointer;
    font-size: 14px;
    margin-bottom: 10px;
    transition: all 0.2s ease;
\" onmouseover=\"
    this.style.color='var(--icons-hover, #000000)';
    this.style.borderColor='var(--icons-hover, #000000)';
    this.style.backgroundColor='var(--theme-hover, #e6e6e6)';
\" onmouseout=\"
    this.style.color='var(--icons, #747474)';
    this.style.borderColor='var(--icons, #747474)';
    this.style.backgroundColor='transparent';
\">
    Show All
</button>

<script>
function toggleAllTables(sectionId) {
    const button = event.target;
    const isShowing = button.textContent === 'Hide All';
    const newState = !isShowing;
    const newText = newState ? 'Hide All' : 'Show All';

    button.textContent = newText;

    // Find all details elements for this section
    const detailsElements = [
        document.getElementById('hardware-' + sectionId),
        document.getElementById('electronics-' + sectionId),
        document.getElementById('custom_parts-' + sectionId),
        document.getElementById('subassemblies-' + sectionId),
        document.getElementById('assemblies-' + sectionId),
        document.getElementById('tools-' + sectionId),
        document.getElementById('consumables-' + sectionId),
        document.getElementById('produced_subassemblies-' + sectionId),
        document.getElementById('produced_assemblies-' + sectionId)
    ].filter(el => el !== null);

    detailsElements.forEach(details => {
        details.open = newState;
    });
}
</script>";

/// The control that opens and closes all tables of a section.
pub open spec fn show_all_button(section_id: Seq<char>) -> Seq<char> {
    SHOW_ALL_HEAD@ + section_id + SHOW_ALL_TAIL@
}

/// The control that opens and closes all tables of the section `section_id`.
pub fn generate_show_all_button(section_id: &str) -> (r: String)
    ensures
        r@ == show_all_button(section_id@),
{
    let mut r = String::new();
    r.append(SHOW_ALL_HEAD);
    r.append(section_id);
    r.append(SHOW_ALL_TAIL);
    assert(r@ =~= show_all_button(section_id@));
    r
}

// ---------------------------------------------------------------------------
// Categories of counted items
// ---------------------------------------------------------------------------

/// A category of counted items, as consumed or as produced.
#[derive(Debug, Clone, Copy)]
pub enum PartCategory {
    Hardware,
    Electronics,
    CustomParts,
    Subassemblies,
    Assemblies,
    ProducedSubassemblies,
    ProducedAssemblies,
}

impl PartCategory {
    /// The first part of the identifier of the category's table.
    pub open spec fn slug_text(self) -> Seq<char> {
        match self {
            PartCategory::Hardware => "hardware"@,
            PartCategory::Electronics => "electronics"@,
            PartCategory::CustomParts => "custom_parts"@,
            PartCategory::Subassemblies => "subassemblies"@,
            PartCategory::Assemblies => "assemblies"@,
            PartCategory::ProducedSubassemblies => "produced_subassemblies"@,
            PartCategory::ProducedAssemblies => "produced_assemblies"@,
        }
    }

    /// The heading of the category's table.
    pub open spec fn label_text(self) -> Seq<char> {
        match self {
            PartCategory::Hardware => "🔩 Hardware"@,
            PartCategory::Electronics => "🔌 Electronics"@,
            PartCategory::CustomParts => "⚙️ Custom Parts"@,
            PartCategory::Subassemblies => "🧩 Subassemblies"@,
            PartCategory::Assemblies => "📦 Assemblies"@,
            PartCategory::ProducedSubassemblies => "🧩 Subassemblies"@,
            PartCategory::ProducedAssemblies => "📦 Assemblies"@,
        }
    }

    /// What stands for the description of an item that the inventory lacks.
    pub open spec fn not_found_text(self) -> Seq<char> {
        match self {
            PartCategory::Hardware => "Hardware not found in inventory"@,
            PartCategory::Electronics => "Electronic component not found in inventory"@,
            PartCategory::CustomParts => "Custom part not found in inventory"@,
            PartCategory::Subassemblies => "Subassembly not found in inventory"@,
            PartCategory::Assemblies => "Assembly not found in inventory"@,
            PartCategory::ProducedSubassemblies => "Subassembly not found in inventory"@,
            PartCategory::ProducedAssemblies => "Assembly not found in inventory"@,
        }
    }

    /// The catalog in which the items of the category are looked up.
    pub open spec fn catalog_of(self, inventory: InventoryModel) -> Map<Seq<char>, InventoryEntry> {
        match self {
            PartCategory::Hardware => inventory.fasteners,
            PartCategory::Electronics => inventory.electronics,
            PartCategory::CustomParts => inventory.custom_parts,
            PartCategory::Subassemblies => inventory.subassemblies,
            PartCategory::Assemblies => inventory.assemblies,
            PartCategory::ProducedSubassemblies => inventory.subassemblies,
            PartCategory::ProducedAssemblies => inventory.assemblies,
        }
    }

    /// The first part of the identifier of the category's table.
    pub fn slug(self) -> (r: &'static str)
        ensures
            r@ == self.slug_text(),
    {
        match self {
            PartCategory::Hardware => "hardware",
            PartCategory::Electronics => "electronics",
            PartCategory::CustomParts => "custom_parts",
            PartCategory::Subassemblies => "subassemblies",
            PartCategory::Assemblies => "assemblies",
            PartCategory::ProducedSubassemblies => "produced_subassemblies",
            PartCategory::ProducedAssemblies => "produced_assemblies",
        }
    }

    /// The heading of the category's table.
    pub fn label(self) -> (r: &'static str)
        ensures
            r@ == self.label_text(),
    {
        match self {
            PartCategory::Hardware => "🔩 Hardware",
            PartCategory::Electronics => "🔌 Electronics",
            PartCategory::CustomParts => "⚙️ Custom Parts",
            PartCategory::Subassemblies => "🧩 Subassemblies",
            PartCategory::Assemblies => "📦 Assemblies",
            PartCategory::ProducedSubassemblies => "🧩 Subassemblies",
            PartCategory::ProducedAssemblies => "📦 Assemblies",
        }
    }

    /// What stands for the description of an item that the inventory lacks.
    pub fn not_found(self) -> (r: &'static str)
        ensures
            r@ == self.not_found_text(),
    {
        match self {
            PartCategory::Hardware => "Hardware not found in inventory",
            PartCategory::Electronics => "Electronic component not found in inventory",
            PartCategory::CustomParts => "Custom part not found in inventory",
            PartCategory::Subassemblies => "Subassembly not found in inventory",
            PartCategory::Assemblies => "Assembly not found in inventory",
            PartCategory::ProducedSubassemblies => "Subassembly not found in inventory",
            PartCategory::ProducedAssemblies => "Assembly not found in inventory",
        }
    }

    /// The catalog in which the items of the category are looked up.
    pub fn catalog(self, inventory: &Inventory) -> (r: &Catalog)
        ensures
            r@ == self.catalog_of(inventory@),
    {
        match self {
            PartCategory::Hardware => &inventory.fasteners,
            PartCategory::Electronics => &inventory.electronics,
            PartCategory::CustomParts => &inventory.custom_parts,
            PartCategory::Subassemblies => &inventory.subassemblies,
            PartCategory::Assemblies => &inventory.assemblies,
            PartCategory::ProducedSubassemblies => &inventory.subassemblies,
            PartCategory::ProducedAssemblies => &inventory.assemblies,
        }
    }
}

// ---------------------------------------------------------------------------
// The frame of a table
// ---------------------------------------------------------------------------

/// What stands before the rows of a table.
pub open spec fn table_head(
    slug: Seq<char>,
    label: Seq<char>,
    columns: Seq<char>,
    section_id: Seq<char>,
) -> Seq<char> {
    DETAILS_OPEN@ + slug + ID_JOIN@ + section_id + SUMMARY_OPEN@ + label + SUMMARY_CLOSE@ + columns
        + BODY_OPEN@
}

fn push_table_head(out: &mut String, slug: &str, label: &str, columns: &str, section_id: &str)
    ensures
        final(out)@ == old(out)@ + table_head(slug@, label@, columns@, section_id@),
{
    out.append(DETAILS_OPEN);
    out.append(slug);
    out.append(ID_JOIN);
    out.append(section_id);
    out.append(SUMMARY_OPEN);
    out.append(label);
    out.append(SUMMARY_CLOSE);
    out.append(columns);
    out.append(BODY_OPEN);
    assert(out@ =~= old(out)@ + table_head(slug@, label@, columns@, section_id@));
}

// ---------------------------------------------------------------------------
// Counted items
// ---------------------------------------------------------------------------

/// The description of `name` in the catalog, or `not_found`.
pub open spec fn described(
    name: Seq<char>,
    catalog: Map<Seq<char>, InventoryEntry>,
    not_found: Seq<char>,
) -> Seq<char> {
    if catalog.contains_key(name) {
        catalog[name].description_text()
    } else {
        not_found
    }
}

/// The row of one reference: its name, its description, its quantity.
pub open spec fn part_row(
    r: PartRef,
    catalog: Map<Seq<char>, InventoryEntry>,
    not_found: Seq<char>,
) -> Seq<char> {
    ROW_OPEN@ + r.name + CELL_BREAK@ + described(r.name, catalog, not_found) + CELL_BREAK@
        + decimal(r.quantity) + ROW_CLOSE@
}

/// The rows of the references to `name`, in the order of the list.
pub open spec fn part_rows_named(
    refs: Seq<PartRef>,
    name: Seq<char>,
    catalog: Map<Seq<char>, InventoryEntry>,
    not_found: Seq<char>,
) -> Seq<char>
    decreases refs.len(),
{
    if refs.len() == 0 {
        Seq::empty()
    } else if refs.last().name == name {
        part_rows_named(refs.drop_last(), name, catalog, not_found) + part_row(
            refs.last(),
            catalog,
            not_found,
        )
    } else {
        part_rows_named(refs.drop_last(), name, catalog, not_found)
    }
}

/// The rows of the references to each of `names`, name after name.
pub open spec fn part_rows(
    names: Seq<Seq<char>>,
    refs: Seq<PartRef>,
    catalog: Map<Seq<char>, InventoryEntry>,
    not_found: Seq<char>,
) -> Seq<char>
    decreases names.len(),
{
    if names.len() == 0 {
        Seq::empty()
    } else {
        part_rows(names.drop_last(), refs, catalog, not_found) + part_rows_named(
            refs,
            names.last(),
            catalog,
            not_found,
        )
    }
}

/// The table of a list of counted references: nothing for an empty list,
/// else the rows by name between head and foot.
pub open spec fn parts_table(
    category: PartCategory,
    refs: Seq<PartRef>,
    catalog: Map<Seq<char>, InventoryEntry>,
    section_id: Seq<char>,
) -> Seq<char> {
    if refs.len() == 0 {
        Seq::empty()
    } else {
        table_head(category.slug_text(), category.label_text(), PART_COLUMNS@, section_id)
            + part_rows(
            distinct_sorted(part_names(refs)),
            refs,
            catalog,
            category.not_found_text(),
        ) + TABLE_FOOT@
    }
}

fn push_part_row(out: &mut String, part: &PartReference, catalog: &Catalog, not_found: &str)
    ensures
        final(out)@ == old(out)@ + part_row(part@, catalog@, not_found@),
{
    out.append(ROW_OPEN);
    out.append(part.name.as_str());
    out.append(CELL_BREAK);
    match catalog.lookup(part.name.as_str()) {
        Some(record) => {
            out.append(record.description_text());
        },
        None => {
            out.append(not_found);
        },
    }
    out.append(CELL_BREAK);
    push_decimal(out, part.quantity);
    out.append(ROW_CLOSE);
    assert(out@ =~= old(out)@ + part_row(part@, catalog@, not_found@));
}

fn push_part_rows_named(
    out: &mut String,
    parts: &Vec<PartReference>,
    name: &str,
    catalog: &Catalog,
    not_found: &str,
)
    ensures
        final(out)@ == old(out)@ + part_rows_named(views(parts@), name@, catalog@, not_found@),
{
    let ghost refs = views(parts@);
    let mut i: usize = 0;
    assert(out@ =~= old(out)@ + part_rows_named(refs.take(0), name@, catalog@, not_found@));
    while i < parts.len()
        invariant
            i <= parts.len(),
            refs == views(parts@),
            out@ == old(out)@ + part_rows_named(refs.take(i as int), name@, catalog@, not_found@),
        decreases parts.len() - i,
    {
        proof {
            assert(refs.take(i + 1).drop_last() =~= refs.take(i as int));
            assert(refs.take(i + 1).last() == parts@[i as int]@);
        }
        if str_eq(parts[i].name.as_str(), name) {
            let ghost before = part_rows_named(refs.take(i as int), name@, catalog@, not_found@);
            push_part_row(out, &parts[i], catalog, not_found);
            assert(out@ =~= old(out)@ + (before + part_row(parts@[i as int]@, catalog@, not_found@)));
        }
        i += 1;
    }
    proof {
        assert(refs.take(parts.len() as int) =~= refs);
    }
}

/// The table of `parts` as items of `category`, looked up in `catalog`.
pub fn render_parts_table(
    category: PartCategory,
    parts: &Vec<PartReference>,
    catalog: &Catalog,
    section_id: &str,
) -> (r: String)
    ensures
        r@ == parts_table(category, views(parts@), catalog@, section_id@),
        parts@.len() == 0 ==> r@.len() == 0,
{
    let mut r = String::new();
    if parts.len() == 0 {
        return r;
    }
    let ghost refs = views(parts@);
    let not_found = category.not_found();
    push_table_head(&mut r, category.slug(), category.label(), PART_COLUMNS, section_id);
    let ghost head = r@;
    let names = part_name_set(parts);
    let ghost keys = string_views(names@);
    let mut k: usize = 0;
    assert(r@ =~= head + part_rows(keys.take(0), refs, catalog@, not_found@));
    while k < names.len()
        invariant
            k <= names.len(),
            refs == views(parts@),
            keys == string_views(names@),
            r@ == head + part_rows(keys.take(k as int), refs, catalog@, not_found@),
        decreases names.len() - k,
    {
        let ghost before = part_rows(keys.take(k as int), refs, catalog@, not_found@);
        proof {
            assert(keys.take(k + 1).drop_last() =~= keys.take(k as int));
            assert(keys.take(k + 1).last() == names@[k as int]@);
        }
        push_part_rows_named(&mut r, parts, names[k].as_str(), catalog, not_found);
        assert(r@ =~= head + (before + part_rows_named(refs, names@[k as int]@, catalog@, not_found@)));
        k += 1;
    }
    r.append(TABLE_FOOT);
    proof {
        assert(keys.take(names.len() as int) =~= keys);
        assert(head =~= table_head(
            category.slug_text(),
            category.label_text(),
            PART_COLUMNS@,
            section_id@,
        ));
    }
    r
}

/// The table of the fasteners that a section uses.
pub fn generate_fasteners_table(
    parts: &Vec<PartReference>,
    inventory: &Inventory,
    section_id: &str,
) -> (r: String)
    ensures
        r@ == parts_table(PartCategory::Hardware, views(parts@), inventory@.fasteners, section_id@),
        parts@.len() == 0 ==> r@.len() == 0,
{
    render_parts_table(PartCategory::Hardware, parts, &inventory.fasteners, section_id)
}

/// The table of the electronic parts that a section uses.
pub fn generate_electronics_table(
    parts: &Vec<PartReference>,
    inventory: &Inventory,
    section_id: &str,
) -> (r: String)
    ensures
        r@ == parts_table(
            PartCategory::Electronics,
            views(parts@),
            inventory@.electronics,
            section_id@,
        ),
        parts@.len() == 0 ==> r@.len() == 0,
{
    render_parts_table(PartCategory::Electronics, parts, &inventory.electronics, section_id)
}

/// The table of the custom parts that a section uses.
pub fn generate_custom_parts_table(
    parts: &Vec<PartReference>,
    inventory: &Inventory,
    section_id: &str,
) -> (r: String)
    ensures
        r@ == parts_table(
            PartCategory::CustomParts,
            views(parts@),
            inventory@.custom_parts,
            section_id@,
        ),
        parts@.len() == 0 ==> r@.len() == 0,
{
    render_parts_table(PartCategory::CustomParts, parts, &inventory.custom_parts, section_id)
}

// ---------------------------------------------------------------------------
// Consumables
// ---------------------------------------------------------------------------

/// The row of one reference: its name and its description.
pub open spec fn consumable_row(r: ConsumableRef, catalog: Map<Seq<char>, InventoryEntry>) -> Seq<
    char,
> {
    ROW_OPEN@ + r.name + CELL_BREAK@ + described(r.name, catalog, CONSUMABLE_NOT_FOUND@)
        + ROW_CLOSE@
}

/// The rows of the references to `name`, in the order of the list.
pub open spec fn consumable_rows_named(
    refs: Seq<ConsumableRef>,
    name: Seq<char>,
    catalog: Map<Seq<char>, InventoryEntry>,
) -> Seq<char>
    decreases refs.len(),
{
    if refs.len() == 0 {
        Seq::empty()
    } else if refs.last().name == name {
        consumable_rows_named(refs.drop_last(), name, catalog) + consumable_row(refs.last(), catalog)
    } else {
        consumable_rows_named(refs.drop_last(), name, catalog)
    }
}

/// The rows of the references to each of `names`, name after name.
pub open spec fn consumable_rows(
    names: Seq<Seq<char>>,
    refs: Seq<ConsumableRef>,
    catalog: Map<Seq<char>, InventoryEntry>,
) -> Seq<char>
    decreases names.len(),
{
    if names.len() == 0 {
        Seq::empty()
    } else {
        consumable_rows(names.drop_last(), refs, catalog) + consumable_rows_named(
            refs,
            names.last(),
            catalog,
        )
    }
}

/// The table of a list of references to consumables.
pub open spec fn consumables_table(
    refs: Seq<ConsumableRef>,
    catalog: Map<Seq<char>, InventoryEntry>,
    section_id: Seq<char>,
) -> Seq<char> {
    if refs.len() == 0 {
        Seq::empty()
    } else {
        table_head(CONSUMABLES_SLUG@, CONSUMABLES_LABEL@, CONSUMABLE_COLUMNS@, section_id)
            + consumable_rows(distinct_sorted(consumable_names(refs)), refs, catalog) + TABLE_FOOT@
    }
}

fn push_consumable_row(out: &mut String, consumable: &ConsumableReference, catalog: &Catalog)
    ensures
        final(out)@ == old(out)@ + consumable_row(consumable@, catalog@),
{
    out.append(ROW_OPEN);
    out.append(consumable.name.as_str());
    out.append(CELL_BREAK);
    match catalog.lookup(consumable.name.as_str()) {
        Some(record) => {
            out.append(record.description_text());
        },
        None => {
            out.append(CONSUMABLE_NOT_FOUND);
        },
    }
    out.append(ROW_CLOSE);
    assert(out@ =~= old(out)@ + consumable_row(consumable@, catalog@));
}

fn push_consumable_rows_named(
    out: &mut String,
    consumables: &Vec<ConsumableReference>,
    name: &str,
    catalog: &Catalog,
)
    ensures
        final(out)@ == old(out)@ + consumable_rows_named(views(consumables@), name@, catalog@),
{
    let ghost refs = views(consumables@);
    let mut i: usize = 0;
    assert(out@ =~= old(out)@ + consumable_rows_named(refs.take(0), name@, catalog@));
    while i < consumables.len()
        invariant
            i <= consumables.len(),
            refs == views(consumables@),
            out@ == old(out)@ + consumable_rows_named(refs.take(i as int), name@, catalog@),
        decreases consumables.len() - i,
    {
        proof {
            assert(refs.take(i + 1).drop_last() =~= refs.take(i as int));
            assert(refs.take(i + 1).last() == consumables@[i as int]@);
        }
        if str_eq(consumables[i].name.as_str(), name) {
            let ghost before = consumable_rows_named(refs.take(i as int), name@, catalog@);
            push_consumable_row(out, &consumables[i], catalog);
            assert(out@ =~= old(out)@ + (before + consumable_row(consumables@[i as int]@, catalog@)));
        }
        i += 1;
    }
    proof {
        assert(refs.take(consumables.len() as int) =~= refs);
    }
}

/// The table of the consumables that a section uses.
pub fn generate_consumables_table(
    consumables: &Vec<ConsumableReference>,
    inventory: &Inventory,
    section_id: &str,
) -> (r: String)
    ensures
        r@ == consumables_table(views(consumables@), inventory@.consumables, section_id@),
        consumables@.len() == 0 ==> r@.len() == 0,
{
    let mut r = String::new();
    if consumables.len() == 0 {
        return r;
    }
    let ghost refs = views(consumables@);
    let catalog = &inventory.consumables;
    push_table_head(&mut r, CONSUMABLES_SLUG, CONSUMABLES_LABEL, CONSUMABLE_COLUMNS, section_id);
    let ghost head = r@;
    let names = consumable_name_set(consumables);
    let ghost keys = string_views(names@);
    let mut k: usize = 0;
    assert(r@ =~= head + consumable_rows(keys.take(0), refs, catalog@));
    while k < names.len()
        invariant
            k <= names.len(),
            refs == views(consumables@),
            keys == string_views(names@),
            r@ == head + consumable_rows(keys.take(k as int), refs, catalog@),
        decreases names.len() - k,
    {
        let ghost before = consumable_rows(keys.take(k as int), refs, catalog@);
        proof {
            assert(keys.take(k + 1).drop_last() =~= keys.take(k as int));
            assert(keys.take(k + 1).last() == names@[k as int]@);
        }
        push_consumable_rows_named(&mut r, consumables, names[k].as_str(), catalog);
        assert(r@ =~= head + (before + consumable_rows_named(refs, names@[k as int]@, catalog@)));
        k += 1;
    }
    r.append(TABLE_FOOT);
    proof {
        assert(keys.take(names.len() as int) =~= keys);
        assert(head =~= table_head(
            CONSUMABLES_SLUG@,
            CONSUMABLES_LABEL@,
            CONSUMABLE_COLUMNS@,
            section_id@,
        ));
    }
    r
}

// ---------------------------------------------------------------------------
// Tools
// ---------------------------------------------------------------------------

/// The setting of a reference, or a dash.
pub open spec fn setting_text(r: ToolRef) -> Seq<char> {
    match r.setting {
        Some(s) => s,
        None => NOT_GIVEN@,
    }
}

/// The brand of `name` in the catalog, or the sentence that the tool was not
/// found.
pub open spec fn branded(name: Seq<char>, catalog: Map<Seq<char>, InventoryEntry>) -> Seq<char> {
    if catalog.contains_key(name) {
        catalog[name].brand_text()
    } else {
        TOOL_NOT_FOUND@
    }
}

/// The row of one reference: its name, its setting, its brand.
pub open spec fn tool_row(r: ToolRef, catalog: Map<Seq<char>, InventoryEntry>) -> Seq<char> {
    ROW_OPEN@ + r.name + CELL_BREAK@ + setting_text(r) + CELL_BREAK@ + branded(r.name, catalog)
        + ROW_CLOSE@
}

/// The rows of the references to `name`, in the order of the list.
pub open spec fn tool_rows_named(
    refs: Seq<ToolRef>,
    name: Seq<char>,
    catalog: Map<Seq<char>, InventoryEntry>,
) -> Seq<char>
    decreases refs.len(),
{
    if refs.len() == 0 {
        Seq::empty()
    } else if refs.last().name == name {
        tool_rows_named(refs.drop_last(), name, catalog) + tool_row(refs.last(), catalog)
    } else {
        tool_rows_named(refs.drop_last(), name, catalog)
    }
}

/// The rows of the references to each of `names`, name after name.
pub open spec fn tool_rows(
    names: Seq<Seq<char>>,
    refs: Seq<ToolRef>,
    catalog: Map<Seq<char>, InventoryEntry>,
) -> Seq<char>
    decreases names.len(),
{
    if names.len() == 0 {
        Seq::empty()
    } else {
        tool_rows(names.drop_last(), refs, catalog) + tool_rows_named(refs, names.last(), catalog)
    }
}

/// The table of a list of references to tools.
pub open spec fn tools_table(
    refs: Seq<ToolRef>,
    catalog: Map<Seq<char>, InventoryEntry>,
    section_id: Seq<char>,
) -> Seq<char> {
    if refs.len() == 0 {
        Seq::empty()
    } else {
        table_head(TOOLS_SLUG@, TOOLS_LABEL@, TOOL_COLUMNS@, section_id) + tool_rows(
            distinct_sorted(tool_names(refs)),
            refs,
            catalog,
        ) + TABLE_FOOT@
    }
}

fn push_tool_row(out: &mut String, tool: &ToolReference, catalog: &Catalog)
    ensures
        final(out)@ == old(out)@ + tool_row(tool@, catalog@),
{
    out.append(ROW_OPEN);
    out.append(tool.name.as_str());
    out.append(CELL_BREAK);
    match &tool.setting {
        Some(setting) => {
            out.append(setting.as_str());
        },
        None => {
            out.append(NOT_GIVEN);
        },
    }
    out.append(CELL_BREAK);
    match catalog.lookup(tool.name.as_str()) {
        Some(record) => {
            out.append(record.brand_text());
        },
        None => {
            out.append(TOOL_NOT_FOUND);
        },
    }
    out.append(ROW_CLOSE);
    assert(out@ =~= old(out)@ + tool_row(tool@, catalog@));
}

fn push_tool_rows_named(out: &mut String, tools: &Vec<ToolReference>, name: &str, catalog: &Catalog)
    ensures
        final(out)@ == old(out)@ + tool_rows_named(views(tools@), name@, catalog@),
{
    let ghost refs = views(tools@);
    let mut i: usize = 0;
    assert(out@ =~= old(out)@ + tool_rows_named(refs.take(0), name@, catalog@));
    while i < tools.len()
        invariant
            i <= tools.len(),
            refs == views(tools@),
            out@ == old(out)@ + tool_rows_named(refs.take(i as int), name@, catalog@),
        decreases tools.len() - i,
    {
        proof {
            assert(refs.take(i + 1).drop_last() =~= refs.take(i as int));
            assert(refs.take(i + 1).last() == tools@[i as int]@);
        }
        if str_eq(tools[i].name.as_str(), name) {
            let ghost before = tool_rows_named(refs.take(i as int), name@, catalog@);
            push_tool_row(out, &tools[i], catalog);
            assert(out@ =~= old(out)@ + (before + tool_row(tools@[i as int]@, catalog@)));
        }
        i += 1;
    }
    proof {
        assert(refs.take(tools.len() as int) =~= refs);
    }
}

/// The table of the tools that a section uses.
pub fn generate_tools_table(tools: &Vec<ToolReference>, inventory: &Inventory, section_id: &str) -> (r:
    String)
    ensures
        r@ == tools_table(views(tools@), inventory@.tools, section_id@),
        tools@.len() == 0 ==> r@.len() == 0,
{
    let mut r = String::new();
    if tools.len() == 0 {
        return r;
    }
    let ghost refs = views(tools@);
    let catalog = &inventory.tools;
    push_table_head(&mut r, TOOLS_SLUG, TOOLS_LABEL, TOOL_COLUMNS, section_id);
    let ghost head = r@;
    let names = tool_name_set(tools);
    let ghost keys = string_views(names@);
    let mut k: usize = 0;
    assert(r@ =~= head + tool_rows(keys.take(0), refs, catalog@));
    while k < names.len()
        invariant
            k <= names.len(),
            refs == views(tools@),
            keys == string_views(names@),
            r@ == head + tool_rows(keys.take(k as int), refs, catalog@),
        decreases names.len() - k,
    {
        let ghost before = tool_rows(keys.take(k as int), refs, catalog@);
        proof {
            assert(keys.take(k + 1).drop_last() =~= keys.take(k as int));
            assert(keys.take(k + 1).last() == names@[k as int]@);
        }
        push_tool_rows_named(&mut r, tools, names[k].as_str(), catalog);
        assert(r@ =~= head + (before + tool_rows_named(refs, names@[k as int]@, catalog@)));
        k += 1;
    }
    r.append(TABLE_FOOT);
    proof {
        assert(keys.take(names.len() as int) =~= keys);
        assert(head =~= table_head(TOOLS_SLUG@, TOOLS_LABEL@, TOOL_COLUMNS@, section_id@));
    }
    r
}

// ---------------------------------------------------------------------------
// Every reference has its row
// ---------------------------------------------------------------------------

/// `part` between `before` and `after`.
pub open spec fn framed(before: Seq<char>, part: Seq<char>, after: Seq<char>) -> Seq<char> {
    before + part + after
}

/// Whether `part` stands in `text`, as a whole.
pub open spec fn stands_in(part: Seq<char>, text: Seq<char>) -> bool {
    exists|before: Seq<char>, after: Seq<char>| text == #[trigger] framed(before, part, after)
}

/// What stands in a part of a text stands in the text.
proof fn lemma_stands_in_framed(part: Seq<char>, inner: Seq<char>, before: Seq<char>, after: Seq<char>)
    requires
        stands_in(part, inner),
    ensures
        stands_in(part, before + inner + after),
{
    let (b, a) = choose|b: Seq<char>, a: Seq<char>| inner == #[trigger] framed(b, part, a);
    assert(before + inner + after =~= framed(before + b, part, a + after));
}

proof fn lemma_part_rows_named_hold(
    refs: Seq<PartRef>,
    catalog: Map<Seq<char>, InventoryEntry>,
    not_found: Seq<char>,
    at: int,
)
    requires
        0 <= at < refs.len(),
    ensures
        stands_in(
            part_row(refs[at], catalog, not_found),
            part_rows_named(refs, refs[at].name, catalog, not_found),
        ),
    decreases refs.len(),
{
    let name = refs[at].name;
    let row = part_row(refs[at], catalog, not_found);
    let front = refs.drop_last();
    let rest = part_rows_named(front, name, catalog, not_found);
    let all = part_rows_named(refs, name, catalog, not_found);
    if at == refs.len() - 1 {
        assert(all =~= framed(rest, row, Seq::empty()));
    } else {
        assert(front[at] == refs[at]);
        lemma_part_rows_named_hold(front, catalog, not_found, at);
        if refs.last().name == name {
            lemma_stands_in_framed(
                row,
                rest,
                Seq::empty(),
                part_row(refs.last(), catalog, not_found),
            );
            assert(Seq::<char>::empty() + rest + part_row(refs.last(), catalog, not_found) =~= all);
        }
    }
}

proof fn lemma_part_rows_hold(
    names: Seq<Seq<char>>,
    refs: Seq<PartRef>,
    catalog: Map<Seq<char>, InventoryEntry>,
    not_found: Seq<char>,
    part: Seq<char>,
    at: int,
)
    requires
        0 <= at < names.len(),
        stands_in(part, part_rows_named(refs, names[at], catalog, not_found)),
    ensures
        stands_in(part, part_rows(names, refs, catalog, not_found)),
    decreases names.len(),
{
    let front = names.drop_last();
    let rest = part_rows(front, refs, catalog, not_found);
    let last = part_rows_named(refs, names.last(), catalog, not_found);
    if at == names.len() - 1 {
        lemma_stands_in_framed(part, last, rest, Seq::empty());
        assert(rest + last + Seq::<char>::empty() =~= part_rows(names, refs, catalog, not_found));
    } else {
        assert(front[at] == names[at]);
        lemma_part_rows_hold(front, refs, catalog, not_found, part, at);
        lemma_stands_in_framed(part, rest, Seq::empty(), last);
        assert(Seq::<char>::empty() + rest + last =~= part_rows(names, refs, catalog, not_found));
    }
}

/// The table of a list of counted references holds the row of each
/// reference of the list, whether the inventory holds its name or not.
pub proof fn lemma_part_has_its_row(
    category: PartCategory,
    refs: Seq<PartRef>,
    catalog: Map<Seq<char>, InventoryEntry>,
    section_id: Seq<char>,
    at: int,
)
    requires
        0 <= at < refs.len(),
    ensures
        stands_in(
            part_row(refs[at], catalog, category.not_found_text()),
            parts_table(category, refs, catalog, section_id),
        ),
{
    let not_found = category.not_found_text();
    let names = distinct_sorted(part_names(refs));
    let row = part_row(refs[at], catalog, not_found);
    crate::names::lemma_distinct_sorted(part_names(refs));
    assert(part_names(refs)[at] == refs[at].name);
    assert(names.contains(refs[at].name));
    let j = choose|j: int| 0 <= j < names.len() && names[j] == refs[at].name;
    lemma_part_rows_named_hold(refs, catalog, not_found, at);
    lemma_part_rows_hold(names, refs, catalog, not_found, row, j);
    lemma_stands_in_framed(
        row,
        part_rows(names, refs, catalog, not_found),
        table_head(category.slug_text(), category.label_text(), PART_COLUMNS@, section_id),
        TABLE_FOOT@,
    );
}

/// The row of a reference whose name the inventory does not hold shows the
/// sentence of the category in place of a description.
pub proof fn lemma_unknown_part_row(
    r: PartRef,
    catalog: Map<Seq<char>, InventoryEntry>,
    not_found: Seq<char>,
)
    requires
        !catalog.contains_key(r.name),
    ensures
        part_row(r, catalog, not_found) == ROW_OPEN@ + r.name + CELL_BREAK@ + not_found
            + CELL_BREAK@ + decimal(r.quantity) + ROW_CLOSE@,
{
}

proof fn lemma_consumable_rows_named_hold(
    refs: Seq<ConsumableRef>,
    catalog: Map<Seq<char>, InventoryEntry>,
    at: int,
)
    requires
        0 <= at < refs.len(),
    ensures
        stands_in(consumable_row(refs[at], catalog), consumable_rows_named(refs, refs[at].name, catalog)),
    decreases refs.len(),
{
    let name = refs[at].name;
    let row = consumable_row(refs[at], catalog);
    let front = refs.drop_last();
    let rest = consumable_rows_named(front, name, catalog);
    let all = consumable_rows_named(refs, name, catalog);
    if at == refs.len() - 1 {
        assert(all =~= framed(rest, row, Seq::empty()));
    } else {
        assert(front[at] == refs[at]);
        lemma_consumable_rows_named_hold(front, catalog, at);
        if refs.last().name == name {
            lemma_stands_in_framed(row, rest, Seq::empty(), consumable_row(refs.last(), catalog));
            assert(Seq::<char>::empty() + rest + consumable_row(refs.last(), catalog) =~= all);
        }
    }
}

proof fn lemma_consumable_rows_hold(
    names: Seq<Seq<char>>,
    refs: Seq<ConsumableRef>,
    catalog: Map<Seq<char>, InventoryEntry>,
    part: Seq<char>,
    at: int,
)
    requires
        0 <= at < names.len(),
        stands_in(part, consumable_rows_named(refs, names[at], catalog)),
    ensures
        stands_in(part, consumable_rows(names, refs, catalog)),
    decreases names.len(),
{
    let front = names.drop_last();
    let rest = consumable_rows(front, refs, catalog);
    let last = consumable_rows_named(refs, names.last(), catalog);
    if at == names.len() - 1 {
        lemma_stands_in_framed(part, last, rest, Seq::empty());
        assert(rest + last + Seq::<char>::empty() =~= consumable_rows(names, refs, catalog));
    } else {
        assert(front[at] == names[at]);
        lemma_consumable_rows_hold(front, refs, catalog, part, at);
        lemma_stands_in_framed(part, rest, Seq::empty(), last);
        assert(Seq::<char>::empty() + rest + last =~= consumable_rows(names, refs, catalog));
    }
}

/// The table of a list of references to consumables holds the row of each
/// reference of the list, whether the inventory holds its name or not.
pub proof fn lemma_consumable_has_its_row(
    refs: Seq<ConsumableRef>,
    catalog: Map<Seq<char>, InventoryEntry>,
    section_id: Seq<char>,
    at: int,
)
    requires
        0 <= at < refs.len(),
    ensures
        stands_in(consumable_row(refs[at], catalog), consumables_table(refs, catalog, section_id)),
{
    let names = distinct_sorted(consumable_names(refs));
    let row = consumable_row(refs[at], catalog);
    crate::names::lemma_distinct_sorted(consumable_names(refs));
    assert(consumable_names(refs)[at] == refs[at].name);
    assert(names.contains(refs[at].name));
    let j = choose|j: int| 0 <= j < names.len() && names[j] == refs[at].name;
    lemma_consumable_rows_named_hold(refs, catalog, at);
    lemma_consumable_rows_hold(names, refs, catalog, row, j);
    lemma_stands_in_framed(
        row,
        consumable_rows(names, refs, catalog),
        table_head(CONSUMABLES_SLUG@, CONSUMABLES_LABEL@, CONSUMABLE_COLUMNS@, section_id),
        TABLE_FOOT@,
    );
}

/// The row of a consumable whose name the inventory does not hold shows the
/// sentence that it was not found in place of a description.
pub proof fn lemma_unknown_consumable_row(r: ConsumableRef, catalog: Map<Seq<char>, InventoryEntry>)
    requires
        !catalog.contains_key(r.name),
    ensures
        consumable_row(r, catalog) == ROW_OPEN@ + r.name + CELL_BREAK@ + CONSUMABLE_NOT_FOUND@ + ROW_CLOSE@,
{
}

proof fn lemma_tool_rows_named_hold(
    refs: Seq<ToolRef>,
    catalog: Map<Seq<char>, InventoryEntry>,
    at: int,
)
    requires
        0 <= at < refs.len(),
    ensures
        stands_in(tool_row(refs[at], catalog), tool_rows_named(refs, refs[at].name, catalog)),
    decreases refs.len(),
{
    let name = refs[at].name;
    let row = tool_row(refs[at], catalog);
    let front = refs.drop_last();
    let rest = tool_rows_named(front, name, catalog);
    let all = tool_rows_named(refs, name, catalog);
    if at == refs.len() - 1 {
        assert(all =~= framed(rest, row, Seq::empty()));
    } else {
        assert(front[at] == refs[at]);
        lemma_tool_rows_named_hold(front, catalog, at);
        if refs.last().name == name {
            lemma_stands_in_framed(row, rest, Seq::empty(), tool_row(refs.last(), catalog));
            assert(Seq::<char>::empty() + rest + tool_row(refs.last(), catalog) =~= all);
        }
    }
}

proof fn lemma_tool_rows_hold(
    names: Seq<Seq<char>>,
    refs: Seq<ToolRef>,
    catalog: Map<Seq<char>, InventoryEntry>,
    part: Seq<char>,
    at: int,
)
    requires
        0 <= at < names.len(),
        stands_in(part, tool_rows_named(refs, names[at], catalog)),
    ensures
        stands_in(part, tool_rows(names, refs, catalog)),
    decreases names.len(),
{
    let front = names.drop_last();
    let rest = tool_rows(front, refs, catalog);
    let last = tool_rows_named(refs, names.last(), catalog);
    if at == names.len() - 1 {
        lemma_stands_in_framed(part, last, rest, Seq::empty());
        assert(rest + last + Seq::<char>::empty() =~= tool_rows(names, refs, catalog));
    } else {
        assert(front[at] == names[at]);
        lemma_tool_rows_hold(front, refs, catalog, part, at);
        lemma_stands_in_framed(part, rest, Seq::empty(), last);
        assert(Seq::<char>::empty() + rest + last =~= tool_rows(names, refs, catalog));
    }
}

/// The table of a list of references to tools holds the row of each
/// reference of the list, whether the inventory holds its name or not.
pub proof fn lemma_tool_has_its_row(
    refs: Seq<ToolRef>,
    catalog: Map<Seq<char>, InventoryEntry>,
    section_id: Seq<char>,
    at: int,
)
    requires
        0 <= at < refs.len(),
    ensures
        stands_in(tool_row(refs[at], catalog), tools_table(refs, catalog, section_id)),
{
    let names = distinct_sorted(tool_names(refs));
    let row = tool_row(refs[at], catalog);
    crate::names::lemma_distinct_sorted(tool_names(refs));
    assert(tool_names(refs)[at] == refs[at].name);
    assert(names.contains(refs[at].name));
    let j = choose|j: int| 0 <= j < names.len() && names[j] == refs[at].name;
    lemma_tool_rows_named_hold(refs, catalog, at);
    lemma_tool_rows_hold(names, refs, catalog, row, j);
    lemma_stands_in_framed(
        row,
        tool_rows(names, refs, catalog),
        table_head(TOOLS_SLUG@, TOOLS_LABEL@, TOOL_COLUMNS@, section_id),
        TABLE_FOOT@,
    );
}

/// The row of a tool whose name the inventory does not hold shows its
/// setting, and the sentence that it was not found in place of a brand.
pub proof fn lemma_unknown_tool_row(r: ToolRef, catalog: Map<Seq<char>, InventoryEntry>)
    requires
        !catalog.contains_key(r.name),
    ensures
        tool_row(r, catalog) == ROW_OPEN@ + r.name + CELL_BREAK@ + setting_text(r) + CELL_BREAK@
            + TOOL_NOT_FOUND@ + ROW_CLOSE@,
{
}

} // verus!
