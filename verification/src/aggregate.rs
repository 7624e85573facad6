//! The aggregator: the bill of materials of all categories, and what a
//! chapter adds to it.
//!
//! A chapter adds what its sections use; what they produce is no part of the
//! bill. The order in which chapters are added does not matter.

use crate::bom::{
    accumulate_parts, accumulated_parts, accumulation_fits, accumulation_within_limits,
    lemma_accumulate_parts_commutes, lemma_accumulated_part_names, part_item_names, BomPart,
    PartLedger,
};
use crate::bom_consumables::{
    accumulate_consumables, accumulated_consumables, consumable_item_names,
    lemma_accumulate_consumables_commutes, lemma_accumulated_consumable_names, BomConsumable,
    ConsumableLedger,
};
use crate::bom_tools::{
    accumulate_tools, accumulated_tools, lemma_accumulate_tools_commutes,
    lemma_accumulated_tool_names, tool_entries_wf, BomTool, ToolLedger,
};
use crate::inventory::{Inventory, InventoryModel};
use crate::merge::{parts_fit, quantities_fit};
use crate::overview::{
    gather_consumables, gather_parts, gather_tools, gathered_consumables, gathered_parts,
    gathered_tools, overview_fits,
};
use crate::render::PartCategory;
use crate::schema::{views, Section, SectionEntry};
use vstd::prelude::*;

verus! {

/// The bill of materials: a ledger for each category.
pub struct Bom {
    pub fasteners: PartLedger,
    pub electronics: PartLedger,
    pub custom_parts: PartLedger,
    pub subassemblies: PartLedger,
    pub assemblies: PartLedger,
    pub tools: ToolLedger,
    pub consumables: ConsumableLedger,
}

/// The view of a [`Bom`].
pub struct BomModel {
    pub fasteners: Seq<BomPart>,
    pub electronics: Seq<BomPart>,
    pub custom_parts: Seq<BomPart>,
    pub subassemblies: Seq<BomPart>,
    pub assemblies: Seq<BomPart>,
    pub tools: Seq<BomTool>,
    pub consumables: Seq<BomConsumable>,
}

impl View for Bom {
    type V = BomModel;

    open spec fn view(&self) -> BomModel {
        BomModel {
            fasteners: self.fasteners@,
            electronics: self.electronics@,
            custom_parts: self.custom_parts@,
            subassemblies: self.subassemblies@,
            assemblies: self.assemblies@,
            tools: self.tools@,
            consumables: self.consumables@,
        }
    }
}

/// A bill of materials without entries.
pub open spec fn empty_bom() -> BomModel {
    BomModel {
        fasteners: Seq::empty(),
        electronics: Seq::empty(),
        custom_parts: Seq::empty(),
        subassemblies: Seq::empty(),
        assemblies: Seq::empty(),
        tools: Seq::empty(),
        consumables: Seq::empty(),
    }
}

/// Whether each ledger of the bill is in order.
pub open spec fn bom_wf(bom: BomModel) -> bool {
    &&& crate::names::strictly_sorted(part_item_names(bom.fasteners))
    &&& crate::names::strictly_sorted(part_item_names(bom.electronics))
    &&& crate::names::strictly_sorted(part_item_names(bom.custom_parts))
    &&& crate::names::strictly_sorted(part_item_names(bom.subassemblies))
    &&& crate::names::strictly_sorted(part_item_names(bom.assemblies))
    &&& tool_entries_wf(bom.tools)
    &&& crate::names::strictly_sorted(consumable_item_names(bom.consumables))
}

/// The bill when a chapter with the sections `sections` has been added.
pub open spec fn bom_with_chapter(
    bom: BomModel,
    sections: Seq<SectionEntry>,
    inventory: InventoryModel,
) -> BomModel {
    BomModel {
        fasteners: accumulated_parts(
            bom.fasteners,
            gathered_parts(sections, PartCategory::Hardware),
            inventory.fasteners,
        ),
        electronics: accumulated_parts(
            bom.electronics,
            gathered_parts(sections, PartCategory::Electronics),
            inventory.electronics,
        ),
        custom_parts: accumulated_parts(
            bom.custom_parts,
            gathered_parts(sections, PartCategory::CustomParts),
            inventory.custom_parts,
        ),
        subassemblies: accumulated_parts(
            bom.subassemblies,
            gathered_parts(sections, PartCategory::Subassemblies),
            inventory.subassemblies,
        ),
        assemblies: accumulated_parts(
            bom.assemblies,
            gathered_parts(sections, PartCategory::Assemblies),
            inventory.assemblies,
        ),
        tools: accumulated_tools(bom.tools, gathered_tools(sections), inventory.tools),
        consumables: accumulated_consumables(
            bom.consumables,
            gathered_consumables(sections),
            inventory.consumables,
        ),
    }
}

/// Whether every total of the bill stays a number that an entry can hold
/// when the chapter is added.
pub open spec fn chapter_fits(
    bom: BomModel,
    sections: Seq<SectionEntry>,
    inventory: InventoryModel,
) -> bool {
    &&& accumulation_fits(
        bom.fasteners,
        gathered_parts(sections, PartCategory::Hardware),
        inventory.fasteners,
    )
    &&& accumulation_fits(
        bom.electronics,
        gathered_parts(sections, PartCategory::Electronics),
        inventory.electronics,
    )
    &&& accumulation_fits(
        bom.custom_parts,
        gathered_parts(sections, PartCategory::CustomParts),
        inventory.custom_parts,
    )
    &&& accumulation_fits(
        bom.subassemblies,
        gathered_parts(sections, PartCategory::Subassemblies),
        inventory.subassemblies,
    )
    &&& accumulation_fits(
        bom.assemblies,
        gathered_parts(sections, PartCategory::Assemblies),
        inventory.assemblies,
    )
}

impl Bom {
    /// Whether each ledger of the bill is in order.
    pub open spec fn wf(&self) -> bool {
        bom_wf(self@)
    }

    /// A bill of materials without entries.
    pub fn new() -> (r: Bom)
        ensures
            r.wf(),
            r@ == empty_bom(),
    {
        Bom {
            fasteners: PartLedger::new(),
            electronics: PartLedger::new(),
            custom_parts: PartLedger::new(),
            subassemblies: PartLedger::new(),
            assemblies: PartLedger::new(),
            tools: ToolLedger::new(),
            consumables: ConsumableLedger::new(),
        }
    }
}

/// Adds what the sections of a chapter use to the bill of materials.
pub fn accumulate_chapter(sections: &Vec<Section>, inventory: &Inventory, bom: &mut Bom)
    requires
        old(bom).wf(),
        chapter_fits(old(bom)@, views(sections@), inventory@),
    ensures
        final(bom).wf(),
        final(bom)@ == bom_with_chapter(old(bom)@, views(sections@), inventory@),
{
    let hardware = gather_parts(sections, PartCategory::Hardware);
    accumulate_parts(&hardware, &inventory.fasteners, &mut bom.fasteners);
    let electronics = gather_parts(sections, PartCategory::Electronics);
    accumulate_parts(&electronics, &inventory.electronics, &mut bom.electronics);
    let custom_parts = gather_parts(sections, PartCategory::CustomParts);
    accumulate_parts(&custom_parts, &inventory.custom_parts, &mut bom.custom_parts);
    let subassemblies = gather_parts(sections, PartCategory::Subassemblies);
    accumulate_parts(&subassemblies, &inventory.subassemblies, &mut bom.subassemblies);
    let assemblies = gather_parts(sections, PartCategory::Assemblies);
    accumulate_parts(&assemblies, &inventory.assemblies, &mut bom.assemblies);
    let tools = gather_tools(sections);
    accumulate_tools(&tools, inventory, &mut bom.tools);
    let consumables = gather_consumables(sections);
    accumulate_consumables(&consumables, inventory, &mut bom.consumables);
}

/// Whether the quantities of each name, taken over all sections, add up to
/// numbers that a merged reference can hold.
pub fn overview_within_limits(sections: &Vec<Section>) -> (r: bool)
    ensures
        r == overview_fits(views(sections@)),
{
    let ghost all = views(sections@);
    let r = parts_fit(&gather_parts(sections, PartCategory::Hardware)) && parts_fit(
        &gather_parts(sections, PartCategory::Electronics),
    ) && parts_fit(&gather_parts(sections, PartCategory::CustomParts)) && parts_fit(
        &gather_parts(sections, PartCategory::Subassemblies),
    ) && parts_fit(&gather_parts(sections, PartCategory::Assemblies)) && parts_fit(
        &gather_parts(sections, PartCategory::ProducedSubassemblies),
    ) && parts_fit(&gather_parts(sections, PartCategory::ProducedAssemblies));
    proof {
        if r {
            assert forall|category: PartCategory| #[trigger]
                quantities_fit(gathered_parts(all, category)) by {
                match category {
                    PartCategory::Hardware => {},
                    PartCategory::Electronics => {},
                    PartCategory::CustomParts => {},
                    PartCategory::Subassemblies => {},
                    PartCategory::Assemblies => {},
                    PartCategory::ProducedSubassemblies => {},
                    PartCategory::ProducedAssemblies => {},
                }
            }
        }
    }
    r
}

/// Whether every total of the bill stays a number that an entry can hold
/// when the chapter is added.
pub fn chapter_within_limits(sections: &Vec<Section>, inventory: &Inventory, bom: &Bom) -> (r: bool)
    ensures
        r == chapter_fits(bom@, views(sections@), inventory@),
{
    accumulation_within_limits(
        &gather_parts(sections, PartCategory::Hardware),
        &inventory.fasteners,
        &bom.fasteners,
    ) && accumulation_within_limits(
        &gather_parts(sections, PartCategory::Electronics),
        &inventory.electronics,
        &bom.electronics,
    ) && accumulation_within_limits(
        &gather_parts(sections, PartCategory::CustomParts),
        &inventory.custom_parts,
        &bom.custom_parts,
    ) && accumulation_within_limits(
        &gather_parts(sections, PartCategory::Subassemblies),
        &inventory.subassemblies,
        &bom.subassemblies,
    ) && accumulation_within_limits(
        &gather_parts(sections, PartCategory::Assemblies),
        &inventory.assemblies,
        &bom.assemblies,
    )
}

/// Adding a chapter keeps the bill in order.
pub proof fn lemma_bom_with_chapter_wf(
    bom: BomModel,
    sections: Seq<SectionEntry>,
    inventory: InventoryModel,
)
    requires
        bom_wf(bom),
    ensures
        bom_wf(bom_with_chapter(bom, sections, inventory)),
{
    lemma_accumulated_part_names(
        bom.fasteners,
        gathered_parts(sections, PartCategory::Hardware),
        inventory.fasteners,
    );
    lemma_accumulated_part_names(
        bom.electronics,
        gathered_parts(sections, PartCategory::Electronics),
        inventory.electronics,
    );
    lemma_accumulated_part_names(
        bom.custom_parts,
        gathered_parts(sections, PartCategory::CustomParts),
        inventory.custom_parts,
    );
    lemma_accumulated_part_names(
        bom.subassemblies,
        gathered_parts(sections, PartCategory::Subassemblies),
        inventory.subassemblies,
    );
    lemma_accumulated_part_names(
        bom.assemblies,
        gathered_parts(sections, PartCategory::Assemblies),
        inventory.assemblies,
    );
    lemma_accumulated_tool_names(bom.tools, gathered_tools(sections), inventory.tools);
    lemma_accumulated_consumable_names(
        bom.consumables,
        gathered_consumables(sections),
        inventory.consumables,
    );
}

/// Two chapters may be added to the bill of materials in either order: the
/// bill is the same, entry for entry and total for total.
pub proof fn lemma_chapter_order(
    bom: BomModel,
    first: Seq<SectionEntry>,
    second: Seq<SectionEntry>,
    inventory: InventoryModel,
)
    requires
        bom_wf(bom),
    ensures
        bom_with_chapter(bom_with_chapter(bom, first, inventory), second, inventory)
            == bom_with_chapter(bom_with_chapter(bom, second, inventory), first, inventory),
{
    lemma_accumulate_parts_commutes(
        bom.fasteners,
        gathered_parts(first, PartCategory::Hardware),
        gathered_parts(second, PartCategory::Hardware),
        inventory.fasteners,
    );
    lemma_accumulate_parts_commutes(
        bom.electronics,
        gathered_parts(first, PartCategory::Electronics),
        gathered_parts(second, PartCategory::Electronics),
        inventory.electronics,
    );
    lemma_accumulate_parts_commutes(
        bom.custom_parts,
        gathered_parts(first, PartCategory::CustomParts),
        gathered_parts(second, PartCategory::CustomParts),
        inventory.custom_parts,
    );
    lemma_accumulate_parts_commutes(
        bom.subassemblies,
        gathered_parts(first, PartCategory::Subassemblies),
        gathered_parts(second, PartCategory::Subassemblies),
        inventory.subassemblies,
    );
    lemma_accumulate_parts_commutes(
        bom.assemblies,
        gathered_parts(first, PartCategory::Assemblies),
        gathered_parts(second, PartCategory::Assemblies),
        inventory.assemblies,
    );
    lemma_accumulate_tools_commutes(
        bom.tools,
        gathered_tools(first),
        gathered_tools(second),
        inventory.tools,
    );
    lemma_accumulate_consumables_commutes(
        bom.consumables,
        gathered_consumables(first),
        gathered_consumables(second),
        inventory.consumables,
    );
}

} // verus!
