//! The inventory catalog: for each category, the records of the items by
//! name.
//!
//! The catalog is filled once, from rows that the caller has read, and is
//! only looked up afterwards. The categories are apart: the same name may
//! stand in two of them.

use crate::schema::{optional_text, views};
use vstd::hash_map::StringHashMap;
use vstd::prelude::*;

verus! {

/// One row of an inventory table.
#[derive(Debug, Clone)]
pub struct InventoryRecord {
    pub name: String,
    pub description: Option<String>,
    /// Tools only.
    pub brand: Option<String>,
}

/// The view of an [`InventoryRecord`].
pub struct InventoryEntry {
    pub name: Seq<char>,
    pub description: Option<Seq<char>>,
    pub brand: Option<Seq<char>>,
}

impl View for InventoryRecord {
    type V = InventoryEntry;

    open spec fn view(&self) -> InventoryEntry {
        InventoryEntry {
            name: self.name@,
            description: optional_text(self.description),
            brand: optional_text(self.brand),
        }
    }
}

/// What stands for a description or a brand that a record does not give.
pub const NOT_GIVEN: &'static str = "-";

impl InventoryEntry {
    /// The description, or a dash.
    pub open spec fn description_text(self) -> Seq<char> {
        match self.description {
            Some(d) => d,
            None => NOT_GIVEN@,
        }
    }

    /// The brand, or a dash.
    pub open spec fn brand_text(self) -> Seq<char> {
        match self.brand {
            Some(b) => b,
            None => NOT_GIVEN@,
        }
    }
}

impl InventoryRecord {
    /// The description, or a dash.
    pub fn description_text(&self) -> (r: &str)
        ensures
            r@ == self@.description_text(),
    {
        match &self.description {
            Some(d) => d.as_str(),
            None => NOT_GIVEN,
        }
    }

    /// The brand, or a dash.
    pub fn brand_text(&self) -> (r: &str)
        ensures
            r@ == self@.brand_text(),
    {
        match &self.brand {
            Some(b) => b.as_str(),
            None => NOT_GIVEN,
        }
    }
}

/// The catalog that a table of rows gives: each record under its name, a
/// later row in place of an earlier one of the same name.
pub open spec fn catalog_of(rows: Seq<InventoryEntry>) -> Map<Seq<char>, InventoryEntry>
    decreases rows.len(),
{
    if rows.len() == 0 {
        Map::empty()
    } else {
        catalog_of(rows.drop_last()).insert(rows.last().name, rows.last())
    }
}

/// The records of one category, by name.
pub struct Catalog {
    records: StringHashMap<InventoryRecord>,
}

impl View for Catalog {
    type V = Map<Seq<char>, InventoryEntry>;

    closed spec fn view(&self) -> Map<Seq<char>, InventoryEntry> {
        self.records@.map_values(|r: InventoryRecord| r@)
    }
}

impl Catalog {
    /// A catalog without records.
    pub fn new() -> (r: Catalog)
        ensures
            r@ == Map::<Seq<char>, InventoryEntry>::empty(),
    {
        let r = Catalog { records: StringHashMap::new() };
        assert(r@ =~= Map::<Seq<char>, InventoryEntry>::empty());
        r
    }

    /// The catalog of a table of rows.
    pub fn from_rows(rows: Vec<InventoryRecord>) -> (r: Catalog)
        ensures
            r@ == catalog_of(views(rows@)),
    {
        let mut catalog = Catalog::new();
        let ghost all = views(rows@);
        for record in it: rows
            invariant
                views(it.seq()) == all,
                catalog@ == catalog_of(all.take(it.index())),
        {
            proof {
                assert(all.take(it.index() + 1).drop_last() =~= all.take(it.index()));
                assert(all.take(it.index() + 1).last() == record@);
            }
            catalog.insert(record);
        }
        proof {
            assert(all.take(all.len() as int) =~= all);
        }
        catalog
    }

    /// Puts `record` under its name, in place of what stood there.
    pub fn insert(&mut self, record: InventoryRecord)
        ensures
            final(self)@ == old(self)@.insert(record.name@, record@),
    {
        let ghost before = self.records@;
        let key = record.name.clone();
        self.records.insert(key, record);
        assert(self@ =~= old(self)@.insert(record.name@, record@));
    }

    /// The record under `name`, if there is one.
    pub fn lookup(&self, name: &str) -> (r: Option<&InventoryRecord>)
        ensures
            match r {
                Some(record) => self@.contains_key(name@) && record@ == self@[name@],
                None => !self@.contains_key(name@),
            },
    {
        self.records.get(name)
    }

    /// Whether there is a record under `name`.
    pub fn contains(&self, name: &str) -> (r: bool)
        ensures
            r == self@.contains_key(name@),
    {
        self.records.contains_key(name)
    }
}

/// The tables from which an inventory is loaded.
pub enum InventorySource {
    /// A workbook with one table for each category.
    Workbook {
        hardware: Vec<InventoryRecord>,
        electronics: Vec<InventoryRecord>,
        custom_parts: Vec<InventoryRecord>,
        consumables: Vec<InventoryRecord>,
        tools: Vec<InventoryRecord>,
        subassemblies: Vec<InventoryRecord>,
        assemblies: Vec<InventoryRecord>,
    },
    /// The three tables of the older layout: parts, which are fasteners,
    /// consumables and tools.
    Tables { parts: Vec<InventoryRecord>, consumables: Vec<InventoryRecord>, tools: Vec<InventoryRecord> },
}

/// The catalogs of all categories.
pub struct Inventory {
    pub fasteners: Catalog,
    pub electronics: Catalog,
    pub custom_parts: Catalog,
    pub consumables: Catalog,
    pub tools: Catalog,
    pub subassemblies: Catalog,
    pub assemblies: Catalog,
}

/// The view of an [`Inventory`].
pub struct InventoryModel {
    pub fasteners: Map<Seq<char>, InventoryEntry>,
    pub electronics: Map<Seq<char>, InventoryEntry>,
    pub custom_parts: Map<Seq<char>, InventoryEntry>,
    pub consumables: Map<Seq<char>, InventoryEntry>,
    pub tools: Map<Seq<char>, InventoryEntry>,
    pub subassemblies: Map<Seq<char>, InventoryEntry>,
    pub assemblies: Map<Seq<char>, InventoryEntry>,
}

impl View for Inventory {
    type V = InventoryModel;

    open spec fn view(&self) -> InventoryModel {
        InventoryModel {
            fasteners: self.fasteners@,
            electronics: self.electronics@,
            custom_parts: self.custom_parts@,
            consumables: self.consumables@,
            tools: self.tools@,
            subassemblies: self.subassemblies@,
            assemblies: self.assemblies@,
        }
    }
}

/// The inventory that the three tables of the older layout give: the other
/// categories are empty.
pub open spec fn inventory_of_tables(
    parts: Seq<InventoryEntry>,
    consumables: Seq<InventoryEntry>,
    tools: Seq<InventoryEntry>,
) -> InventoryModel {
    InventoryModel {
        fasteners: catalog_of(parts),
        electronics: Map::empty(),
        custom_parts: Map::empty(),
        consumables: catalog_of(consumables),
        tools: catalog_of(tools),
        subassemblies: Map::empty(),
        assemblies: Map::empty(),
    }
}

/// The inventory that a source gives.
pub open spec fn inventory_of(source: InventorySource) -> InventoryModel {
    match source {
        InventorySource::Workbook {
            hardware,
            electronics,
            custom_parts,
            consumables,
            tools,
            subassemblies,
            assemblies,
        } => InventoryModel {
            fasteners: catalog_of(views(hardware@)),
            electronics: catalog_of(views(electronics@)),
            custom_parts: catalog_of(views(custom_parts@)),
            consumables: catalog_of(views(consumables@)),
            tools: catalog_of(views(tools@)),
            subassemblies: catalog_of(views(subassemblies@)),
            assemblies: catalog_of(views(assemblies@)),
        },
        InventorySource::Tables { parts, consumables, tools } => inventory_of_tables(
            views(parts@),
            views(consumables@),
            views(tools@),
        ),
    }
}

impl Inventory {
    /// Loads the inventory from the tables of `source`.
    pub fn load(source: InventorySource) -> (r: Inventory)
        ensures
            r@ == inventory_of(source),
    {
        match source {
            InventorySource::Workbook {
                hardware,
                electronics,
                custom_parts,
                consumables,
                tools,
                subassemblies,
                assemblies,
            } => Inventory {
                fasteners: Catalog::from_rows(hardware),
                electronics: Catalog::from_rows(electronics),
                custom_parts: Catalog::from_rows(custom_parts),
                consumables: Catalog::from_rows(consumables),
                tools: Catalog::from_rows(tools),
                subassemblies: Catalog::from_rows(subassemblies),
                assemblies: Catalog::from_rows(assemblies),
            },
            InventorySource::Tables { parts, consumables, tools } => Inventory::load_from_csv(
                parts,
                consumables,
                tools,
            ),
        }
    }

    /// Loads the inventory from the three tables of the older layout. The
    /// parts are the fasteners; no other category has records.
    pub fn load_from_csv(
        parts: Vec<InventoryRecord>,
        consumables: Vec<InventoryRecord>,
        tools: Vec<InventoryRecord>,
    ) -> (r: Inventory)
        ensures
            r@ == inventory_of_tables(views(parts@), views(consumables@), views(tools@)),
    {
        Inventory {
            fasteners: Catalog::from_rows(parts),
            electronics: Catalog::new(),
            custom_parts: Catalog::new(),
            consumables: Catalog::from_rows(consumables),
            tools: Catalog::from_rows(tools),
            subassemblies: Catalog::new(),
            assemblies: Catalog::new(),
        }
    }
}

} // verus!
