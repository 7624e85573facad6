//! The tools of the bill of materials.
//!
//! The entry of a tool holds its brand and the settings at which the tool is
//! used: each setting once, in ascending order.

use crate::inventory::{Catalog, Inventory, InventoryEntry, NOT_GIVEN};
use crate::merge::tool_names;
use crate::names::{
    index_of_key, insert_all, insert_name, lemma_index_of_key, lemma_index_of_key_prefix,
    lemma_insert_all, lemma_insert_all_commutes, strictly_sorted,
};
use crate::schema::{views, ToolRef, ToolReference};
use crate::text::{str_eq, string_views};
use vstd::prelude::*;

verus! {

/// The entry of a tool.
#[derive(Debug, Clone)]
pub struct BomToolItem {
    pub name: String,
    pub brand: String,
    pub settings: Vec<String>,
}

/// The view of a [`BomToolItem`].
pub struct BomTool {
    pub name: Seq<char>,
    pub brand: Seq<char>,
    pub settings: Seq<Seq<char>>,
}

impl View for BomToolItem {
    type V = BomTool;

    open spec fn view(&self) -> BomTool {
        BomTool { name: self.name@, brand: self.brand@, settings: string_views(self.settings@) }
    }
}

/// The names of the entries, in their order.
pub open spec fn tool_item_names(items: Seq<BomTool>) -> Seq<Seq<char>> {
    items.map_values(|item: BomTool| item.name)
}

/// Whether a reference counts for the bill of materials.
pub open spec fn tool_counts(r: ToolRef, catalog: Map<Seq<char>, InventoryEntry>) -> bool {
    !r.exclude_from_bom && catalog.contains_key(r.name)
}

/// The references that count, in their order.
pub open spec fn counted_tools(refs: Seq<ToolRef>, catalog: Map<Seq<char>, InventoryEntry>) -> Seq<
    ToolRef,
>
    decreases refs.len(),
{
    if refs.len() == 0 {
        Seq::empty()
    } else if tool_counts(refs.last(), catalog) {
        counted_tools(refs.drop_last(), catalog).push(refs.last())
    } else {
        counted_tools(refs.drop_last(), catalog)
    }
}

/// The settings that the counting references to `name` give, in their
/// order.
pub open spec fn counted_settings(
    refs: Seq<ToolRef>,
    catalog: Map<Seq<char>, InventoryEntry>,
    name: Seq<char>,
) -> Seq<Seq<char>>
    decreases refs.len(),
{
    if refs.len() == 0 {
        Seq::empty()
    } else if tool_counts(refs.last(), catalog) && refs.last().name == name && refs.last().setting is Some {
        counted_settings(refs.drop_last(), catalog, name).push(refs.last().setting->0)
    } else {
        counted_settings(refs.drop_last(), catalog, name)
    }
}

/// The brand of `name` in the catalog, or a dash.
pub open spec fn brand_of(name: Seq<char>, catalog: Map<Seq<char>, InventoryEntry>) -> Seq<char> {
    if catalog.contains_key(name) {
        catalog[name].brand_text()
    } else {
        NOT_GIVEN@
    }
}

/// The settings of `name` in the entries; none if it has no entry.
pub open spec fn tool_settings_of(items: Seq<BomTool>, name: Seq<char>) -> Seq<Seq<char>> {
    match index_of_key(tool_item_names(items), name) {
        Some(i) => items[i].settings,
        None => Seq::empty(),
    }
}

/// The entry of `name` when the references `refs` have been added to
/// `items`: the settings of the counting references to `name` are put among
/// its settings. A new entry takes its brand from the catalog.
pub open spec fn accumulated_tool(
    items: Seq<BomTool>,
    refs: Seq<ToolRef>,
    catalog: Map<Seq<char>, InventoryEntry>,
    name: Seq<char>,
) -> BomTool {
    BomTool {
        name,
        brand: match index_of_key(tool_item_names(items), name) {
            Some(i) => items[i].brand,
            None => brand_of(name, catalog),
        },
        settings: insert_all(tool_settings_of(items, name), counted_settings(refs, catalog, name)),
    }
}

/// The entries when the references `refs` have been added to `items`: an
/// entry for each name that had one and for each name of a counting
/// reference, by name.
pub open spec fn accumulated_tools(
    items: Seq<BomTool>,
    refs: Seq<ToolRef>,
    catalog: Map<Seq<char>, InventoryEntry>,
) -> Seq<BomTool> {
    insert_all(tool_item_names(items), tool_names(counted_tools(refs, catalog))).map_values(
        |name: Seq<char>| accumulated_tool(items, refs, catalog, name),
    )
}

/// Whether the entries stand by name in ascending order, each name once, and
/// the settings of each entry in ascending order, each once.
pub open spec fn tool_entries_wf(items: Seq<BomTool>) -> bool {
    &&& strictly_sorted(tool_item_names(items))
    &&& forall|i: int| 0 <= i < items.len() ==> strictly_sorted((#[trigger] items[i]).settings)
}

/// The entries of the tools.
pub struct ToolLedger {
    items: Vec<BomToolItem>,
}

impl View for ToolLedger {
    type V = Seq<BomTool>;

    closed spec fn view(&self) -> Seq<BomTool> {
        views(self.items@)
    }
}

fn copy_strings(v: &Vec<String>) -> (out: Vec<String>)
    ensures
        string_views(out@) == string_views(v@),
{
    let mut out: Vec<String> = Vec::new();
    let mut i: usize = 0;
    while i < v.len()
        invariant
            i <= v.len(),
            out@.len() == i,
            forall|j: int| 0 <= j < i ==> (#[trigger] out@[j])@ == v@[j]@,
        decreases v.len() - i,
    {
        out.push(v[i].clone());
        i += 1;
    }
    assert(string_views(out@) =~= string_views(v@));
    out
}

impl ToolLedger {
    /// Whether the ledger is in order.
    pub open spec fn wf(&self) -> bool {
        tool_entries_wf(self@)
    }

    /// A ledger without entries.
    pub fn new() -> (r: ToolLedger)
        ensures
            r.wf(),
            r@ == Seq::<BomTool>::empty(),
    {
        let r = ToolLedger { items: Vec::new() };
        assert(r@ =~= Seq::<BomTool>::empty());
        r
    }

    /// The entries, by name.
    pub fn items(&self) -> (r: &Vec<BomToolItem>)
        ensures
            views(r@) == self@,
    {
        &self.items
    }

    /// The number of entries.
    pub fn len(&self) -> (r: usize)
        ensures
            r == self@.len(),
    {
        self.items.len()
    }

    /// The position of the entry of `name`, if it has one.
    pub fn position(&self, name: &str) -> (r: Option<usize>)
        ensures
            match r {
                Some(i) => index_of_key(tool_item_names(self@), name@) == Some(i as int) && i
                    < self@.len(),
                None => index_of_key(tool_item_names(self@), name@) is None,
            },
    {
        let ghost keys = tool_item_names(self@);
        let mut i: usize = 0;
        while i < self.items.len()
            invariant
                i <= self.items.len(),
                keys == tool_item_names(self@),
                index_of_key(keys.take(i as int), name@) is None,
            decreases self.items.len() - i,
        {
            proof {
                assert(keys.take(i + 1).drop_last() =~= keys.take(i as int));
                assert(keys.take(i + 1).last() == self.items@[i as int].name@);
            }
            if str_eq(self.items[i].name.as_str(), name) {
                proof {
                    lemma_index_of_key_prefix(keys, name@, i + 1);
                }
                return Some(i);
            }
            i += 1;
        }
        proof {
            assert(keys.take(self.items.len() as int) =~= keys);
        }
        None
    }

    /// The entry of `name`, if it has one.
    pub fn get(&self, name: &str) -> (r: Option<&BomToolItem>)
        ensures
            match r {
                Some(item) => index_of_key(tool_item_names(self@), name@) is Some && item@
                    == self@[index_of_key(tool_item_names(self@), name@)->0],
                None => index_of_key(tool_item_names(self@), name@) is None,
            },
    {
        match self.position(name) {
            Some(i) => Some(&self.items[i]),
            None => None,
        }
    }

    /// The names of the entries.
    fn names(&self) -> (names: Vec<String>)
        ensures
            string_views(names@) == tool_item_names(self@),
    {
        let mut names: Vec<String> = Vec::new();
        let mut i: usize = 0;
        while i < self.items.len()
            invariant
                i <= self.items.len(),
                names@.len() == i,
                forall|j: int| 0 <= j < i ==> (#[trigger] names@[j])@ == self.items@[j].name@,
            decreases self.items.len() - i,
        {
            names.push(self.items[i].name.clone());
            i += 1;
        }
        assert(string_views(names@) =~= tool_item_names(self@));
        names
    }
}

/// `names` with the names of the references that count put in their places.
fn insert_counted_names(names: &mut Vec<String>, tools: &Vec<ToolReference>, catalog: &Catalog)
    requires
        strictly_sorted(string_views(old(names)@)),
    ensures
        string_views(final(names)@) == insert_all(
            string_views(old(names)@),
            tool_names(counted_tools(views(tools@), catalog@)),
        ),
        strictly_sorted(string_views(final(names)@)),
{
    let ghost base = string_views(names@);
    let ghost refs = views(tools@);
    let mut i: usize = 0;
    assert(tool_names(counted_tools(refs.take(0), catalog@)) =~= Seq::empty());
    while i < tools.len()
        invariant
            i <= tools.len(),
            refs == views(tools@),
            string_views(names@) == insert_all(
                base,
                tool_names(counted_tools(refs.take(i as int), catalog@)),
            ),
            strictly_sorted(string_views(names@)),
        decreases tools.len() - i,
    {
        proof {
            assert(refs.take(i + 1).drop_last() =~= refs.take(i as int));
            assert(refs.take(i + 1).last() == tools@[i as int]@);
            let before = counted_tools(refs.take(i as int), catalog@);
            if tool_counts(tools@[i as int]@, catalog@) {
                let after = before.push(tools@[i as int]@);
                assert(tool_names(after).drop_last() =~= tool_names(before));
                assert(tool_names(after).last() == tools@[i as int].name@);
            }
        }
        if !tools[i].exclude_from_bom && catalog.contains(tools[i].name.as_str()) {
            insert_name(names, tools[i].name.as_str());
        }
        i += 1;
    }
    proof {
        assert(refs.take(tools.len() as int) =~= refs);
    }
}

/// `settings` with the settings of the counting references to `name` put in
/// their places.
fn insert_counted_settings(
    settings: &mut Vec<String>,
    tools: &Vec<ToolReference>,
    catalog: &Catalog,
    name: &str,
)
    requires
        strictly_sorted(string_views(old(settings)@)),
    ensures
        string_views(final(settings)@) == insert_all(
            string_views(old(settings)@),
            counted_settings(views(tools@), catalog@, name@),
        ),
        strictly_sorted(string_views(final(settings)@)),
{
    let ghost base = string_views(settings@);
    let ghost refs = views(tools@);
    let mut i: usize = 0;
    while i < tools.len()
        invariant
            i <= tools.len(),
            refs == views(tools@),
            string_views(settings@) == insert_all(
                base,
                counted_settings(refs.take(i as int), catalog@, name@),
            ),
            strictly_sorted(string_views(settings@)),
        decreases tools.len() - i,
    {
        proof {
            assert(refs.take(i + 1).drop_last() =~= refs.take(i as int));
            assert(refs.take(i + 1).last() == tools@[i as int]@);
            let before = counted_settings(refs.take(i as int), catalog@, name@);
            let r = tools@[i as int]@;
            if tool_counts(r, catalog@) && r.name == name@ && r.setting is Some {
                assert(before.push(r.setting->0).drop_last() =~= before);
            }
        }
        if !tools[i].exclude_from_bom && catalog.contains(tools[i].name.as_str()) && str_eq(
            tools[i].name.as_str(),
            name,
        ) {
            match &tools[i].setting {
                Some(setting) => {
                    insert_name(settings, setting.as_str());
                },
                None => {},
            }
        }
        i += 1;
    }
    proof {
        assert(refs.take(tools.len() as int) =~= refs);
    }
}

/// Adds the tools that a section uses to their ledger: a name of a reference
/// that counts gets an entry unless it has one, and the setting of the
/// reference is put among the settings of the entry unless it stands there.
pub fn accumulate_tools(tools: &Vec<ToolReference>, inventory: &Inventory, all_tools: &mut ToolLedger)
    requires
        old(all_tools).wf(),
    ensures
        final(all_tools).wf(),
        final(all_tools)@ == accumulated_tools(old(all_tools)@, views(tools@), inventory@.tools),
{
    let ghost items = all_tools@;
    let ghost refs = views(tools@);
    let catalog = &inventory.tools;
    let mut names = all_tools.names();
    insert_counted_names(&mut names, tools, catalog);
    let ghost keys = string_views(names@);
    let mut out: Vec<BomToolItem> = Vec::new();
    let mut k: usize = 0;
    while k < names.len()
        invariant
            k <= names.len(),
            items == all_tools@,
            tool_entries_wf(items),
            refs == views(tools@),
            keys == string_views(names@),
            out@.len() == k,
            forall|j: int|
                0 <= j < k ==> (#[trigger] out@[j])@ == accumulated_tool(
                    items,
                    refs,
                    catalog@,
                    keys[j],
                ),
            forall|j: int| 0 <= j < k ==> strictly_sorted(string_views((#[trigger] out@[j]).settings@)),
        decreases names.len() - k,
    {
        let name = names[k].as_str();
        assert(name@ == keys[k as int]);
        proof {
            lemma_index_of_key(tool_item_names(items), name@);
        }
        let item = match all_tools.get(name) {
            Some(entry) => {
                let mut settings = copy_strings(&entry.settings);
                insert_counted_settings(&mut settings, tools, catalog, name);
                BomToolItem { name: names[k].clone(), brand: entry.brand.clone(), settings }
            },
            None => {
                let mut settings: Vec<String> = Vec::new();
                assert(string_views(settings@) =~= Seq::<Seq<char>>::empty());
                insert_counted_settings(&mut settings, tools, catalog, name);
                let brand = match catalog.lookup(name) {
                    Some(record) => record.brand_text().to_owned(),
                    None => NOT_GIVEN.to_owned(),
                };
                BomToolItem { name: names[k].clone(), brand, settings }
            },
        };
        out.push(item);
        k += 1;
    }
    all_tools.items = out;
    proof {
        assert(all_tools@ =~= accumulated_tools(items, refs, catalog@));
        assert(tool_item_names(all_tools@) =~= keys);
    }
}

// ---------------------------------------------------------------------------
// Laws
// ---------------------------------------------------------------------------

/// Every reference that counts names an item of the catalog.
pub proof fn lemma_counted_tools(refs: Seq<ToolRef>, catalog: Map<Seq<char>, InventoryEntry>)
    ensures
        forall|i: int|
            0 <= i < counted_tools(refs, catalog).len() ==> tool_counts(
                #[trigger] counted_tools(refs, catalog)[i],
                catalog,
            ),
    decreases refs.len(),
{
    if refs.len() > 0 {
        lemma_counted_tools(refs.drop_last(), catalog);
        let counted = counted_tools(refs, catalog);
        let inner = counted_tools(refs.drop_last(), catalog);
        assert forall|i: int| 0 <= i < counted.len() implies tool_counts(
            #[trigger] counted[i],
            catalog,
        ) by {
            if i < inner.len() {
                assert(counted[i] == inner[i]);
            }
        }
    }
}

/// A name without a counting reference has no counted setting.
proof fn lemma_counted_settings_absent(
    refs: Seq<ToolRef>,
    catalog: Map<Seq<char>, InventoryEntry>,
    name: Seq<char>,
)
    requires
        !tool_names(counted_tools(refs, catalog)).contains(name),
    ensures
        counted_settings(refs, catalog, name) == Seq::<Seq<char>>::empty(),
    decreases refs.len(),
{
    if refs.len() > 0 {
        let front = refs.drop_last();
        let inner = counted_tools(front, catalog);
        let counted = counted_tools(refs, catalog);
        assert(!tool_names(inner).contains(name)) by {
            if tool_names(inner).contains(name) {
                let i = choose|i: int| 0 <= i < inner.len() && tool_names(inner)[i] == name;
                assert(counted[i] == inner[i]);
                assert(tool_names(counted)[i] == name);
            }
        }
        lemma_counted_settings_absent(front, catalog, name);
        if tool_counts(refs.last(), catalog) && refs.last().name == name {
            assert(tool_names(counted)[counted.len() - 1] == name);
        }
    }
}

/// The names of the entries after an accumulation; the ledger stays in
/// order.
pub proof fn lemma_accumulated_tool_names(
    items: Seq<BomTool>,
    refs: Seq<ToolRef>,
    catalog: Map<Seq<char>, InventoryEntry>,
)
    requires
        tool_entries_wf(items),
    ensures
        tool_item_names(accumulated_tools(items, refs, catalog)) == insert_all(
            tool_item_names(items),
            tool_names(counted_tools(refs, catalog)),
        ),
        tool_entries_wf(accumulated_tools(items, refs, catalog)),
{
    let counted = counted_tools(refs, catalog);
    let after = accumulated_tools(items, refs, catalog);
    lemma_insert_all(tool_item_names(items), tool_names(counted));
    assert(tool_item_names(after) =~= insert_all(tool_item_names(items), tool_names(counted)));
    assert forall|i: int| 0 <= i < after.len() implies strictly_sorted(
        (#[trigger] after[i]).settings,
    ) by {
        let name = tool_item_names(after)[i];
        lemma_index_of_key(tool_item_names(items), name);
        lemma_insert_all(tool_settings_of(items, name), counted_settings(refs, catalog, name));
    }
}

/// A reference to a name that the inventory does not hold makes no entry.
pub proof fn lemma_unknown_tool_makes_no_entry(
    items: Seq<BomTool>,
    refs: Seq<ToolRef>,
    catalog: Map<Seq<char>, InventoryEntry>,
    name: Seq<char>,
)
    requires
        tool_entries_wf(items),
        !catalog.contains_key(name),
        !tool_item_names(items).contains(name),
    ensures
        !tool_item_names(accumulated_tools(items, refs, catalog)).contains(name),
{
    let counted = counted_tools(refs, catalog);
    lemma_accumulated_tool_names(items, refs, catalog);
    lemma_insert_all(tool_item_names(items), tool_names(counted));
    lemma_counted_tools(refs, catalog);
    if tool_names(counted).contains(name) {
        let i = choose|i: int| 0 <= i < counted.len() && tool_names(counted)[i] == name;
        assert(tool_counts(counted[i], catalog));
    }
}

/// The entry of `name` after two accumulations.
proof fn lemma_tool_twice(
    items: Seq<BomTool>,
    a: Seq<ToolRef>,
    b: Seq<ToolRef>,
    catalog: Map<Seq<char>, InventoryEntry>,
    name: Seq<char>,
)
    requires
        tool_entries_wf(items),
    ensures
        accumulated_tool(accumulated_tools(items, a, catalog), b, catalog, name) == (BomTool {
            name,
            brand: match index_of_key(tool_item_names(items), name) {
                Some(i) => items[i].brand,
                None => brand_of(name, catalog),
            },
            settings: insert_all(
                insert_all(tool_settings_of(items, name), counted_settings(a, catalog, name)),
                counted_settings(b, catalog, name),
            ),
        }),
{
    let after = accumulated_tools(items, a, catalog);
    lemma_accumulated_tool_names(items, a, catalog);
    lemma_index_of_key(tool_item_names(after), name);
    lemma_index_of_key(tool_item_names(items), name);
    lemma_insert_all(tool_item_names(items), tool_names(counted_tools(a, catalog)));
    match index_of_key(tool_item_names(after), name) {
        Some(i) => {
            assert(tool_item_names(after)[i] == name);
        },
        None => {
            assert(!tool_item_names(items).contains(name));
            assert(!tool_names(counted_tools(a, catalog)).contains(name));
            lemma_counted_settings_absent(a, catalog, name);
        },
    }
}

/// Two lists of references may be added to a ledger in either order: the
/// entries are the same, with the same settings.
pub proof fn lemma_accumulate_tools_commutes(
    items: Seq<BomTool>,
    a: Seq<ToolRef>,
    b: Seq<ToolRef>,
    catalog: Map<Seq<char>, InventoryEntry>,
)
    requires
        tool_entries_wf(items),
    ensures
        accumulated_tools(accumulated_tools(items, a, catalog), b, catalog) == accumulated_tools(
            accumulated_tools(items, b, catalog),
            a,
            catalog,
        ),
{
    let na = tool_names(counted_tools(a, catalog));
    let nb = tool_names(counted_tools(b, catalog));
    let base = tool_item_names(items);
    lemma_accumulated_tool_names(items, a, catalog);
    lemma_accumulated_tool_names(items, b, catalog);
    lemma_insert_all_commutes(base, na, nb);
    let left = accumulated_tools(accumulated_tools(items, a, catalog), b, catalog);
    let right = accumulated_tools(accumulated_tools(items, b, catalog), a, catalog);
    let names = insert_all(insert_all(base, na), nb);
    assert(left.len() == names.len());
    assert(right.len() == names.len());
    assert forall|k: int| 0 <= k < names.len() implies left[k] == right[k] by {
        let name = names[k];
        lemma_tool_twice(items, a, b, catalog, name);
        lemma_tool_twice(items, b, a, catalog, name);
        lemma_index_of_key(tool_item_names(items), name);
        lemma_insert_all_commutes(
            tool_settings_of(items, name),
            counted_settings(a, catalog, name),
            counted_settings(b, catalog, name),
        );
    }
    assert(left =~= right);
}

} // verus!
