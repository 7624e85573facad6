//! The consumables of the bill of materials.
//!
//! A consumable is used or it is not: its entry has no total. The first
//! reference that counts makes the entry, and later ones leave it as it is.

use crate::inventory::{Catalog, Inventory, InventoryEntry, NOT_GIVEN};
use crate::merge::consumable_names;
use crate::names::{
    index_of_key, insert_all, insert_name, lemma_index_of_key, lemma_index_of_key_prefix,
    lemma_insert_all, lemma_insert_all_commutes, strictly_sorted,
};
use crate::render::described;
use crate::schema::{views, ConsumableRef, ConsumableReference};
use crate::text::{str_eq, string_views};
use vstd::prelude::*;

verus! {

/// The entry of a consumable.
#[derive(Debug, Clone)]
pub struct BomConsumableItem {
    pub name: String,
    pub description: String,
}

/// The view of a [`BomConsumableItem`].
pub struct BomConsumable {
    pub name: Seq<char>,
    pub description: Seq<char>,
}

impl View for BomConsumableItem {
    type V = BomConsumable;

    open spec fn view(&self) -> BomConsumable {
        BomConsumable { name: self.name@, description: self.description@ }
    }
}

/// The names of the entries, in their order.
pub open spec fn consumable_item_names(items: Seq<BomConsumable>) -> Seq<Seq<char>> {
    items.map_values(|item: BomConsumable| item.name)
}

/// Whether a reference counts for the bill of materials.
pub open spec fn consumable_counts(r: ConsumableRef, catalog: Map<Seq<char>, InventoryEntry>) -> bool {
    !r.exclude_from_bom && catalog.contains_key(r.name)
}

/// The references that count, in their order.
pub open spec fn counted_consumables(
    refs: Seq<ConsumableRef>,
    catalog: Map<Seq<char>, InventoryEntry>,
) -> Seq<ConsumableRef>
    decreases refs.len(),
{
    if refs.len() == 0 {
        Seq::empty()
    } else if consumable_counts(refs.last(), catalog) {
        counted_consumables(refs.drop_last(), catalog).push(refs.last())
    } else {
        counted_consumables(refs.drop_last(), catalog)
    }
}

/// The entry of `name` after an accumulation: the entry that it had, or a
/// new one with the description from the catalog.
pub open spec fn accumulated_consumable(
    items: Seq<BomConsumable>,
    catalog: Map<Seq<char>, InventoryEntry>,
    name: Seq<char>,
) -> BomConsumable {
    BomConsumable {
        name,
        description: match index_of_key(consumable_item_names(items), name) {
            Some(i) => items[i].description,
            None => described(name, catalog, NOT_GIVEN@),
        },
    }
}

/// The entries when the references `refs` have been added to `items`: an
/// entry for each name that had one and for each name of a counting
/// reference, by name.
pub open spec fn accumulated_consumables(
    items: Seq<BomConsumable>,
    refs: Seq<ConsumableRef>,
    catalog: Map<Seq<char>, InventoryEntry>,
) -> Seq<BomConsumable> {
    insert_all(
        consumable_item_names(items),
        consumable_names(counted_consumables(refs, catalog)),
    ).map_values(|name: Seq<char>| accumulated_consumable(items, catalog, name))
}

/// The entries of the consumables.
pub struct ConsumableLedger {
    items: Vec<BomConsumableItem>,
}

impl View for ConsumableLedger {
    type V = Seq<BomConsumable>;

    closed spec fn view(&self) -> Seq<BomConsumable> {
        views(self.items@)
    }
}

impl ConsumableLedger {
    /// Whether the entries stand by name in ascending order, each name once.
    pub open spec fn wf(&self) -> bool {
        strictly_sorted(consumable_item_names(self@))
    }

    /// A ledger without entries.
    pub fn new() -> (r: ConsumableLedger)
        ensures
            r.wf(),
            r@ == Seq::<BomConsumable>::empty(),
    {
        let r = ConsumableLedger { items: Vec::new() };
        assert(r@ =~= Seq::<BomConsumable>::empty());
        r
    }

    /// The entries, by name.
    pub fn items(&self) -> (r: &Vec<BomConsumableItem>)
        ensures
            views(r@) == self@,
    {
        &self.items
    }

    /// The number of entries.
    pub fn len(&self) -> (r: usize)
        ensures
            r == self@.len(),
    {
        self.items.len()
    }

    /// The position of the entry of `name`, if it has one.
    pub fn position(&self, name: &str) -> (r: Option<usize>)
        ensures
            match r {
                Some(i) => index_of_key(consumable_item_names(self@), name@) == Some(i as int) && i
                    < self@.len(),
                None => index_of_key(consumable_item_names(self@), name@) is None,
            },
    {
        let ghost keys = consumable_item_names(self@);
        let mut i: usize = 0;
        while i < self.items.len()
            invariant
                i <= self.items.len(),
                keys == consumable_item_names(self@),
                index_of_key(keys.take(i as int), name@) is None,
            decreases self.items.len() - i,
        {
            proof {
                assert(keys.take(i + 1).drop_last() =~= keys.take(i as int));
                assert(keys.take(i + 1).last() == self.items@[i as int].name@);
            }
            if str_eq(self.items[i].name.as_str(), name) {
                proof {
                    lemma_index_of_key_prefix(keys, name@, i + 1);
                }
                return Some(i);
            }
            i += 1;
        }
        proof {
            assert(keys.take(self.items.len() as int) =~= keys);
        }
        None
    }

    /// The entry of `name`, if it has one.
    pub fn get(&self, name: &str) -> (r: Option<&BomConsumableItem>)
        ensures
            match r {
                Some(item) => index_of_key(consumable_item_names(self@), name@) is Some && item@
                    == self@[index_of_key(consumable_item_names(self@), name@)->0],
                None => index_of_key(consumable_item_names(self@), name@) is None,
            },
    {
        match self.position(name) {
            Some(i) => Some(&self.items[i]),
            None => None,
        }
    }

    /// The names of the entries.
    fn names(&self) -> (names: Vec<String>)
        ensures
            string_views(names@) == consumable_item_names(self@),
    {
        let mut names: Vec<String> = Vec::new();
        let mut i: usize = 0;
        while i < self.items.len()
            invariant
                i <= self.items.len(),
                names@.len() == i,
                forall|j: int| 0 <= j < i ==> (#[trigger] names@[j])@ == self.items@[j].name@,
            decreases self.items.len() - i,
        {
            names.push(self.items[i].name.clone());
            i += 1;
        }
        assert(string_views(names@) =~= consumable_item_names(self@));
        names
    }
}

/// `names` with the names of the references that count put in their places.
fn insert_counted_names(
    names: &mut Vec<String>,
    consumables: &Vec<ConsumableReference>,
    catalog: &Catalog,
)
    requires
        strictly_sorted(string_views(old(names)@)),
    ensures
        string_views(final(names)@) == insert_all(
            string_views(old(names)@),
            consumable_names(counted_consumables(views(consumables@), catalog@)),
        ),
        strictly_sorted(string_views(final(names)@)),
{
    let ghost base = string_views(names@);
    let ghost refs = views(consumables@);
    let mut i: usize = 0;
    assert(consumable_names(counted_consumables(refs.take(0), catalog@)) =~= Seq::empty());
    while i < consumables.len()
        invariant
            i <= consumables.len(),
            refs == views(consumables@),
            string_views(names@) == insert_all(
                base,
                consumable_names(counted_consumables(refs.take(i as int), catalog@)),
            ),
            strictly_sorted(string_views(names@)),
        decreases consumables.len() - i,
    {
        proof {
            assert(refs.take(i + 1).drop_last() =~= refs.take(i as int));
            assert(refs.take(i + 1).last() == consumables@[i as int]@);
            let before = counted_consumables(refs.take(i as int), catalog@);
            if consumable_counts(consumables@[i as int]@, catalog@) {
                let after = before.push(consumables@[i as int]@);
                assert(consumable_names(after).drop_last() =~= consumable_names(before));
                assert(consumable_names(after).last() == consumables@[i as int].name@);
            }
        }
        if !consumables[i].exclude_from_bom && catalog.contains(consumables[i].name.as_str()) {
            insert_name(names, consumables[i].name.as_str());
        }
        i += 1;
    }
    proof {
        assert(refs.take(consumables.len() as int) =~= refs);
    }
}

/// Adds the consumables that a section uses to their ledger: a name of a
/// reference that counts gets an entry unless it has one.
pub fn accumulate_consumables(
    consumables: &Vec<ConsumableReference>,
    inventory: &Inventory,
    all_consumables: &mut ConsumableLedger,
)
    requires
        old(all_consumables).wf(),
    ensures
        final(all_consumables).wf(),
        final(all_consumables)@ == accumulated_consumables(
            old(all_consumables)@,
            views(consumables@),
            inventory@.consumables,
        ),
{
    let ghost items = all_consumables@;
    let catalog = &inventory.consumables;
    let mut names = all_consumables.names();
    insert_counted_names(&mut names, consumables, catalog);
    let ghost keys = string_views(names@);
    let mut out: Vec<BomConsumableItem> = Vec::new();
    let mut k: usize = 0;
    while k < names.len()
        invariant
            k <= names.len(),
            items == all_consumables@,
            keys == string_views(names@),
            out@.len() == k,
            forall|j: int|
                0 <= j < k ==> (#[trigger] out@[j])@ == accumulated_consumable(
                    items,
                    catalog@,
                    keys[j],
                ),
        decreases names.len() - k,
    {
        let name = names[k].as_str();
        assert(name@ == keys[k as int]);
        let description = match all_consumables.get(name) {
            Some(entry) => entry.description.clone(),
            None => match catalog.lookup(name) {
                Some(record) => record.description_text().to_owned(),
                None => NOT_GIVEN.to_owned(),
            },
        };
        out.push(BomConsumableItem { name: names[k].clone(), description });
        k += 1;
    }
    all_consumables.items = out;
    proof {
        assert(all_consumables@ =~= accumulated_consumables(
            items,
            views(consumables@),
            catalog@,
        ));
        assert(consumable_item_names(all_consumables@) =~= keys);
    }
}

// ---------------------------------------------------------------------------
// Laws
// ---------------------------------------------------------------------------

/// Every reference that counts names an item of the catalog.
pub proof fn lemma_counted_consumables(
    refs: Seq<ConsumableRef>,
    catalog: Map<Seq<char>, InventoryEntry>,
)
    ensures
        forall|i: int|
            0 <= i < counted_consumables(refs, catalog).len() ==> consumable_counts(
                #[trigger] counted_consumables(refs, catalog)[i],
                catalog,
            ),
    decreases refs.len(),
{
    if refs.len() > 0 {
        lemma_counted_consumables(refs.drop_last(), catalog);
        let counted = counted_consumables(refs, catalog);
        let inner = counted_consumables(refs.drop_last(), catalog);
        assert forall|i: int| 0 <= i < counted.len() implies consumable_counts(
            #[trigger] counted[i],
            catalog,
        ) by {
            if i < inner.len() {
                assert(counted[i] == inner[i]);
            }
        }
    }
}

/// The names of the entries after an accumulation.
pub proof fn lemma_accumulated_consumable_names(
    items: Seq<BomConsumable>,
    refs: Seq<ConsumableRef>,
    catalog: Map<Seq<char>, InventoryEntry>,
)
    requires
        strictly_sorted(consumable_item_names(items)),
    ensures
        consumable_item_names(accumulated_consumables(items, refs, catalog)) == insert_all(
            consumable_item_names(items),
            consumable_names(counted_consumables(refs, catalog)),
        ),
        strictly_sorted(consumable_item_names(accumulated_consumables(items, refs, catalog))),
{
    let counted = counted_consumables(refs, catalog);
    lemma_insert_all(consumable_item_names(items), consumable_names(counted));
    assert(consumable_item_names(accumulated_consumables(items, refs, catalog)) =~= insert_all(
        consumable_item_names(items),
        consumable_names(counted),
    ));
}

/// A reference to a name that the inventory does not hold makes no entry.
pub proof fn lemma_unknown_consumable_makes_no_entry(
    items: Seq<BomConsumable>,
    refs: Seq<ConsumableRef>,
    catalog: Map<Seq<char>, InventoryEntry>,
    name: Seq<char>,
)
    requires
        strictly_sorted(consumable_item_names(items)),
        !catalog.contains_key(name),
        !consumable_item_names(items).contains(name),
    ensures
        !consumable_item_names(accumulated_consumables(items, refs, catalog)).contains(name),
{
    let counted = counted_consumables(refs, catalog);
    lemma_accumulated_consumable_names(items, refs, catalog);
    lemma_insert_all(consumable_item_names(items), consumable_names(counted));
    lemma_counted_consumables(refs, catalog);
    if consumable_names(counted).contains(name) {
        let i = choose|i: int| 0 <= i < counted.len() && consumable_names(counted)[i] == name;
        assert(consumable_counts(counted[i], catalog));
    }
}

/// A reference that is excluded from the bill of materials, or whose name
/// the inventory does not hold, adds nothing.
pub proof fn lemma_excluded_consumable_adds_nothing(
    items: Seq<BomConsumable>,
    refs: Seq<ConsumableRef>,
    r: ConsumableRef,
    catalog: Map<Seq<char>, InventoryEntry>,
)
    requires
        !consumable_counts(r, catalog),
    ensures
        accumulated_consumables(items, refs.push(r), catalog) == accumulated_consumables(
            items,
            refs,
            catalog,
        ),
{
    assert(refs.push(r).drop_last() =~= refs);
}

/// The entry of `name` after two accumulations is the entry that it had, or
/// a new one.
proof fn lemma_consumable_twice(
    items: Seq<BomConsumable>,
    a: Seq<ConsumableRef>,
    catalog: Map<Seq<char>, InventoryEntry>,
    name: Seq<char>,
)
    requires
        strictly_sorted(consumable_item_names(items)),
    ensures
        accumulated_consumable(accumulated_consumables(items, a, catalog), catalog, name)
            == accumulated_consumable(items, catalog, name),
{
    let after = accumulated_consumables(items, a, catalog);
    lemma_accumulated_consumable_names(items, a, catalog);
    lemma_index_of_key(consumable_item_names(after), name);
    lemma_index_of_key(consumable_item_names(items), name);
    lemma_insert_all(
        consumable_item_names(items),
        consumable_names(counted_consumables(a, catalog)),
    );
    match index_of_key(consumable_item_names(after), name) {
        Some(i) => {
            assert(consumable_item_names(after)[i] == name);
        },
        None => {
            assert(!consumable_item_names(items).contains(name));
        },
    }
}

/// Two lists of references may be added to a ledger in either order.
pub proof fn lemma_accumulate_consumables_commutes(
    items: Seq<BomConsumable>,
    a: Seq<ConsumableRef>,
    b: Seq<ConsumableRef>,
    catalog: Map<Seq<char>, InventoryEntry>,
)
    requires
        strictly_sorted(consumable_item_names(items)),
    ensures
        accumulated_consumables(accumulated_consumables(items, a, catalog), b, catalog)
            == accumulated_consumables(accumulated_consumables(items, b, catalog), a, catalog),
{
    let na = consumable_names(counted_consumables(a, catalog));
    let nb = consumable_names(counted_consumables(b, catalog));
    let base = consumable_item_names(items);
    lemma_accumulated_consumable_names(items, a, catalog);
    lemma_accumulated_consumable_names(items, b, catalog);
    lemma_insert_all_commutes(base, na, nb);
    let left = accumulated_consumables(accumulated_consumables(items, a, catalog), b, catalog);
    let right = accumulated_consumables(accumulated_consumables(items, b, catalog), a, catalog);
    let names = insert_all(insert_all(base, na), nb);
    assert(left.len() == names.len());
    assert(right.len() == names.len());
    assert forall|k: int| 0 <= k < names.len() implies left[k] == right[k] by {
        lemma_consumable_twice(items, a, catalog, names[k]);
        lemma_consumable_twice(items, b, catalog, names[k]);
    }
    assert(left =~= right);
}

} // verus!
