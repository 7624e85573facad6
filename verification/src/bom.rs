//! The bill of materials: what all chapters use, added up.
//!
//! A reference counts unless it is excluded from the bill of materials or
//! names an item that the inventory does not hold: such a reference is
//! passed over, and no entry is made for it. The entries of a category stand
//! in a ledger, each name once, in ascending order, so that a ledger depends
//! on what was added to it and not on the order in which that was done.

use crate::inventory::{Catalog, Inventory, InventoryEntry, NOT_GIVEN};
use crate::merge::{
    checked_part_quantity, lemma_quantity_of_absent, lemma_quantity_of_concat, part_name_set,
    part_names, part_quantity, quantity_of,
};
use crate::names::{
    index_of_key, insert_all, insert_name, lemma_distinct_sorted, lemma_index_of_key,
    lemma_index_of_key_prefix, lemma_insert_all, lemma_insert_all_commutes,
    lemma_insert_all_in_steps, strictly_sorted,
};
use crate::render::described;
use crate::schema::{views, PartRef, PartReference};
use crate::text::{str_eq, string_views};
use vstd::prelude::*;

verus! {

// ---------------------------------------------------------------------------
// Counted items
// ---------------------------------------------------------------------------

/// The entry of a counted item: its description and how many of it are used.
#[derive(Debug, Clone)]
pub struct BomPartItem {
    pub name: String,
    pub description: String,
    pub total_quantity: u32,
}

/// The view of a [`BomPartItem`].
pub struct BomPart {
    pub name: Seq<char>,
    pub description: Seq<char>,
    pub total_quantity: nat,
}

impl View for BomPartItem {
    type V = BomPart;

    open spec fn view(&self) -> BomPart {
        BomPart {
            name: self.name@,
            description: self.description@,
            total_quantity: self.total_quantity as nat,
        }
    }
}

/// The names of the entries, in their order.
pub open spec fn part_item_names(items: Seq<BomPart>) -> Seq<Seq<char>> {
    items.map_values(|item: BomPart| item.name)
}

/// Whether a reference counts for the bill of materials.
pub open spec fn part_counts(r: PartRef, catalog: Map<Seq<char>, InventoryEntry>) -> bool {
    !r.exclude_from_bom && catalog.contains_key(r.name)
}

/// The references that count, in their order.
pub open spec fn counted_parts(refs: Seq<PartRef>, catalog: Map<Seq<char>, InventoryEntry>) -> Seq<
    PartRef,
>
    decreases refs.len(),
{
    if refs.len() == 0 {
        Seq::empty()
    } else if part_counts(refs.last(), catalog) {
        counted_parts(refs.drop_last(), catalog).push(refs.last())
    } else {
        counted_parts(refs.drop_last(), catalog)
    }
}

/// The total of `name` in the entries; zero if it has no entry.
pub open spec fn part_total(items: Seq<BomPart>, name: Seq<char>) -> nat {
    match index_of_key(part_item_names(items), name) {
        Some(i) => items[i].total_quantity,
        None => 0,
    }
}

/// The entry of `name` when the counting references `counted` have been
/// added to `items`: the quantities of the references to `name` are added
/// to its total. A new entry takes its description from the catalog.
pub open spec fn accumulated_part(
    items: Seq<BomPart>,
    counted: Seq<PartRef>,
    catalog: Map<Seq<char>, InventoryEntry>,
    name: Seq<char>,
) -> BomPart {
    BomPart {
        name,
        description: match index_of_key(part_item_names(items), name) {
            Some(i) => items[i].description,
            None => described(name, catalog, NOT_GIVEN@),
        },
        total_quantity: part_total(items, name) + quantity_of(counted, name),
    }
}

/// The entries when the references `refs` have been added to `items`: an
/// entry for each name that had one and for each name of a counting
/// reference, by name.
pub open spec fn accumulated_parts(
    items: Seq<BomPart>,
    refs: Seq<PartRef>,
    catalog: Map<Seq<char>, InventoryEntry>,
) -> Seq<BomPart> {
    let counted = counted_parts(refs, catalog);
    insert_all(part_item_names(items), part_names(counted)).map_values(
        |name: Seq<char>| accumulated_part(items, counted, catalog, name),
    )
}

/// Whether every total stays a number that an entry can hold when the
/// references `refs` are added to `items`.
pub open spec fn accumulation_fits(
    items: Seq<BomPart>,
    refs: Seq<PartRef>,
    catalog: Map<Seq<char>, InventoryEntry>,
) -> bool {
    forall|name: Seq<char>|
        part_total(items, name) + #[trigger] quantity_of(counted_parts(refs, catalog), name)
            <= u32::MAX
}

/// The entries of one category of counted items.
pub struct PartLedger {
    items: Vec<BomPartItem>,
}

impl View for PartLedger {
    type V = Seq<BomPart>;

    closed spec fn view(&self) -> Seq<BomPart> {
        views(self.items@)
    }
}

impl PartLedger {
    /// Whether the entries stand by name in ascending order, each name once.
    pub open spec fn wf(&self) -> bool {
        strictly_sorted(part_item_names(self@))
    }

    /// A ledger without entries.
    pub fn new() -> (r: PartLedger)
        ensures
            r.wf(),
            r@ == Seq::<BomPart>::empty(),
    {
        let r = PartLedger { items: Vec::new() };
        assert(r@ =~= Seq::<BomPart>::empty());
        r
    }

    /// The entries, by name.
    pub fn items(&self) -> (r: &Vec<BomPartItem>)
        ensures
            views(r@) == self@,
    {
        &self.items
    }

    /// The number of entries.
    pub fn len(&self) -> (r: usize)
        ensures
            r == self@.len(),
    {
        self.items.len()
    }

    /// The position of the entry of `name`, if it has one.
    pub fn position(&self, name: &str) -> (r: Option<usize>)
        ensures
            match r {
                Some(i) => index_of_key(part_item_names(self@), name@) == Some(i as int) && i
                    < self@.len(),
                None => index_of_key(part_item_names(self@), name@) is None,
            },
    {
        let ghost keys = part_item_names(self@);
        let mut i: usize = 0;
        while i < self.items.len()
            invariant
                i <= self.items.len(),
                keys == part_item_names(self@),
                index_of_key(keys.take(i as int), name@) is None,
            decreases self.items.len() - i,
        {
            proof {
                assert(keys.take(i + 1).drop_last() =~= keys.take(i as int));
                assert(keys.take(i + 1).last() == self.items@[i as int].name@);
            }
            if str_eq(self.items[i].name.as_str(), name) {
                proof {
                    lemma_index_of_key_prefix(keys, name@, i + 1);
                }
                return Some(i);
            }
            i += 1;
        }
        proof {
            assert(keys.take(self.items.len() as int) =~= keys);
        }
        None
    }

    /// The entry of `name`, if it has one.
    pub fn get(&self, name: &str) -> (r: Option<&BomPartItem>)
        ensures
            match r {
                Some(item) => index_of_key(part_item_names(self@), name@) is Some && item@
                    == self@[index_of_key(part_item_names(self@), name@)->0],
                None => index_of_key(part_item_names(self@), name@) is None,
            },
    {
        match self.position(name) {
            Some(i) => Some(&self.items[i]),
            None => None,
        }
    }

    /// The names of the entries.
    fn names(&self) -> (names: Vec<String>)
        ensures
            string_views(names@) == part_item_names(self@),
    {
        let mut names: Vec<String> = Vec::new();
        let mut i: usize = 0;
        while i < self.items.len()
            invariant
                i <= self.items.len(),
                names@.len() == i,
                forall|j: int| 0 <= j < i ==> (#[trigger] names@[j])@ == self.items@[j].name@,
            decreases self.items.len() - i,
        {
            names.push(self.items[i].name.clone());
            i += 1;
        }
        assert(string_views(names@) =~= part_item_names(self@));
        names
    }
}

/// The references that count for the bill of materials.
fn count_parts(parts: &Vec<PartReference>, catalog: &Catalog) -> (out: Vec<PartReference>)
    ensures
        views(out@) == counted_parts(views(parts@), catalog@),
{
    let ghost refs = views(parts@);
    let mut out: Vec<PartReference> = Vec::new();
    let mut i: usize = 0;
    assert(views(out@) =~= counted_parts(refs.take(0), catalog@));
    while i < parts.len()
        invariant
            i <= parts.len(),
            refs == views(parts@),
            views(out@) == counted_parts(refs.take(i as int), catalog@),
        decreases parts.len() - i,
    {
        proof {
            assert(refs.take(i + 1).drop_last() =~= refs.take(i as int));
            assert(refs.take(i + 1).last() == parts@[i as int]@);
        }
        if !parts[i].exclude_from_bom && catalog.contains(parts[i].name.as_str()) {
            let ghost before = views(out@);
            out.push(
                PartReference {
                    name: parts[i].name.clone(),
                    quantity: parts[i].quantity,
                    exclude_from_bom: parts[i].exclude_from_bom,
                    exclude_from_overview: parts[i].exclude_from_overview,
                },
            );
            assert(views(out@) =~= before.push(parts@[i as int]@));
        }
        i += 1;
    }
    proof {
        assert(refs.take(parts.len() as int) =~= refs);
    }
    out
}

/// `names` with the names of `parts` put in their places.
fn insert_part_names(names: &mut Vec<String>, parts: &Vec<PartReference>)
    requires
        strictly_sorted(string_views(old(names)@)),
    ensures
        string_views(final(names)@) == insert_all(
            string_views(old(names)@),
            part_names(views(parts@)),
        ),
        strictly_sorted(string_views(final(names)@)),
{
    let ghost base = string_views(names@);
    let ghost keys = part_names(views(parts@));
    let mut i: usize = 0;
    while i < parts.len()
        invariant
            i <= parts.len(),
            keys == part_names(views(parts@)),
            string_views(names@) == insert_all(base, keys.take(i as int)),
            strictly_sorted(string_views(names@)),
        decreases parts.len() - i,
    {
        proof {
            assert(keys.take(i + 1).drop_last() =~= keys.take(i as int));
            assert(keys.take(i + 1).last() == parts@[i as int].name@);
        }
        insert_name(names, parts[i].name.as_str());
        i += 1;
    }
    proof {
        assert(keys.take(parts.len() as int) =~= keys);
    }
}

/// The description of `name` in the catalog, or a dash.
fn describe(catalog: &Catalog, name: &str) -> (r: String)
    ensures
        r@ == described(name@, catalog@, NOT_GIVEN@),
{
    match catalog.lookup(name) {
        Some(record) => record.description_text().to_owned(),
        None => NOT_GIVEN.to_owned(),
    }
}

/// Adds the references `parts` to the ledger: for each reference that
/// counts, its quantity is added to the total of its name, and a name
/// without an entry gets one.
pub fn accumulate_parts(parts: &Vec<PartReference>, catalog: &Catalog, ledger: &mut PartLedger)
    requires
        old(ledger).wf(),
        accumulation_fits(old(ledger)@, views(parts@), catalog@),
    ensures
        final(ledger).wf(),
        final(ledger)@ == accumulated_parts(old(ledger)@, views(parts@), catalog@),
{
    let ghost items = ledger@;
    let counted = count_parts(parts, catalog);
    let ghost refs = views(counted@);
    let mut names = ledger.names();
    insert_part_names(&mut names, &counted);
    let ghost keys = string_views(names@);
    let mut out: Vec<BomPartItem> = Vec::new();
    let mut k: usize = 0;
    while k < names.len()
        invariant
            k <= names.len(),
            items == ledger@,
            refs == views(counted@),
            keys == string_views(names@),
            forall|name: Seq<char>|
                part_total(items, name) + #[trigger] quantity_of(refs, name) <= u32::MAX,
            out@.len() == k,
            forall|j: int|
                0 <= j < k ==> (#[trigger] out@[j])@ == accumulated_part(
                    items,
                    refs,
                    catalog@,
                    keys[j],
                ),
        decreases names.len() - k,
    {
        let name = names[k].as_str();
        assert(name@ == keys[k as int]);
        assert(part_total(items, name@) + quantity_of(refs, name@) <= u32::MAX);
        let added = part_quantity(&counted, name);
        let item = match ledger.get(name) {
            Some(entry) => BomPartItem {
                name: names[k].clone(),
                description: entry.description.clone(),
                total_quantity: entry.total_quantity + added,
            },
            None => BomPartItem {
                name: names[k].clone(),
                description: describe(catalog, name),
                total_quantity: added,
            },
        };
        out.push(item);
        k += 1;
    }
    ledger.items = out;
    proof {
        assert(ledger@ =~= accumulated_parts(items, views(parts@), catalog@));
        assert(part_item_names(ledger@) =~= keys);
    }
}

/// Whether every total stays a number that an entry can hold when the
/// references `parts` are added to the ledger.
pub fn accumulation_within_limits(
    parts: &Vec<PartReference>,
    catalog: &Catalog,
    ledger: &PartLedger,
) -> (r: bool)
    ensures
        r == accumulation_fits(ledger@, views(parts@), catalog@),
{
    let ghost items = ledger@;
    let counted = count_parts(parts, catalog);
    let ghost refs = views(counted@);
    let names = part_name_set(&counted);
    let ghost keys = string_views(names@);
    let mut k: usize = 0;
    while k < names.len()
        invariant
            k <= names.len(),
            items == ledger@,
            refs == views(counted@),
            refs == counted_parts(views(parts@), catalog@),
            keys == string_views(names@),
            forall|j: int|
                0 <= j < k ==> part_total(items, #[trigger] keys[j]) + quantity_of(refs, keys[j])
                    <= u32::MAX,
        decreases names.len() - k,
    {
        let name = names[k].as_str();
        assert(name@ == keys[k as int]);
        let had: u32 = match ledger.get(name) {
            Some(entry) => entry.total_quantity,
            None => 0,
        };
        match checked_part_quantity(&counted, name) {
            Some(added) => {
                if added > u32::MAX - had {
                    return false;
                }
            },
            None => {
                return false;
            },
        }
        k += 1;
    }
    proof {
        lemma_distinct_sorted(part_names(refs));
        assert forall|name: Seq<char>|
            part_total(items, name) + #[trigger] quantity_of(refs, name) <= u32::MAX by {
            if keys.contains(name) {
                let j = choose|j: int| 0 <= j < keys.len() && keys[j] == name;
                assert(part_total(items, keys[j]) + quantity_of(refs, keys[j]) <= u32::MAX);
            } else {
                lemma_quantity_of_absent(refs, name);
                lemma_index_of_key(part_item_names(items), name);
                match index_of_key(part_item_names(items), name) {
                    Some(i) => {
                        assert(items[i] == ledger.items@[i]@);
                    },
                    None => {},
                }
            }
        }
    }
    true
}

/// Adds the fasteners that a section uses to their ledger.
pub fn accumulate_fasteners(
    parts: &Vec<PartReference>,
    inventory: &Inventory,
    all_fasteners: &mut PartLedger,
)
    requires
        old(all_fasteners).wf(),
        accumulation_fits(old(all_fasteners)@, views(parts@), inventory@.fasteners),
    ensures
        final(all_fasteners).wf(),
        final(all_fasteners)@ == accumulated_parts(
            old(all_fasteners)@,
            views(parts@),
            inventory@.fasteners,
        ),
{
    accumulate_parts(parts, &inventory.fasteners, all_fasteners);
}

/// Adds the electronic parts that a section uses to their ledger.
pub fn accumulate_electronics(
    parts: &Vec<PartReference>,
    inventory: &Inventory,
    all_electronics: &mut PartLedger,
)
    requires
        old(all_electronics).wf(),
        accumulation_fits(old(all_electronics)@, views(parts@), inventory@.electronics),
    ensures
        final(all_electronics).wf(),
        final(all_electronics)@ == accumulated_parts(
            old(all_electronics)@,
            views(parts@),
            inventory@.electronics,
        ),
{
    accumulate_parts(parts, &inventory.electronics, all_electronics);
}

/// Adds the custom parts that a section uses to their ledger.
pub fn accumulate_custom_parts(
    parts: &Vec<PartReference>,
    inventory: &Inventory,
    all_custom_parts: &mut PartLedger,
)
    requires
        old(all_custom_parts).wf(),
        accumulation_fits(old(all_custom_parts)@, views(parts@), inventory@.custom_parts),
    ensures
        final(all_custom_parts).wf(),
        final(all_custom_parts)@ == accumulated_parts(
            old(all_custom_parts)@,
            views(parts@),
            inventory@.custom_parts,
        ),
{
    accumulate_parts(parts, &inventory.custom_parts, all_custom_parts);
}

// ---------------------------------------------------------------------------
// Laws
// ---------------------------------------------------------------------------

/// Every reference that counts names an item of the catalog, and is a
/// reference of the list.
pub proof fn lemma_counted_parts(refs: Seq<PartRef>, catalog: Map<Seq<char>, InventoryEntry>)
    ensures
        forall|i: int|
            0 <= i < counted_parts(refs, catalog).len() ==> part_counts(
                #[trigger] counted_parts(refs, catalog)[i],
                catalog,
            ) && refs.contains(counted_parts(refs, catalog)[i]),
        forall|i: int|
            0 <= i < refs.len() && part_counts(#[trigger] refs[i], catalog) ==> counted_parts(
                refs,
                catalog,
            ).contains(refs[i]),
    decreases refs.len(),
{
    if refs.len() > 0 {
        let front = refs.drop_last();
        lemma_counted_parts(front, catalog);
        let counted = counted_parts(refs, catalog);
        let inner = counted_parts(front, catalog);
        assert forall|i: int| 0 <= i < counted.len() implies part_counts(
            #[trigger] counted[i],
            catalog,
        ) && refs.contains(counted[i]) by {
            if i < inner.len() {
                assert(counted[i] == inner[i]);
                assert(front.contains(inner[i]));
                let j = choose|j: int| 0 <= j < front.len() && front[j] == inner[i];
                assert(refs[j] == inner[i]);
            } else {
                assert(counted[i] == refs[refs.len() - 1]);
            }
        }
        assert forall|i: int| 0 <= i < refs.len() && part_counts(
            #[trigger] refs[i],
            catalog,
        ) implies counted.contains(refs[i]) by {
            if i < front.len() {
                assert(front[i] == refs[i]);
                assert(inner.contains(front[i]));
                let j = choose|j: int| 0 <= j < inner.len() && inner[j] == refs[i];
                assert(counted[j] == refs[i]);
            } else {
                assert(counted[counted.len() - 1] == refs[i]);
            }
        }
    }
}

/// A reference to a name that the inventory does not hold makes no entry:
/// where the name had no entry, it has none afterwards.
pub proof fn lemma_unknown_part_makes_no_entry(
    items: Seq<BomPart>,
    refs: Seq<PartRef>,
    catalog: Map<Seq<char>, InventoryEntry>,
    name: Seq<char>,
)
    requires
        strictly_sorted(part_item_names(items)),
        !catalog.contains_key(name),
        !part_item_names(items).contains(name),
    ensures
        !part_item_names(accumulated_parts(items, refs, catalog)).contains(name),
{
    let counted = counted_parts(refs, catalog);
    let names = insert_all(part_item_names(items), part_names(counted));
    lemma_insert_all(part_item_names(items), part_names(counted));
    lemma_counted_parts(refs, catalog);
    assert(part_item_names(accumulated_parts(items, refs, catalog)) =~= names);
    if part_names(counted).contains(name) {
        let i = choose|i: int| 0 <= i < counted.len() && part_names(counted)[i] == name;
        assert(part_counts(counted[i], catalog));
    }
}

/// A reference that is excluded from the bill of materials adds nothing: the
/// entries are those that the other references give.
pub proof fn lemma_excluded_part_adds_nothing(
    items: Seq<BomPart>,
    refs: Seq<PartRef>,
    r: PartRef,
    catalog: Map<Seq<char>, InventoryEntry>,
)
    requires
        !part_counts(r, catalog),
    ensures
        accumulated_parts(items, refs.push(r), catalog) == accumulated_parts(items, refs, catalog),
{
    assert(refs.push(r).drop_last() =~= refs);
}

/// The names of the entries after an accumulation.
pub proof fn lemma_accumulated_part_names(
    items: Seq<BomPart>,
    refs: Seq<PartRef>,
    catalog: Map<Seq<char>, InventoryEntry>,
)
    requires
        strictly_sorted(part_item_names(items)),
    ensures
        part_item_names(accumulated_parts(items, refs, catalog)) == insert_all(
            part_item_names(items),
            part_names(counted_parts(refs, catalog)),
        ),
        strictly_sorted(part_item_names(accumulated_parts(items, refs, catalog))),
{
    let counted = counted_parts(refs, catalog);
    lemma_insert_all(part_item_names(items), part_names(counted));
    assert(part_item_names(accumulated_parts(items, refs, catalog)) =~= insert_all(
        part_item_names(items),
        part_names(counted),
    ));
}

/// The entry of `name` after one accumulation.
proof fn lemma_accumulated_part_entry(
    items: Seq<BomPart>,
    refs: Seq<PartRef>,
    catalog: Map<Seq<char>, InventoryEntry>,
    name: Seq<char>,
)
    requires
        strictly_sorted(part_item_names(items)),
    ensures
        ({
            let after = accumulated_parts(items, refs, catalog);
            let counted = counted_parts(refs, catalog);
            match index_of_key(part_item_names(after), name) {
                Some(i) => 0 <= i < after.len() && after[i] == accumulated_part(
                    items,
                    counted,
                    catalog,
                    name,
                ),
                None => index_of_key(part_item_names(items), name) is None && quantity_of(
                    counted,
                    name,
                ) == 0,
            }
        }),
{
    let after = accumulated_parts(items, refs, catalog);
    let counted = counted_parts(refs, catalog);
    let names = insert_all(part_item_names(items), part_names(counted));
    lemma_accumulated_part_names(items, refs, catalog);
    lemma_insert_all(part_item_names(items), part_names(counted));
    lemma_index_of_key(names, name);
    lemma_index_of_key(part_item_names(items), name);
    match index_of_key(names, name) {
        Some(i) => {
            assert(names[i] == name);
        },
        None => {
            assert(!part_names(counted).contains(name));
            lemma_quantity_of_absent(counted, name);
            assert(!part_item_names(items).contains(name));
        },
    }
}

/// The entry of `name` after two accumulations does not depend on their
/// order.
proof fn lemma_accumulated_twice(
    items: Seq<BomPart>,
    a: Seq<PartRef>,
    b: Seq<PartRef>,
    catalog: Map<Seq<char>, InventoryEntry>,
    name: Seq<char>,
)
    requires
        strictly_sorted(part_item_names(items)),
    ensures
        accumulated_part(
            accumulated_parts(items, a, catalog),
            counted_parts(b, catalog),
            catalog,
            name,
        ) == (BomPart {
            name,
            description: match index_of_key(part_item_names(items), name) {
                Some(i) => items[i].description,
                None => described(name, catalog, NOT_GIVEN@),
            },
            total_quantity: part_total(items, name) + quantity_of(counted_parts(a, catalog), name)
                + quantity_of(counted_parts(b, catalog), name),
        }),
{
    lemma_accumulated_part_entry(items, a, catalog, name);
}

/// Two lists of references may be added to a ledger in either order: the
/// entries are the same, with the same totals.
pub proof fn lemma_accumulate_parts_commutes(
    items: Seq<BomPart>,
    a: Seq<PartRef>,
    b: Seq<PartRef>,
    catalog: Map<Seq<char>, InventoryEntry>,
)
    requires
        strictly_sorted(part_item_names(items)),
    ensures
        accumulated_parts(accumulated_parts(items, a, catalog), b, catalog) == accumulated_parts(
            accumulated_parts(items, b, catalog),
            a,
            catalog,
        ),
{
    let na = part_names(counted_parts(a, catalog));
    let nb = part_names(counted_parts(b, catalog));
    let base = part_item_names(items);
    lemma_accumulated_part_names(items, a, catalog);
    lemma_accumulated_part_names(items, b, catalog);
    lemma_insert_all_commutes(base, na, nb);
    let left = accumulated_parts(accumulated_parts(items, a, catalog), b, catalog);
    let right = accumulated_parts(accumulated_parts(items, b, catalog), a, catalog);
    let names = insert_all(insert_all(base, na), nb);
    assert(left.len() == names.len());
    assert(right.len() == names.len());
    assert forall|k: int| 0 <= k < names.len() implies left[k] == right[k] by {
        lemma_accumulated_twice(items, a, b, catalog, names[k]);
        lemma_accumulated_twice(items, b, a, catalog, names[k]);
    }
    assert(left =~= right);
}

/// The references that count in two lists are those that count in each.
pub proof fn lemma_counted_parts_concat(
    a: Seq<PartRef>,
    b: Seq<PartRef>,
    catalog: Map<Seq<char>, InventoryEntry>,
)
    ensures
        counted_parts(a + b, catalog) == counted_parts(a, catalog) + counted_parts(b, catalog),
    decreases b.len(),
{
    if b.len() == 0 {
        assert(a + b =~= a);
        assert(counted_parts(a, catalog) + counted_parts(b, catalog) =~= counted_parts(a, catalog));
    } else {
        lemma_counted_parts_concat(a, b.drop_last(), catalog);
        assert((a + b).drop_last() =~= a + b.drop_last());
        assert((a + b).last() == b.last());
        let front = counted_parts(a, catalog) + counted_parts(b.drop_last(), catalog);
        if part_counts(b.last(), catalog) {
            assert(front.push(b.last()) =~= counted_parts(a, catalog) + counted_parts(b, catalog));
        }
    }
}

/// Adding one list of references after another is adding the two as one
/// list: the totals do not depend on how the references are grouped.
pub proof fn lemma_accumulate_parts_in_steps(
    items: Seq<BomPart>,
    a: Seq<PartRef>,
    b: Seq<PartRef>,
    catalog: Map<Seq<char>, InventoryEntry>,
)
    requires
        strictly_sorted(part_item_names(items)),
    ensures
        accumulated_parts(accumulated_parts(items, a, catalog), b, catalog) == accumulated_parts(
            items,
            a + b,
            catalog,
        ),
{
    let ca = counted_parts(a, catalog);
    let cb = counted_parts(b, catalog);
    let base = part_item_names(items);
    lemma_counted_parts_concat(a, b, catalog);
    lemma_accumulated_part_names(items, a, catalog);
    lemma_insert_all_in_steps(base, part_names(ca), part_names(cb));
    assert(part_names(ca + cb) =~= part_names(ca) + part_names(cb));
    let left = accumulated_parts(accumulated_parts(items, a, catalog), b, catalog);
    let right = accumulated_parts(items, a + b, catalog);
    let names = insert_all(base, part_names(ca + cb));
    assert(left.len() == names.len());
    assert(right.len() == names.len());
    assert forall|k: int| 0 <= k < names.len() implies left[k] == right[k] by {
        lemma_accumulated_twice(items, a, b, catalog, names[k]);
        lemma_quantity_of_concat(ca, cb, names[k]);
    }
    assert(left =~= right);
}

} // verus!
