//! The reference merger: many references to an item become one.
//!
//! A merged list holds each name once, in ascending order. The quantities of
//! the references to a name are added up. A merged reference is excluded only
//! if every reference to its name is: one that includes the item wins. The
//! settings of a tool are joined, each once, in ascending order.

use crate::names::{
    distinct_sorted, insert_name, lemma_distinct_sorted, lemma_distinct_sorted_same_names,
    strictly_sorted,
};
use crate::schema::{
    views, ConsumableRef, ConsumableReference, OutputRef, OutputReference, PartRef, PartReference,
    ToolRef, ToolReference,
};
use crate::text::{str_eq, string_views};
use vstd::prelude::*;
use vstd::seq_lib::lemma_fold_left_permutation;

verus! {

// ---------------------------------------------------------------------------
// Counted items
// ---------------------------------------------------------------------------

/// The names of the references, in their order.
pub open spec fn part_names(refs: Seq<PartRef>) -> Seq<Seq<char>> {
    refs.map_values(|r: PartRef| r.name)
}

/// The sum of the quantities of the references to `name`.
pub open spec fn quantity_of(refs: Seq<PartRef>, name: Seq<char>) -> nat
    decreases refs.len(),
{
    if refs.len() == 0 {
        0
    } else if refs.last().name == name {
        quantity_of(refs.drop_last(), name) + refs.last().quantity
    } else {
        quantity_of(refs.drop_last(), name)
    }
}

/// Whether every reference to `name` is excluded from the bill of materials.
pub open spec fn parts_all_exclude_bom(refs: Seq<PartRef>, name: Seq<char>) -> bool {
    forall|i: int| 0 <= i < refs.len() && (#[trigger] refs[i]).name == name ==> refs[i].exclude_from_bom
}

/// Whether every reference to `name` is excluded from the overview.
pub open spec fn parts_all_exclude_overview(refs: Seq<PartRef>, name: Seq<char>) -> bool {
    forall|i: int|
        0 <= i < refs.len() && (#[trigger] refs[i]).name == name ==> refs[i].exclude_from_overview
}

/// The one reference that stands for all references to `name`.
pub open spec fn merged_part(refs: Seq<PartRef>, name: Seq<char>) -> PartRef {
    PartRef {
        name,
        quantity: quantity_of(refs, name),
        exclude_from_bom: parts_all_exclude_bom(refs, name),
        exclude_from_overview: parts_all_exclude_overview(refs, name),
    }
}

/// The merged list: one reference for each name that occurs, by name.
pub open spec fn merge_parts(refs: Seq<PartRef>) -> Seq<PartRef> {
    distinct_sorted(part_names(refs)).map_values(|name: Seq<char>| merged_part(refs, name))
}

/// Whether the quantities of each name add up to a number that a merged
/// reference can hold.
pub open spec fn quantities_fit(refs: Seq<PartRef>) -> bool {
    forall|name: Seq<char>| #[trigger] quantity_of(refs, name) <= u32::MAX
}

/// The quantity of a name among the first references is at most that among
/// all.
pub proof fn lemma_quantity_of_prefix(refs: Seq<PartRef>, name: Seq<char>, n: int)
    requires
        0 <= n <= refs.len(),
    ensures
        quantity_of(refs.take(n), name) <= quantity_of(refs, name),
    decreases refs.len() - n,
{
    if n < refs.len() {
        assert(refs.take(n + 1).drop_last() =~= refs.take(n));
        lemma_quantity_of_prefix(refs, name, n + 1);
    } else {
        assert(refs.take(n) =~= refs);
    }
}

/// The quantity of a name in two lists is the sum of its quantities in each.
pub proof fn lemma_quantity_of_concat(a: Seq<PartRef>, b: Seq<PartRef>, name: Seq<char>)
    ensures
        quantity_of(a + b, name) == quantity_of(a, name) + quantity_of(b, name),
    decreases b.len(),
{
    if b.len() == 0 {
        assert(a + b =~= a);
    } else {
        lemma_quantity_of_concat(a, b.drop_last(), name);
        assert((a + b).drop_last() =~= a + b.drop_last());
        assert((a + b).last() == b.last());
    }
}

/// A name that does not occur has the quantity zero.
pub proof fn lemma_quantity_of_absent(refs: Seq<PartRef>, name: Seq<char>)
    requires
        !part_names(refs).contains(name),
    ensures
        quantity_of(refs, name) == 0,
    decreases refs.len(),
{
    if refs.len() > 0 {
        let front = refs.drop_last();
        assert(part_names(refs)[refs.len() - 1] == refs.last().name);
        assert(!part_names(front).contains(name)) by {
            if part_names(front).contains(name) {
                let i = choose|i: int| 0 <= i < front.len() && part_names(front)[i] == name;
                assert(part_names(refs)[i] == name);
            }
        }
        lemma_quantity_of_absent(front, name);
    }
}

/// The names of a list of references in ascending order, each once.
pub fn part_name_set(parts: &Vec<PartReference>) -> (names: Vec<String>)
    ensures
        string_views(names@) == distinct_sorted(part_names(views(parts@))),
        strictly_sorted(string_views(names@)),
{
    let ghost keys = part_names(views(parts@));
    let mut names: Vec<String> = Vec::new();
    let mut i: usize = 0;
    assert(string_views(names@) =~= distinct_sorted(keys.take(0)));
    while i < parts.len()
        invariant
            i <= parts.len(),
            keys == part_names(views(parts@)),
            string_views(names@) == distinct_sorted(keys.take(i as int)),
            strictly_sorted(string_views(names@)),
        decreases parts.len() - i,
    {
        proof {
            assert(keys.take(i + 1).drop_last() =~= keys.take(i as int));
            assert(keys.take(i + 1).last() == parts@[i as int].name@);
        }
        insert_name(&mut names, parts[i].name.as_str());
        i += 1;
    }
    proof {
        assert(keys.take(parts.len() as int) =~= keys);
    }
    names
}

/// The sum of the quantities of the references to `name`.
pub fn part_quantity(parts: &Vec<PartReference>, name: &str) -> (q: u32)
    requires
        quantity_of(views(parts@), name@) <= u32::MAX,
    ensures
        q == quantity_of(views(parts@), name@),
{
    let ghost refs = views(parts@);
    let mut q: u32 = 0;
    let mut i: usize = 0;
    while i < parts.len()
        invariant
            i <= parts.len(),
            refs == views(parts@),
            q == quantity_of(refs.take(i as int), name@),
            quantity_of(refs, name@) <= u32::MAX,
        decreases parts.len() - i,
    {
        proof {
            assert(refs.take(i + 1).drop_last() =~= refs.take(i as int));
            assert(refs.take(i + 1).last() == parts@[i as int]@);
            lemma_quantity_of_prefix(refs, name@, i + 1);
        }
        if str_eq(parts[i].name.as_str(), name) {
            q = q + parts[i].quantity;
        }
        i += 1;
    }
    proof {
        assert(refs.take(parts.len() as int) =~= refs);
    }
    q
}

/// The sum of the quantities of the references to `name`, where it is a
/// number that a reference can hold.
pub fn checked_part_quantity(parts: &Vec<PartReference>, name: &str) -> (q: Option<u32>)
    ensures
        match q {
            Some(sum) => sum == quantity_of(views(parts@), name@),
            None => quantity_of(views(parts@), name@) > u32::MAX,
        },
{
    let ghost refs = views(parts@);
    let mut q: u32 = 0;
    let mut i: usize = 0;
    while i < parts.len()
        invariant
            i <= parts.len(),
            refs == views(parts@),
            q == quantity_of(refs.take(i as int), name@),
        decreases parts.len() - i,
    {
        proof {
            assert(refs.take(i + 1).drop_last() =~= refs.take(i as int));
            assert(refs.take(i + 1).last() == parts@[i as int]@);
            lemma_quantity_of_prefix(refs, name@, i + 1);
        }
        if str_eq(parts[i].name.as_str(), name) {
            if parts[i].quantity > u32::MAX - q {
                return None;
            }
            q = q + parts[i].quantity;
        }
        i += 1;
    }
    proof {
        assert(refs.take(parts.len() as int) =~= refs);
    }
    Some(q)
}

/// Whether the quantities of each name add up to a number that a merged
/// reference can hold.
pub fn parts_fit(parts: &Vec<PartReference>) -> (r: bool)
    ensures
        r == quantities_fit(views(parts@)),
{
    let ghost refs = views(parts@);
    let names = part_name_set(parts);
    let ghost keys = string_views(names@);
    let mut k: usize = 0;
    while k < names.len()
        invariant
            k <= names.len(),
            refs == views(parts@),
            keys == string_views(names@),
            forall|j: int| 0 <= j < k ==> quantity_of(refs, #[trigger] keys[j]) <= u32::MAX,
        decreases names.len() - k,
    {
        assert(names@[k as int]@ == keys[k as int]);
        match checked_part_quantity(parts, names[k].as_str()) {
            Some(_) => {},
            None => {
                return false;
            },
        }
        k += 1;
    }
    proof {
        lemma_distinct_sorted(part_names(refs));
        assert forall|name: Seq<char>| #[trigger] quantity_of(refs, name) <= u32::MAX by {
            if keys.contains(name) {
                let j = choose|j: int| 0 <= j < keys.len() && keys[j] == name;
                assert(quantity_of(refs, keys[j]) <= u32::MAX);
            } else {
                lemma_quantity_of_absent(refs, name);
            }
        }
    }
    true
}

/// Whether every reference to `name` is excluded from the bill of materials,
/// and whether every one is excluded from the overview.
fn part_flags(parts: &Vec<PartReference>, name: &str) -> (r: (bool, bool))
    ensures
        r.0 == parts_all_exclude_bom(views(parts@), name@),
        r.1 == parts_all_exclude_overview(views(parts@), name@),
{
    let ghost refs = views(parts@);
    let mut bom = true;
    let mut overview = true;
    let mut i: usize = 0;
    while i < parts.len()
        invariant
            i <= parts.len(),
            refs == views(parts@),
            bom == parts_all_exclude_bom(refs.take(i as int), name@),
            overview == parts_all_exclude_overview(refs.take(i as int), name@),
        decreases parts.len() - i,
    {
        let ghost before = refs.take(i as int);
        let ghost after = refs.take(i + 1);
        proof {
            assert(after[i as int] == parts@[i as int]@);
            assert forall|j: int| 0 <= j < i implies before[j] == after[j] by {}
        }
        if str_eq(parts[i].name.as_str(), name) {
            bom = bom && parts[i].exclude_from_bom;
            overview = overview && parts[i].exclude_from_overview;
        }
        proof {
            if parts_all_exclude_bom(before, name@) && (after[i as int].name == name@
                ==> after[i as int].exclude_from_bom) {
                assert forall|j: int| 0 <= j < after.len() && (#[trigger] after[j]).name
                    == name@ implies after[j].exclude_from_bom by {
                    if j < i {
                        assert(before[j] == after[j]);
                    }
                }
            }
            if parts_all_exclude_overview(before, name@) && (after[i as int].name == name@
                ==> after[i as int].exclude_from_overview) {
                assert forall|j: int| 0 <= j < after.len() && (#[trigger] after[j]).name
                    == name@ implies after[j].exclude_from_overview by {
                    if j < i {
                        assert(before[j] == after[j]);
                    }
                }
            }
            if !parts_all_exclude_bom(before, name@) {
                let j = choose|j: int|
                    0 <= j < before.len() && (#[trigger] before[j]).name == name@
                        && !before[j].exclude_from_bom;
                assert(after[j] == before[j]);
            }
            if !parts_all_exclude_overview(before, name@) {
                let j = choose|j: int|
                    0 <= j < before.len() && (#[trigger] before[j]).name == name@
                        && !before[j].exclude_from_overview;
                assert(after[j] == before[j]);
            }
        }
        i += 1;
    }
    proof {
        assert(refs.take(parts.len() as int) =~= refs);
    }
    (bom, overview)
}

/// Merges the references to counted items: one reference for each name, by
/// name, with the sum of the quantities; a flag is set where every reference
/// to the name sets it.
pub fn combine_parts(parts: &Vec<PartReference>) -> (out: Vec<PartReference>)
    requires
        quantities_fit(views(parts@)),
    ensures
        views(out@) == merge_parts(views(parts@)),
        parts@.len() == 0 ==> out@.len() == 0,
{
    let ghost refs = views(parts@);
    let names = part_name_set(parts);
    let ghost keys = string_views(names@);
    let mut out: Vec<PartReference> = Vec::new();
    let mut k: usize = 0;
    while k < names.len()
        invariant
            k <= names.len(),
            refs == views(parts@),
            keys == string_views(names@),
            quantities_fit(refs),
            out@.len() == k,
            forall|j: int| 0 <= j < k ==> (#[trigger] out@[j])@ == merged_part(refs, keys[j]),
        decreases names.len() - k,
    {
        let name = names[k].as_str();
        assert(name@ == keys[k as int]);
        assert(quantity_of(refs, name@) <= u32::MAX);
        let quantity = part_quantity(parts, name);
        let flags = part_flags(parts, name);
        out.push(
            PartReference {
                name: names[k].clone(),
                quantity,
                exclude_from_bom: flags.0,
                exclude_from_overview: flags.1,
            },
        );
        k += 1;
    }
    proof {
        assert(views(out@) =~= merge_parts(refs));
        if parts@.len() == 0 {
            assert(part_names(refs) =~= Seq::empty());
        }
    }
    out
}

// ---------------------------------------------------------------------------
// Outputs
// ---------------------------------------------------------------------------

/// An output as a counted reference; nothing keeps it out of the bill of
/// materials.
pub open spec fn output_as_part(o: OutputRef) -> PartRef {
    PartRef {
        name: o.name,
        quantity: o.quantity,
        exclude_from_bom: false,
        exclude_from_overview: o.exclude_from_overview,
    }
}

/// The outputs as counted references.
pub open spec fn outputs_as_parts(outputs: Seq<OutputRef>) -> Seq<PartRef> {
    outputs.map_values(|o: OutputRef| output_as_part(o))
}

/// The outputs as counted references, so that they are merged and listed as
/// those are.
pub fn output_parts(outputs: &Vec<OutputReference>) -> (parts: Vec<PartReference>)
    ensures
        views(parts@) == outputs_as_parts(views(outputs@)),
{
    let mut parts: Vec<PartReference> = Vec::new();
    let mut i: usize = 0;
    while i < outputs.len()
        invariant
            i <= outputs.len(),
            parts@.len() == i,
            forall|j: int| 0 <= j < i ==> (#[trigger] parts@[j])@ == output_as_part(outputs@[j]@),
        decreases outputs.len() - i,
    {
        parts.push(
            PartReference {
                name: outputs[i].name.clone(),
                quantity: outputs[i].quantity,
                exclude_from_bom: false,
                exclude_from_overview: outputs[i].exclude_from_overview,
            },
        );
        i += 1;
    }
    proof {
        assert(views(parts@) =~= outputs_as_parts(views(outputs@)));
    }
    parts
}

// ---------------------------------------------------------------------------
// Consumables
// ---------------------------------------------------------------------------

/// The names of the references, in their order.
pub open spec fn consumable_names(refs: Seq<ConsumableRef>) -> Seq<Seq<char>> {
    refs.map_values(|r: ConsumableRef| r.name)
}

/// Whether every reference to `name` is excluded from the bill of materials.
pub open spec fn consumables_all_exclude_bom(refs: Seq<ConsumableRef>, name: Seq<char>) -> bool {
    forall|i: int| 0 <= i < refs.len() && (#[trigger] refs[i]).name == name ==> refs[i].exclude_from_bom
}

/// Whether every reference to `name` is excluded from the overview.
pub open spec fn consumables_all_exclude_overview(refs: Seq<ConsumableRef>, name: Seq<char>) -> bool {
    forall|i: int|
        0 <= i < refs.len() && (#[trigger] refs[i]).name == name ==> refs[i].exclude_from_overview
}

/// The one reference that stands for all references to `name`.
pub open spec fn merged_consumable(refs: Seq<ConsumableRef>, name: Seq<char>) -> ConsumableRef {
    ConsumableRef {
        name,
        exclude_from_bom: consumables_all_exclude_bom(refs, name),
        exclude_from_overview: consumables_all_exclude_overview(refs, name),
    }
}

/// The merged list: one reference for each name that occurs, by name.
pub open spec fn merge_consumables(refs: Seq<ConsumableRef>) -> Seq<ConsumableRef> {
    distinct_sorted(consumable_names(refs)).map_values(
        |name: Seq<char>| merged_consumable(refs, name),
    )
}

/// The names of a list of references in ascending order, each once.
pub fn consumable_name_set(consumables: &Vec<ConsumableReference>) -> (names: Vec<String>)
    ensures
        string_views(names@) == distinct_sorted(consumable_names(views(consumables@))),
        strictly_sorted(string_views(names@)),
{
    let ghost keys = consumable_names(views(consumables@));
    let mut names: Vec<String> = Vec::new();
    let mut i: usize = 0;
    assert(string_views(names@) =~= distinct_sorted(keys.take(0)));
    while i < consumables.len()
        invariant
            i <= consumables.len(),
            keys == consumable_names(views(consumables@)),
            string_views(names@) == distinct_sorted(keys.take(i as int)),
            strictly_sorted(string_views(names@)),
        decreases consumables.len() - i,
    {
        proof {
            assert(keys.take(i + 1).drop_last() =~= keys.take(i as int));
            assert(keys.take(i + 1).last() == consumables@[i as int].name@);
        }
        insert_name(&mut names, consumables[i].name.as_str());
        i += 1;
    }
    proof {
        assert(keys.take(consumables.len() as int) =~= keys);
    }
    names
}

fn consumable_flags(consumables: &Vec<ConsumableReference>, name: &str) -> (r: (bool, bool))
    ensures
        r.0 == consumables_all_exclude_bom(views(consumables@), name@),
        r.1 == consumables_all_exclude_overview(views(consumables@), name@),
{
    let ghost refs = views(consumables@);
    let mut bom = true;
    let mut overview = true;
    let mut i: usize = 0;
    while i < consumables.len()
        invariant
            i <= consumables.len(),
            refs == views(consumables@),
            bom == consumables_all_exclude_bom(refs.take(i as int), name@),
            overview == consumables_all_exclude_overview(refs.take(i as int), name@),
        decreases consumables.len() - i,
    {
        let ghost before = refs.take(i as int);
        let ghost after = refs.take(i + 1);
        proof {
            assert(after[i as int] == consumables@[i as int]@);
        }
        if str_eq(consumables[i].name.as_str(), name) {
            bom = bom && consumables[i].exclude_from_bom;
            overview = overview && consumables[i].exclude_from_overview;
        }
        proof {
            if consumables_all_exclude_bom(before, name@) && (after[i as int].name == name@
                ==> after[i as int].exclude_from_bom) {
                assert forall|j: int| 0 <= j < after.len() && (#[trigger] after[j]).name
                    == name@ implies after[j].exclude_from_bom by {
                    if j < i {
                        assert(before[j] == after[j]);
                    }
                }
            }
            if consumables_all_exclude_overview(before, name@) && (after[i as int].name == name@
                ==> after[i as int].exclude_from_overview) {
                assert forall|j: int| 0 <= j < after.len() && (#[trigger] after[j]).name
                    == name@ implies after[j].exclude_from_overview by {
                    if j < i {
                        assert(before[j] == after[j]);
                    }
                }
            }
            if !consumables_all_exclude_bom(before, name@) {
                let j = choose|j: int|
                    0 <= j < before.len() && (#[trigger] before[j]).name == name@
                        && !before[j].exclude_from_bom;
                assert(after[j] == before[j]);
            }
            if !consumables_all_exclude_overview(before, name@) {
                let j = choose|j: int|
                    0 <= j < before.len() && (#[trigger] before[j]).name == name@
                        && !before[j].exclude_from_overview;
                assert(after[j] == before[j]);
            }
        }
        i += 1;
    }
    proof {
        assert(refs.take(consumables.len() as int) =~= refs);
    }
    (bom, overview)
}

/// Merges the references to consumables: one reference for each name, by
/// name; a flag is set where every reference to the name sets it.
pub fn deduplicate_consumables(consumables: &Vec<ConsumableReference>) -> (out: Vec<
    ConsumableReference,
>)
    ensures
        views(out@) == merge_consumables(views(consumables@)),
        consumables@.len() == 0 ==> out@.len() == 0,
{
    let ghost refs = views(consumables@);
    let names = consumable_name_set(consumables);
    let ghost keys = string_views(names@);
    let mut out: Vec<ConsumableReference> = Vec::new();
    let mut k: usize = 0;
    while k < names.len()
        invariant
            k <= names.len(),
            refs == views(consumables@),
            keys == string_views(names@),
            out@.len() == k,
            forall|j: int| 0 <= j < k ==> (#[trigger] out@[j])@ == merged_consumable(refs, keys[j]),
        decreases names.len() - k,
    {
        let name = names[k].as_str();
        assert(name@ == keys[k as int]);
        let flags = consumable_flags(consumables, name);
        out.push(
            ConsumableReference {
                name: names[k].clone(),
                exclude_from_bom: flags.0,
                exclude_from_overview: flags.1,
            },
        );
        k += 1;
    }
    proof {
        assert(views(out@) =~= merge_consumables(refs));
        if consumables@.len() == 0 {
            assert(consumable_names(refs) =~= Seq::empty());
        }
    }
    out
}

// ---------------------------------------------------------------------------
// Tools
// ---------------------------------------------------------------------------

/// What stands between two settings of a tool.
pub const SETTING_SEPARATOR: &'static str = ", ";

/// The names of the references, in their order.
pub open spec fn tool_names(refs: Seq<ToolRef>) -> Seq<Seq<char>> {
    refs.map_values(|r: ToolRef| r.name)
}

/// Whether the reference is one to `name` and gives a setting that is not
/// empty.
pub open spec fn gives_setting(r: ToolRef, name: Seq<char>) -> bool {
    r.name == name && r.setting is Some && r.setting->0.len() > 0
}

/// The settings that the references to `name` give, in their order. An empty
/// setting is none.
pub open spec fn settings_of(refs: Seq<ToolRef>, name: Seq<char>) -> Seq<Seq<char>>
    decreases refs.len(),
{
    if refs.len() == 0 {
        Seq::empty()
    } else if gives_setting(refs.last(), name) {
        settings_of(refs.drop_last(), name).push(refs.last().setting->0)
    } else {
        settings_of(refs.drop_last(), name)
    }
}

/// The items with `separator` between each two.
pub open spec fn join_with(items: Seq<Seq<char>>, separator: Seq<char>) -> Seq<char>
    decreases items.len(),
{
    if items.len() == 0 {
        Seq::empty()
    } else if items.len() == 1 {
        items[0]
    } else {
        join_with(items.drop_last(), separator) + separator + items.last()
    }
}

/// The distinct settings in ascending order, joined; none if there is none.
pub open spec fn joined_settings(settings: Seq<Seq<char>>) -> Option<Seq<char>> {
    if settings.len() == 0 {
        None
    } else {
        Some(join_with(settings, SETTING_SEPARATOR@))
    }
}

/// Whether every reference to `name` is excluded from the bill of materials.
pub open spec fn tools_all_exclude_bom(refs: Seq<ToolRef>, name: Seq<char>) -> bool {
    forall|i: int| 0 <= i < refs.len() && (#[trigger] refs[i]).name == name ==> refs[i].exclude_from_bom
}

/// Whether every reference to `name` is excluded from the overview.
pub open spec fn tools_all_exclude_overview(refs: Seq<ToolRef>, name: Seq<char>) -> bool {
    forall|i: int|
        0 <= i < refs.len() && (#[trigger] refs[i]).name == name ==> refs[i].exclude_from_overview
}

/// The one reference that stands for all references to `name`.
pub open spec fn merged_tool(refs: Seq<ToolRef>, name: Seq<char>) -> ToolRef {
    ToolRef {
        name,
        setting: joined_settings(distinct_sorted(settings_of(refs, name))),
        exclude_from_bom: tools_all_exclude_bom(refs, name),
        exclude_from_overview: tools_all_exclude_overview(refs, name),
    }
}

/// The merged list: one reference for each name that occurs, by name.
pub open spec fn merge_tools(refs: Seq<ToolRef>) -> Seq<ToolRef> {
    distinct_sorted(tool_names(refs)).map_values(|name: Seq<char>| merged_tool(refs, name))
}

/// The names of a list of references in ascending order, each once.
pub fn tool_name_set(tools: &Vec<ToolReference>) -> (names: Vec<String>)
    ensures
        string_views(names@) == distinct_sorted(tool_names(views(tools@))),
        strictly_sorted(string_views(names@)),
{
    let ghost keys = tool_names(views(tools@));
    let mut names: Vec<String> = Vec::new();
    let mut i: usize = 0;
    assert(string_views(names@) =~= distinct_sorted(keys.take(0)));
    while i < tools.len()
        invariant
            i <= tools.len(),
            keys == tool_names(views(tools@)),
            string_views(names@) == distinct_sorted(keys.take(i as int)),
            strictly_sorted(string_views(names@)),
        decreases tools.len() - i,
    {
        proof {
            assert(keys.take(i + 1).drop_last() =~= keys.take(i as int));
            assert(keys.take(i + 1).last() == tools@[i as int].name@);
        }
        insert_name(&mut names, tools[i].name.as_str());
        i += 1;
    }
    proof {
        assert(keys.take(tools.len() as int) =~= keys);
    }
    names
}

/// The distinct settings that the references to `name` give, in ascending
/// order.
pub fn tool_settings(tools: &Vec<ToolReference>, name: &str) -> (settings: Vec<String>)
    ensures
        string_views(settings@) == distinct_sorted(settings_of(views(tools@), name@)),
        strictly_sorted(string_views(settings@)),
{
    let ghost refs = views(tools@);
    let mut settings: Vec<String> = Vec::new();
    let mut i: usize = 0;
    assert(string_views(settings@) =~= distinct_sorted(settings_of(refs.take(0), name@)));
    while i < tools.len()
        invariant
            i <= tools.len(),
            refs == views(tools@),
            string_views(settings@) == distinct_sorted(settings_of(refs.take(i as int), name@)),
            strictly_sorted(string_views(settings@)),
        decreases tools.len() - i,
    {
        proof {
            assert(refs.take(i + 1).drop_last() =~= refs.take(i as int));
            assert(refs.take(i + 1).last() == tools@[i as int]@);
            let given = settings_of(refs.take(i as int), name@);
            if gives_setting(tools@[i as int]@, name@) {
                assert(given.push(tools@[i as int]@.setting->0).drop_last() =~= given);
            }
        }
        if str_eq(tools[i].name.as_str(), name) {
            match &tools[i].setting {
                Some(setting) => {
                    if !setting.as_str().is_empty() {
                        insert_name(&mut settings, setting.as_str());
                    }
                },
                None => {},
            }
        }
        i += 1;
    }
    proof {
        assert(refs.take(tools.len() as int) =~= refs);
    }
    settings
}

/// The items with `separator` between each two.
pub fn join_strings(items: &Vec<String>, separator: &str) -> (text: String)
    ensures
        text@ == join_with(string_views(items@), separator@),
{
    let mut text = String::new();
    let mut i: usize = 0;
    while i < items.len()
        invariant
            i <= items.len(),
            text@ == join_with(string_views(items@).take(i as int), separator@),
        decreases items.len() - i,
    {
        let ghost all = string_views(items@);
        if i > 0 {
            text.append(separator);
        }
        text.append(items[i].as_str());
        proof {
            assert(all.take(i + 1).drop_last() =~= all.take(i as int));
            assert(all.take(i + 1).last() == items@[i as int]@);
            if i == 0 {
                assert(join_with(all.take(1), separator@) =~= Seq::<char>::empty() + items@[0]@);
            }
        }
        i += 1;
    }
    proof {
        assert(string_views(items@).take(items.len() as int) =~= string_views(items@));
    }
    text
}

fn tool_flags(tools: &Vec<ToolReference>, name: &str) -> (r: (bool, bool))
    ensures
        r.0 == tools_all_exclude_bom(views(tools@), name@),
        r.1 == tools_all_exclude_overview(views(tools@), name@),
{
    let ghost refs = views(tools@);
    let mut bom = true;
    let mut overview = true;
    let mut i: usize = 0;
    while i < tools.len()
        invariant
            i <= tools.len(),
            refs == views(tools@),
            bom == tools_all_exclude_bom(refs.take(i as int), name@),
            overview == tools_all_exclude_overview(refs.take(i as int), name@),
        decreases tools.len() - i,
    {
        let ghost before = refs.take(i as int);
        let ghost after = refs.take(i + 1);
        proof {
            assert(after[i as int] == tools@[i as int]@);
        }
        if str_eq(tools[i].name.as_str(), name) {
            bom = bom && tools[i].exclude_from_bom;
            overview = overview && tools[i].exclude_from_overview;
        }
        proof {
            if tools_all_exclude_bom(before, name@) && (after[i as int].name == name@
                ==> after[i as int].exclude_from_bom) {
                assert forall|j: int| 0 <= j < after.len() && (#[trigger] after[j]).name
                    == name@ implies after[j].exclude_from_bom by {
                    if j < i {
                        assert(before[j] == after[j]);
                    }
                }
            }
            if tools_all_exclude_overview(before, name@) && (after[i as int].name == name@
                ==> after[i as int].exclude_from_overview) {
                assert forall|j: int| 0 <= j < after.len() && (#[trigger] after[j]).name
                    == name@ implies after[j].exclude_from_overview by {
                    if j < i {
                        assert(before[j] == after[j]);
                    }
                }
            }
            if !tools_all_exclude_bom(before, name@) {
                let j = choose|j: int|
                    0 <= j < before.len() && (#[trigger] before[j]).name == name@
                        && !before[j].exclude_from_bom;
                assert(after[j] == before[j]);
            }
            if !tools_all_exclude_overview(before, name@) {
                let j = choose|j: int|
                    0 <= j < before.len() && (#[trigger] before[j]).name == name@
                        && !before[j].exclude_from_overview;
                assert(after[j] == before[j]);
            }
        }
        i += 1;
    }
    proof {
        assert(refs.take(tools.len() as int) =~= refs);
    }
    (bom, overview)
}

/// Merges the references to tools: one reference for each name, by name. Its
/// setting joins the distinct settings of the references to the name, in
/// ascending order; a flag is set where every reference to the name sets it.
pub fn deduplicate_tools(tools: &Vec<ToolReference>) -> (out: Vec<ToolReference>)
    ensures
        views(out@) == merge_tools(views(tools@)),
        tools@.len() == 0 ==> out@.len() == 0,
{
    let ghost refs = views(tools@);
    let names = tool_name_set(tools);
    let ghost keys = string_views(names@);
    let mut out: Vec<ToolReference> = Vec::new();
    let mut k: usize = 0;
    while k < names.len()
        invariant
            k <= names.len(),
            refs == views(tools@),
            keys == string_views(names@),
            out@.len() == k,
            forall|j: int| 0 <= j < k ==> (#[trigger] out@[j])@ == merged_tool(refs, keys[j]),
        decreases names.len() - k,
    {
        let name = names[k].as_str();
        assert(name@ == keys[k as int]);
        let settings = tool_settings(tools, name);
        let setting = if settings.len() == 0 {
            None
        } else {
            Some(join_strings(&settings, SETTING_SEPARATOR))
        };
        let flags = tool_flags(tools, name);
        out.push(
            ToolReference {
                name: names[k].clone(),
                setting,
                exclude_from_bom: flags.0,
                exclude_from_overview: flags.1,
            },
        );
        k += 1;
    }
    proof {
        assert(views(out@) =~= merge_tools(refs));
        if tools@.len() == 0 {
            assert(tool_names(refs) =~= Seq::empty());
        }
    }
    out
}

// ---------------------------------------------------------------------------
// The order of the references does not matter
// ---------------------------------------------------------------------------

proof fn lemma_quantity_of_is_fold(refs: Seq<PartRef>, name: Seq<char>)
    ensures
        quantity_of(refs, name) == refs.fold_left(
            0nat,
            |sum: nat, r: PartRef|
                if r.name == name {
                    sum + r.quantity
                } else {
                    sum
                },
        ),
    decreases refs.len(),
{
    if refs.len() > 0 {
        lemma_quantity_of_is_fold(refs.drop_last(), name);
    }
}

/// The sum of the quantities of a name is the same for every order of the
/// references.
pub proof fn lemma_quantity_of_permutation(a: Seq<PartRef>, b: Seq<PartRef>, name: Seq<char>)
    requires
        a.to_multiset() == b.to_multiset(),
    ensures
        quantity_of(a, name) == quantity_of(b, name),
{
    let f = |sum: nat, r: PartRef|
        if r.name == name {
            sum + r.quantity
        } else {
            sum
        };
    lemma_quantity_of_is_fold(a, name);
    lemma_quantity_of_is_fold(b, name);
    lemma_fold_left_permutation(a, b, f, 0nat);
}

/// Two lists with the same elements hold the same elements.
proof fn lemma_permutation_contains<A>(a: Seq<A>, b: Seq<A>)
    requires
        a.to_multiset() == b.to_multiset(),
    ensures
        forall|x: A| a.contains(x) <==> b.contains(x),
{
    assert forall|x: A| a.contains(x) <==> b.contains(x) by {
        vstd::seq_lib::to_multiset_contains(a, x);
        vstd::seq_lib::to_multiset_contains(b, x);
    }
}

/// Merging counted references gives the same list for every order of the
/// references: the same names, and for each name the same quantity and the
/// same flags.
pub proof fn lemma_merge_parts_permutation(a: Seq<PartRef>, b: Seq<PartRef>)
    requires
        a.to_multiset() == b.to_multiset(),
    ensures
        merge_parts(a) == merge_parts(b),
{
    lemma_permutation_contains(a, b);
    assert forall|x: Seq<char>| part_names(a).contains(x) <==> part_names(b).contains(x) by {
        if part_names(a).contains(x) {
            let i = choose|i: int| 0 <= i < a.len() && part_names(a)[i] == x;
            assert(a.contains(a[i]));
            let j = choose|j: int| 0 <= j < b.len() && b[j] == a[i];
            assert(part_names(b)[j] == x);
        }
        if part_names(b).contains(x) {
            let i = choose|i: int| 0 <= i < b.len() && part_names(b)[i] == x;
            assert(b.contains(b[i]));
            let j = choose|j: int| 0 <= j < a.len() && a[j] == b[i];
            assert(part_names(a)[j] == x);
        }
    }
    lemma_distinct_sorted_same_names(part_names(a), part_names(b));
    let names = distinct_sorted(part_names(a));
    assert forall|k: int| 0 <= k < names.len() implies merged_part(a, names[k]) == merged_part(
        b,
        names[k],
    ) by {
        let name = names[k];
        lemma_quantity_of_permutation(a, b, name);
        lemma_flags_same_elements(a, b, name);
    }
    assert(merge_parts(a) =~= merge_parts(b));
}

proof fn lemma_flags_same_elements(a: Seq<PartRef>, b: Seq<PartRef>, name: Seq<char>)
    requires
        forall|x: PartRef| a.contains(x) <==> b.contains(x),
    ensures
        parts_all_exclude_bom(a, name) == parts_all_exclude_bom(b, name),
        parts_all_exclude_overview(a, name) == parts_all_exclude_overview(b, name),
{
    lemma_flags_subset(a, b, name);
    lemma_flags_subset(b, a, name);
}

proof fn lemma_flags_subset(a: Seq<PartRef>, b: Seq<PartRef>, name: Seq<char>)
    requires
        forall|x: PartRef| a.contains(x) ==> b.contains(x),
    ensures
        parts_all_exclude_bom(b, name) ==> parts_all_exclude_bom(a, name),
        parts_all_exclude_overview(b, name) ==> parts_all_exclude_overview(a, name),
{
    if parts_all_exclude_bom(b, name) {
        assert forall|i: int| 0 <= i < a.len() && (#[trigger] a[i]).name == name implies a[i].exclude_from_bom by {
            assert(a.contains(a[i]));
            let j = choose|j: int| 0 <= j < b.len() && b[j] == a[i];
            assert(b[j].name == name);
        }
    }
    if parts_all_exclude_overview(b, name) {
        assert forall|i: int| 0 <= i < a.len() && (#[trigger] a[i]).name == name implies a[i].exclude_from_overview by {
            assert(a.contains(a[i]));
            let j = choose|j: int| 0 <= j < b.len() && b[j] == a[i];
            assert(b[j].name == name);
        }
    }
}

/// The merged list holds each name once, in ascending order, and a name
/// stands in it exactly if a reference has it.
pub proof fn lemma_merge_parts_names(refs: Seq<PartRef>)
    ensures
        part_names(merge_parts(refs)) == distinct_sorted(part_names(refs)),
        strictly_sorted(part_names(merge_parts(refs))),
        forall|name: Seq<char>| #[trigger]
            part_names(merge_parts(refs)).contains(name) <==> part_names(refs).contains(name),
{
    lemma_distinct_sorted(part_names(refs));
    assert(part_names(merge_parts(refs)) =~= distinct_sorted(part_names(refs)));
}

proof fn lemma_consumable_flags_subset(a: Seq<ConsumableRef>, b: Seq<ConsumableRef>, name: Seq<char>)
    requires
        forall|x: ConsumableRef| a.contains(x) ==> b.contains(x),
    ensures
        consumables_all_exclude_bom(b, name) ==> consumables_all_exclude_bom(a, name),
        consumables_all_exclude_overview(b, name) ==> consumables_all_exclude_overview(a, name),
{
    if consumables_all_exclude_bom(b, name) {
        assert forall|i: int| 0 <= i < a.len() && (#[trigger] a[i]).name == name implies a[i].exclude_from_bom by {
            assert(a.contains(a[i]));
            let j = choose|j: int| 0 <= j < b.len() && b[j] == a[i];
            assert(b[j].name == name);
        }
    }
    if consumables_all_exclude_overview(b, name) {
        assert forall|i: int| 0 <= i < a.len() && (#[trigger] a[i]).name == name implies a[i].exclude_from_overview by {
            assert(a.contains(a[i]));
            let j = choose|j: int| 0 <= j < b.len() && b[j] == a[i];
            assert(b[j].name == name);
        }
    }
}

/// Merging references to consumables gives the same list for every order of
/// the references.
pub proof fn lemma_merge_consumables_permutation(a: Seq<ConsumableRef>, b: Seq<ConsumableRef>)
    requires
        a.to_multiset() == b.to_multiset(),
    ensures
        merge_consumables(a) == merge_consumables(b),
{
    lemma_permutation_contains(a, b);
    assert forall|x: Seq<char>| consumable_names(a).contains(x) <==> consumable_names(b).contains(
        x,
    ) by {
        if consumable_names(a).contains(x) {
            let i = choose|i: int| 0 <= i < a.len() && consumable_names(a)[i] == x;
            assert(a.contains(a[i]));
            let j = choose|j: int| 0 <= j < b.len() && b[j] == a[i];
            assert(consumable_names(b)[j] == x);
        }
        if consumable_names(b).contains(x) {
            let i = choose|i: int| 0 <= i < b.len() && consumable_names(b)[i] == x;
            assert(b.contains(b[i]));
            let j = choose|j: int| 0 <= j < a.len() && a[j] == b[i];
            assert(consumable_names(a)[j] == x);
        }
    }
    lemma_distinct_sorted_same_names(consumable_names(a), consumable_names(b));
    let names = distinct_sorted(consumable_names(a));
    assert forall|k: int| 0 <= k < names.len() implies merged_consumable(a, names[k])
        == merged_consumable(b, names[k]) by {
        lemma_consumable_flags_subset(a, b, names[k]);
        lemma_consumable_flags_subset(b, a, names[k]);
    }
    assert(merge_consumables(a) =~= merge_consumables(b));
}

proof fn lemma_tool_flags_subset(a: Seq<ToolRef>, b: Seq<ToolRef>, name: Seq<char>)
    requires
        forall|x: ToolRef| a.contains(x) ==> b.contains(x),
    ensures
        tools_all_exclude_bom(b, name) ==> tools_all_exclude_bom(a, name),
        tools_all_exclude_overview(b, name) ==> tools_all_exclude_overview(a, name),
{
    if tools_all_exclude_bom(b, name) {
        assert forall|i: int| 0 <= i < a.len() && (#[trigger] a[i]).name == name implies a[i].exclude_from_bom by {
            assert(a.contains(a[i]));
            let j = choose|j: int| 0 <= j < b.len() && b[j] == a[i];
            assert(b[j].name == name);
        }
    }
    if tools_all_exclude_overview(b, name) {
        assert forall|i: int| 0 <= i < a.len() && (#[trigger] a[i]).name == name implies a[i].exclude_from_overview by {
            assert(a.contains(a[i]));
            let j = choose|j: int| 0 <= j < b.len() && b[j] == a[i];
            assert(b[j].name == name);
        }
    }
}

/// The settings of a name are those that its references give.
pub proof fn lemma_settings_of(refs: Seq<ToolRef>, name: Seq<char>, setting: Seq<char>)
    ensures
        settings_of(refs, name).contains(setting) <==> exists|i: int|
            0 <= i < refs.len() && gives_setting(#[trigger] refs[i], name) && refs[i].setting
                == Some(setting),
    decreases refs.len(),
{
    if refs.len() > 0 {
        let front = refs.drop_last();
        let last = refs.last();
        lemma_settings_of(front, name, setting);
        let all = settings_of(refs, name);
        let inner = settings_of(front, name);
        if all.contains(setting) {
            let k = choose|k: int| 0 <= k < all.len() && all[k] == setting;
            if k < inner.len() {
                assert(inner[k] == setting);
                assert(inner.contains(setting));
                let i = choose|i: int|
                    0 <= i < front.len() && gives_setting(#[trigger] front[i], name)
                        && front[i].setting == Some(setting);
                assert(refs[i] == front[i]);
            } else {
                assert(refs[refs.len() - 1] == last);
            }
        }
        if exists|i: int|
            0 <= i < refs.len() && gives_setting(#[trigger] refs[i], name) && refs[i].setting
                == Some(setting) {
            let i = choose|i: int|
                0 <= i < refs.len() && gives_setting(#[trigger] refs[i], name) && refs[i].setting
                    == Some(setting);
            if i < front.len() {
                assert(front[i] == refs[i]);
                assert(inner.contains(setting));
                let k = choose|k: int| 0 <= k < inner.len() && inner[k] == setting;
                assert(all[k] == setting);
            } else {
                assert(all[all.len() - 1] == setting);
            }
        }
    }
}

/// Merging references to tools gives the same list for every order of the
/// references: the same names, and for each name the same settings and the
/// same flags.
pub proof fn lemma_merge_tools_permutation(a: Seq<ToolRef>, b: Seq<ToolRef>)
    requires
        a.to_multiset() == b.to_multiset(),
    ensures
        merge_tools(a) == merge_tools(b),
{
    lemma_permutation_contains(a, b);
    assert forall|x: Seq<char>| tool_names(a).contains(x) <==> tool_names(b).contains(x) by {
        if tool_names(a).contains(x) {
            let i = choose|i: int| 0 <= i < a.len() && tool_names(a)[i] == x;
            assert(a.contains(a[i]));
            let j = choose|j: int| 0 <= j < b.len() && b[j] == a[i];
            assert(tool_names(b)[j] == x);
        }
        if tool_names(b).contains(x) {
            let i = choose|i: int| 0 <= i < b.len() && tool_names(b)[i] == x;
            assert(b.contains(b[i]));
            let j = choose|j: int| 0 <= j < a.len() && a[j] == b[i];
            assert(tool_names(a)[j] == x);
        }
    }
    lemma_distinct_sorted_same_names(tool_names(a), tool_names(b));
    let names = distinct_sorted(tool_names(a));
    assert forall|k: int| 0 <= k < names.len() implies merged_tool(a, names[k]) == merged_tool(
        b,
        names[k],
    ) by {
        let name = names[k];
        lemma_tool_flags_subset(a, b, name);
        lemma_tool_flags_subset(b, a, name);
        assert forall|s: Seq<char>| settings_of(a, name).contains(s) <==> settings_of(
            b,
            name,
        ).contains(s) by {
            lemma_settings_of(a, name, s);
            lemma_settings_of(b, name, s);
            if settings_of(a, name).contains(s) {
                let i = choose|i: int|
                    0 <= i < a.len() && gives_setting(#[trigger] a[i], name) && a[i].setting
                        == Some(s);
                assert(a.contains(a[i]));
                let j = choose|j: int| 0 <= j < b.len() && b[j] == a[i];
                assert(gives_setting(b[j], name) && b[j].setting == Some(s));
            }
            if settings_of(b, name).contains(s) {
                let i = choose|i: int|
                    0 <= i < b.len() && gives_setting(#[trigger] b[i], name) && b[i].setting
                        == Some(s);
                assert(b.contains(b[i]));
                let j = choose|j: int| 0 <= j < a.len() && a[j] == b[i];
                assert(gives_setting(a[j], name) && a[j].setting == Some(s));
            }
        }
        lemma_distinct_sorted_same_names(settings_of(a, name), settings_of(b, name));
    }
    assert(merge_tools(a) =~= merge_tools(b));
}

/// A merged reference of a name holds the sum of the quantities of the
/// references to the name, and each flag exactly if every reference to the
/// name sets it.
pub proof fn lemma_merge_parts_entry(refs: Seq<PartRef>, at: int)
    requires
        0 <= at < merge_parts(refs).len(),
    ensures
        part_names(refs).contains(merge_parts(refs)[at].name),
        merge_parts(refs)[at] == merged_part(refs, merge_parts(refs)[at].name),
{
    lemma_distinct_sorted(part_names(refs));
    let names = distinct_sorted(part_names(refs));
    assert(names.contains(names[at]));
}

} // verus!
