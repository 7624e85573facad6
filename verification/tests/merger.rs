use mdbook_bom::merge::{combine_parts, deduplicate_consumables, deduplicate_tools, parts_fit};
use mdbook_bom::schema::{ConsumableReference, PartReference, ToolReference};

fn part(name: &str, quantity: u32, exclude_from_bom: bool, exclude_from_overview: bool) -> PartReference {
    PartReference { name: name.to_string(), quantity, exclude_from_bom, exclude_from_overview }
}

fn consumable(name: &str, exclude_from_bom: bool, exclude_from_overview: bool) -> ConsumableReference {
    ConsumableReference { name: name.to_string(), exclude_from_bom, exclude_from_overview }
}

fn tool(name: &str, setting: Option<&str>) -> ToolReference {
    ToolReference {
        name: name.to_string(),
        setting: setting.map(|s| s.to_string()),
        exclude_from_bom: false,
        exclude_from_overview: false,
    }
}

fn part_tuples(parts: &[PartReference]) -> Vec<(String, u32, bool, bool)> {
    parts
        .iter()
        .map(|p| (p.name.clone(), p.quantity, p.exclude_from_bom, p.exclude_from_overview))
        .collect()
}

#[test]
fn merged_quantities_add_up_and_one_inclusion_wins() {
    let merged = combine_parts(&vec![part("X", 2, true, false), part("X", 3, false, false)]);
    assert_eq!(part_tuples(&merged), vec![("X".to_string(), 5, false, false)]);
}

#[test]
fn a_flag_stays_where_every_reference_sets_it() {
    let merged = combine_parts(&vec![
        part("X", 2, true, true),
        part("Y", 1, false, true),
        part("X", 3, true, false),
    ]);
    assert_eq!(
        part_tuples(&merged),
        vec![("X".to_string(), 5, true, false), ("Y".to_string(), 1, false, true)]
    );
}

#[test]
fn merging_nothing_gives_nothing() {
    assert!(combine_parts(&vec![]).is_empty());
    assert!(deduplicate_consumables(&vec![]).is_empty());
    assert!(deduplicate_tools(&vec![]).is_empty());
}

#[test]
fn merged_parts_stand_by_name() {
    let merged = combine_parts(&vec![
        part("b", 1, false, false),
        part("a", 1, false, false),
        part("B", 1, false, false),
        part("ab", 1, false, false),
        part("", 1, false, false),
        part("é", 1, false, false),
    ]);
    let names: Vec<&str> = merged.iter().map(|p| p.name.as_str()).collect();
    assert_eq!(names, vec!["", "B", "a", "ab", "b", "é"]);
}

#[test]
fn the_order_of_the_references_does_not_change_the_merge() {
    let a = part("M3x10", 4, false, true);
    let b = part("M4 nut", 1, true, true);
    let c = part("M3x10", 6, true, true);
    let d = part("M4 nut", 2, true, false);
    let orders: Vec<Vec<&PartReference>> = vec![
        vec![&a, &b, &c, &d],
        vec![&d, &c, &b, &a],
        vec![&c, &a, &d, &b],
        vec![&b, &d, &a, &c],
    ];
    let expected =
        vec![("M3x10".to_string(), 10, false, true), ("M4 nut".to_string(), 3, true, false)];
    for order in orders {
        let list: Vec<PartReference> = order.into_iter().cloned().collect();
        assert_eq!(part_tuples(&combine_parts(&list)), expected);
    }
}

#[test]
fn a_quantity_of_zero_still_makes_an_entry() {
    let merged = combine_parts(&vec![part("X", 0, false, false)]);
    assert_eq!(part_tuples(&merged), vec![("X".to_string(), 0, false, false)]);
}

#[test]
fn quantities_fit_up_to_the_largest_number() {
    assert!(parts_fit(&vec![part("X", u32::MAX - 1, false, false), part("X", 1, false, false)]));
    assert!(!parts_fit(&vec![part("X", u32::MAX, false, false), part("X", 1, false, false)]));
    assert!(parts_fit(&vec![part("X", u32::MAX, false, false), part("Y", 1, false, false)]));
    let merged = combine_parts(&vec![part("X", u32::MAX - 1, false, false), part("X", 1, false, false)]);
    assert_eq!(merged[0].quantity, u32::MAX);
}

#[test]
fn consumables_are_listed_once() {
    let merged = deduplicate_consumables(&vec![
        consumable("Flux", true, false),
        consumable("Glue", false, false),
        consumable("Flux", false, true),
        consumable("Flux", true, true),
    ]);
    let got: Vec<(String, bool, bool)> = merged
        .iter()
        .map(|c| (c.name.clone(), c.exclude_from_bom, c.exclude_from_overview))
        .collect();
    assert_eq!(got, vec![("Flux".to_string(), false, false), ("Glue".to_string(), false, false)]);
}

#[test]
fn the_settings_of_a_tool_are_joined_each_once() {
    let merged = deduplicate_tools(&vec![
        tool("Driver", Some("Low")),
        tool("Driver", Some("High")),
        tool("Driver", Some("Low")),
        tool("Driver", None),
        tool("Driver", Some("")),
        tool("Wrench", None),
        tool("Pliers", Some("")),
    ]);
    let got: Vec<(String, Option<String>)> =
        merged.iter().map(|t| (t.name.clone(), t.setting.clone())).collect();
    assert_eq!(
        got,
        vec![
            ("Driver".to_string(), Some("High, Low".to_string())),
            ("Pliers".to_string(), None),
            ("Wrench".to_string(), None),
        ]
    );
}

#[test]
fn the_settings_of_a_tool_do_not_depend_on_the_order() {
    let one = deduplicate_tools(&vec![tool("Driver", Some("Low")), tool("Driver", Some("High"))]);
    let other = deduplicate_tools(&vec![tool("Driver", Some("High")), tool("Driver", Some("Low"))]);
    assert_eq!(one[0].setting, Some("High, Low".to_string()));
    assert_eq!(other[0].setting, Some("High, Low".to_string()));
}
