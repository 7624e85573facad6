use mdbook_bom::aggregate::{accumulate_chapter, chapter_within_limits, Bom};
use mdbook_bom::bom::{accumulate_custom_parts, accumulate_electronics, accumulate_fasteners, accumulation_within_limits, PartLedger};
use mdbook_bom::bom_consumables::{accumulate_consumables, ConsumableLedger};
use mdbook_bom::bom_tools::{accumulate_tools, ToolLedger};
use mdbook_bom::export::{export_sheets, sheet_csv, Cell, Sheet};
use mdbook_bom::inventory::{Inventory, InventoryRecord, InventorySource};
use mdbook_bom::render::generate_consumables_table;
use mdbook_bom::schema::{
    ConsumableReference, OutputReference, PartReference, Section, SectionInput, SectionMetadata,
    SectionOutput, ToolReference,
};

fn record(name: &str, description: Option<&str>, brand: Option<&str>) -> InventoryRecord {
    InventoryRecord {
        name: name.to_string(),
        description: description.map(|s| s.to_string()),
        brand: brand.map(|s| s.to_string()),
    }
}

fn inventory() -> Inventory {
    Inventory::load(InventorySource::Workbook {
        hardware: vec![
            record("M3x10", Some("M3 screw, 10mm"), None),
            record("M4 nut", Some("A nut"), None),
            record("Washer", None, None),
        ],
        electronics: vec![record("LED", Some("Red LED"), None)],
        custom_parts: vec![record("Bracket", Some("Printed bracket"), None)],
        consumables: vec![record("Flux", Some("Solder flux"), None), record("Glue", Some("A glue"), None)],
        tools: vec![record("Driver", None, Some("Acme")), record("Wrench", None, None)],
        subassemblies: vec![record("Frame", Some("Base frame"), None)],
        assemblies: vec![record("Robot", None, None)],
    })
}

fn part(name: &str, quantity: u32, exclude_from_bom: bool) -> PartReference {
    PartReference { name: name.to_string(), quantity, exclude_from_bom, exclude_from_overview: false }
}

fn consumable(name: &str, exclude_from_bom: bool) -> ConsumableReference {
    ConsumableReference { name: name.to_string(), exclude_from_bom, exclude_from_overview: false }
}

fn tool(name: &str, setting: Option<&str>, exclude_from_bom: bool) -> ToolReference {
    ToolReference {
        name: name.to_string(),
        setting: setting.map(|s| s.to_string()),
        exclude_from_bom,
        exclude_from_overview: false,
    }
}

fn entries(ledger: &PartLedger) -> Vec<(String, String, u32)> {
    ledger
        .items()
        .iter()
        .map(|i| (i.name.clone(), i.description.clone(), i.total_quantity))
        .collect()
}

fn tool_entries(ledger: &ToolLedger) -> Vec<(String, String, Vec<String>)> {
    ledger.items().iter().map(|i| (i.name.clone(), i.brand.clone(), i.settings.clone())).collect()
}

fn bom_entries(bom: &Bom) -> Vec<Vec<(String, String, u32)>> {
    vec![
        entries(&bom.fasteners),
        entries(&bom.electronics),
        entries(&bom.custom_parts),
        entries(&bom.subassemblies),
        entries(&bom.assemblies),
    ]
}

fn hardware_section(key: &str, hardware: Vec<PartReference>) -> Section {
    let mut input = SectionInput::new();
    input.hardware = hardware;
    Section { key: key.to_string(), metadata: SectionMetadata { input, output: SectionOutput::new() } }
}

#[test]
fn two_sections_add_up_to_one_entry() {
    let inventory = inventory();
    let mut ledger = PartLedger::new();
    accumulate_fasteners(&vec![part("M3x10", 4, false)], &inventory, &mut ledger);
    accumulate_fasteners(&vec![part("M3x10", 6, false)], &inventory, &mut ledger);
    assert_eq!(
        entries(&ledger),
        vec![("M3x10".to_string(), "M3 screw, 10mm".to_string(), 10)]
    );
    assert_eq!(ledger.len(), 1);
    assert_eq!(ledger.position("M3x10"), Some(0));
    assert_eq!(ledger.position("M3x12"), None);
    assert_eq!(ledger.get("M3x10").unwrap().total_quantity, 10);
    assert!(ledger.get("M4 nut").is_none());
}

#[test]
fn a_name_that_the_inventory_lacks_makes_no_entry_but_has_its_row() {
    let inventory = inventory();
    let list = vec![part("Unknown", 3, false), part("M4 nut", 2, false)];
    let mut ledger = PartLedger::new();
    accumulate_fasteners(&list, &inventory, &mut ledger);
    assert_eq!(entries(&ledger), vec![("M4 nut".to_string(), "A nut".to_string(), 2)]);
    let table = mdbook_bom::render::generate_fasteners_table(&list, &inventory, "s");
    assert!(table.contains("<tr><td>Unknown</td><td>Hardware not found in inventory</td><td>3</td></tr>\n"));

    let mut tools = ToolLedger::new();
    accumulate_tools(&vec![tool("Saw", Some("Fast"), false)], &inventory, &mut tools);
    assert_eq!(tools.len(), 0);
    let mut consumables = ConsumableLedger::new();
    accumulate_consumables(&vec![consumable("Tape", false)], &inventory, &mut consumables);
    assert_eq!(consumables.len(), 0);
}

#[test]
fn an_excluded_consumable_makes_no_entry_but_has_its_row() {
    let inventory = inventory();
    let list = vec![consumable("Flux", true)];
    let mut ledger = ConsumableLedger::new();
    accumulate_consumables(&list, &inventory, &mut ledger);
    assert!(ledger.items().is_empty());
    assert!(ledger.get("Flux").is_none());
    let table = generate_consumables_table(&list, &inventory, "step_1");
    assert!(table.contains("<tr><td>Flux</td><td>Solder flux</td></tr>\n"));
    let without = Inventory::load(InventorySource::Tables { parts: vec![], consumables: vec![], tools: vec![] });
    let table = generate_consumables_table(&list, &without, "step_1");
    assert!(table.contains("<tr><td>Flux</td><td>Consumable not found in inventory</td></tr>\n"));
}

#[test]
fn excluded_references_add_nothing_to_a_total() {
    let inventory = inventory();
    let mut ledger = PartLedger::new();
    accumulate_fasteners(
        &vec![part("M3x10", 4, true), part("M3x10", 6, false), part("Washer", 1, true), part("M4 nut", 0, false)],
        &inventory,
        &mut ledger,
    );
    assert_eq!(
        entries(&ledger),
        vec![
            ("M3x10".to_string(), "M3 screw, 10mm".to_string(), 6),
            ("M4 nut".to_string(), "A nut".to_string(), 0),
        ]
    );
}

#[test]
fn each_category_is_looked_up_in_its_own_catalog() {
    let inventory = inventory();
    let list = vec![part("LED", 2, false), part("Bracket", 3, false), part("M3x10", 1, false)];
    let mut electronics = PartLedger::new();
    accumulate_electronics(&list, &inventory, &mut electronics);
    assert_eq!(entries(&electronics), vec![("LED".to_string(), "Red LED".to_string(), 2)]);
    let mut custom = PartLedger::new();
    accumulate_custom_parts(&list, &inventory, &mut custom);
    assert_eq!(entries(&custom), vec![("Bracket".to_string(), "Printed bracket".to_string(), 3)]);
}

#[test]
fn a_consumable_is_entered_once() {
    let inventory = inventory();
    let mut ledger = ConsumableLedger::new();
    accumulate_consumables(&vec![consumable("Glue", false), consumable("Flux", false)], &inventory, &mut ledger);
    accumulate_consumables(&vec![consumable("Glue", false)], &inventory, &mut ledger);
    let got: Vec<(String, String)> =
        ledger.items().iter().map(|i| (i.name.clone(), i.description.clone())).collect();
    assert_eq!(
        got,
        vec![("Flux".to_string(), "Solder flux".to_string()), ("Glue".to_string(), "A glue".to_string())]
    );
    assert_eq!(ledger.position("Glue"), Some(1));
}

#[test]
fn the_settings_of_a_tool_are_collected_each_once() {
    let inventory = inventory();
    let mut ledger = ToolLedger::new();
    accumulate_tools(
        &vec![tool("Driver", Some("Low"), false), tool("Wrench", None, false), tool("Driver", Some("Off"), true)],
        &inventory,
        &mut ledger,
    );
    accumulate_tools(
        &vec![tool("Driver", Some("High"), false), tool("Driver", Some("Low"), false), tool("Driver", None, false)],
        &inventory,
        &mut ledger,
    );
    assert_eq!(
        tool_entries(&ledger),
        vec![
            ("Driver".to_string(), "Acme".to_string(), vec!["High".to_string(), "Low".to_string()]),
            ("Wrench".to_string(), "-".to_string(), vec![]),
        ]
    );
    assert_eq!(ledger.get("Driver").unwrap().brand, "Acme");
    assert_eq!(ledger.position("Wrench"), Some(1));
}

#[test]
fn the_order_of_the_chapters_does_not_change_the_bill() {
    let inventory = inventory();
    let mut a_input = SectionInput::new();
    a_input.hardware = vec![part("M3x10", 4, false), part("Washer", 2, false)];
    a_input.electronics = vec![part("LED", 1, false)];
    a_input.tools = vec![tool("Driver", Some("Low"), false)];
    a_input.consumables = vec![consumable("Glue", false)];
    a_input.subassemblies = vec![part("Frame", 1, false)];
    let a = vec![Section {
        key: "step_1".to_string(),
        metadata: SectionMetadata { input: a_input, output: SectionOutput::new() },
    }];
    let mut b_input = SectionInput::new();
    b_input.hardware = vec![part("M4 nut", 1, false), part("M3x10", 6, false)];
    b_input.custom_parts = vec![part("Bracket", 2, false)];
    b_input.tools = vec![tool("Driver", Some("High"), false), tool("Wrench", None, false)];
    b_input.consumables = vec![consumable("Flux", false)];
    b_input.assemblies = vec![part("Robot", 1, false)];
    let mut b_output = SectionOutput::new();
    b_output.assemblies = vec![OutputReference { name: "Robot".to_string(), quantity: 5, exclude_from_overview: false }];
    let b = vec![
        hardware_section("step_1", vec![part("Washer", 1, false)]),
        Section { key: "step_2".to_string(), metadata: SectionMetadata { input: b_input, output: b_output } },
    ];

    let mut one = Bom::new();
    accumulate_chapter(&a, &inventory, &mut one);
    accumulate_chapter(&b, &inventory, &mut one);
    let mut other = Bom::new();
    accumulate_chapter(&b, &inventory, &mut other);
    accumulate_chapter(&a, &inventory, &mut other);

    assert_eq!(bom_entries(&one), bom_entries(&other));
    assert_eq!(tool_entries(&one.tools), tool_entries(&other.tools));
    assert_eq!(
        entries(&one.fasteners),
        vec![
            ("M3x10".to_string(), "M3 screw, 10mm".to_string(), 10),
            ("M4 nut".to_string(), "A nut".to_string(), 1),
            ("Washer".to_string(), "-".to_string(), 3),
        ]
    );
    assert_eq!(entries(&one.assemblies), vec![("Robot".to_string(), "-".to_string(), 1)]);
    assert_eq!(entries(&one.subassemblies), vec![("Frame".to_string(), "Base frame".to_string(), 1)]);
    assert_eq!(
        tool_entries(&one.tools),
        vec![
            ("Driver".to_string(), "Acme".to_string(), vec!["High".to_string(), "Low".to_string()]),
            ("Wrench".to_string(), "-".to_string(), vec![]),
        ]
    );
    let names: Vec<String> = one.consumables.items().iter().map(|i| i.name.clone()).collect();
    let other_names: Vec<String> = other.consumables.items().iter().map(|i| i.name.clone()).collect();
    assert_eq!(names, vec!["Flux".to_string(), "Glue".to_string()]);
    assert_eq!(names, other_names);
    let sheets: Vec<String> = export_sheets(&one).iter().map(sheet_csv).collect();
    let other_sheets: Vec<String> = export_sheets(&other).iter().map(sheet_csv).collect();
    assert_eq!(sheets, other_sheets);
}

#[test]
fn totals_are_tested_against_the_largest_number() {
    let inventory = inventory();
    let mut ledger = PartLedger::new();
    let most = vec![part("M3x10", u32::MAX - 1, false)];
    assert!(accumulation_within_limits(&most, &inventory.fasteners, &ledger));
    accumulate_fasteners(&most, &inventory, &mut ledger);
    assert!(accumulation_within_limits(&vec![part("M3x10", 1, false)], &inventory.fasteners, &ledger));
    assert!(!accumulation_within_limits(&vec![part("M3x10", 2, false)], &inventory.fasteners, &ledger));
    assert!(accumulation_within_limits(&vec![part("M3x10", 2, true)], &inventory.fasteners, &ledger));
    assert!(accumulation_within_limits(&vec![part("Unknown", u32::MAX, false), part("Unknown", 5, false)], &inventory.fasteners, &ledger));
    assert!(accumulation_within_limits(&vec![part("M4 nut", u32::MAX, false)], &inventory.fasteners, &ledger));
    assert!(!accumulation_within_limits(&vec![part("M4 nut", u32::MAX, false), part("M4 nut", 1, false)], &inventory.fasteners, &ledger));
    accumulate_fasteners(&vec![part("M3x10", 1, false)], &inventory, &mut ledger);
    assert_eq!(ledger.get("M3x10").unwrap().total_quantity, u32::MAX);

    let mut bom = Bom::new();
    let chapter = vec![hardware_section("step_1", vec![part("M3x10", u32::MAX, false)])];
    assert!(chapter_within_limits(&chapter, &inventory, &bom));
    accumulate_chapter(&chapter, &inventory, &mut bom);
    assert!(!chapter_within_limits(&vec![hardware_section("step_1", vec![part("M3x10", 1, false)])], &inventory, &bom));
    assert!(chapter_within_limits(&vec![hardware_section("step_1", vec![part("Washer", 1, false)])], &inventory, &bom));
}

fn texts(sheet: &Sheet) -> Vec<Vec<String>> {
    sheet
        .rows
        .iter()
        .map(|row| {
            row.iter()
                .map(|cell| match cell {
                    Cell::Text(t) => t.clone(),
                    Cell::Number(n) => format!("#{}", n),
                })
                .collect()
        })
        .collect()
}

#[test]
fn the_sheets_stand_in_their_order_with_their_rows_sorted() {
    let inventory = Inventory::load(InventorySource::Workbook {
        hardware: vec![
            record("a", Some("zinc"), None),
            record("b", Some("brass"), None),
            record("c", Some("zinc"), None),
            record("d", None, None),
        ],
        electronics: vec![],
        custom_parts: vec![record("x", Some("only"), None)],
        consumables: vec![record("k", Some("late"), None), record("m", Some("early"), None)],
        tools: vec![record("t2", None, Some("Zeta")), record("t1", None, Some("Alpha"))],
        subassemblies: vec![record("s2", Some("a"), None), record("s1", Some("b"), None)],
        assemblies: vec![],
    });
    let mut input = SectionInput::new();
    input.hardware = vec![part("c", 3, false), part("a", 1, false), part("d", 4, false), part("b", 2, false)];
    input.custom_parts = vec![part("x", 9, false)];
    input.consumables = vec![consumable("k", false), consumable("m", false)];
    input.tools = vec![tool("t2", Some("s"), false), tool("t1", None, false)];
    input.subassemblies = vec![part("s2", 1, false), part("s1", 2, false)];
    let chapter = vec![Section {
        key: "step_1".to_string(),
        metadata: SectionMetadata { input, output: SectionOutput::new() },
    }];
    let mut bom = Bom::new();
    accumulate_chapter(&chapter, &inventory, &mut bom);
    let sheets = export_sheets(&bom);
    let names: Vec<&str> = sheets.iter().map(|s| s.name.as_str()).collect();
    assert_eq!(names, vec!["Hardware", "Custom Parts", "Subassemblies", "Tools", "Consumables"]);
    assert_eq!(sheets[0].header, vec!["Part Number", "Description", "Quantity"]);
    assert_eq!(
        texts(&sheets[0]),
        vec![
            vec!["d", "-", "#4"],
            vec!["b", "brass", "#2"],
            vec!["a", "zinc", "#1"],
            vec!["c", "zinc", "#3"],
        ]
    );
    assert_eq!(sheets[1].header, vec!["Name", "Description", "Quantity"]);
    assert_eq!(texts(&sheets[1]), vec![vec!["x", "only", "#9"]]);
    assert_eq!(sheets[2].header, vec!["Name", "Description", "Quantity"]);
    assert_eq!(texts(&sheets[2]), vec![vec!["s1", "b", "#2"], vec!["s2", "a", "#1"]]);
    assert_eq!(sheets[3].header, vec!["Name", "Brand"]);
    assert_eq!(texts(&sheets[3]), vec![vec!["t1", "Alpha"], vec!["t2", "Zeta"]]);
    assert_eq!(sheets[4].header, vec!["Name", "Description"]);
    assert_eq!(texts(&sheets[4]), vec![vec!["m", "early"], vec!["k", "late"]]);
    assert_eq!(
        sheet_csv(&sheets[0]),
        "Part Number,Description,Quantity\n\"d\",\"-\",4\n\"b\",\"brass\",2\n\"a\",\"zinc\",1\n\"c\",\"zinc\",3\n"
    );
    assert_eq!(sheet_csv(&sheets[3]), "Name,Brand\n\"t1\",\"Alpha\"\n\"t2\",\"Zeta\"\n");
    assert!(export_sheets(&Bom::new()).is_empty());
}
