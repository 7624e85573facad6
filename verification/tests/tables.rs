use mdbook_bom::inventory::{Inventory, InventoryRecord, InventorySource};
use mdbook_bom::render::{
    generate_consumables_table, generate_custom_parts_table, generate_electronics_table,
    generate_fasteners_table, generate_show_all_button, generate_tools_table, render_parts_table,
    PartCategory,
};
use mdbook_bom::schema::{ConsumableReference, PartReference, ToolReference};

fn record(name: &str, description: Option<&str>, brand: Option<&str>) -> InventoryRecord {
    InventoryRecord {
        name: name.to_string(),
        description: description.map(|s| s.to_string()),
        brand: brand.map(|s| s.to_string()),
    }
}

fn inventory() -> Inventory {
    Inventory::load(InventorySource::Workbook {
        hardware: vec![
            record("M3x10", Some("M3 screw, 10mm"), None),
            record("M4 nut", None, None),
        ],
        electronics: vec![record("LED", Some("Red LED"), None)],
        custom_parts: vec![record("Bracket", Some("Printed bracket"), None)],
        consumables: vec![record("Glue", Some("Wood glue"), None)],
        tools: vec![record("Driver", None, Some("Acme")), record("Wrench", None, None)],
        subassemblies: vec![record("Frame", Some("Base frame"), None)],
        assemblies: vec![],
    })
}

fn part(name: &str, quantity: u32) -> PartReference {
    PartReference {
        name: name.to_string(),
        quantity,
        exclude_from_bom: false,
        exclude_from_overview: false,
    }
}

fn consumable(name: &str, exclude_from_bom: bool) -> ConsumableReference {
    ConsumableReference { name: name.to_string(), exclude_from_bom, exclude_from_overview: false }
}

fn tool(name: &str, setting: Option<&str>) -> ToolReference {
    ToolReference {
        name: name.to_string(),
        setting: setting.map(|s| s.to_string()),
        exclude_from_bom: false,
        exclude_from_overview: false,
    }
}

#[test]
fn an_empty_list_gives_no_table() {
    let inventory = inventory();
    assert_eq!(generate_fasteners_table(&vec![], &inventory, "step_1"), "");
    assert_eq!(generate_electronics_table(&vec![], &inventory, "step_1"), "");
    assert_eq!(generate_custom_parts_table(&vec![], &inventory, "step_1"), "");
    assert_eq!(generate_consumables_table(&vec![], &inventory, "step_1"), "");
    assert_eq!(generate_tools_table(&vec![], &inventory, "step_1"), "");
    for category in [
        PartCategory::Hardware,
        PartCategory::Electronics,
        PartCategory::CustomParts,
        PartCategory::Subassemblies,
        PartCategory::Assemblies,
        PartCategory::ProducedSubassemblies,
        PartCategory::ProducedAssemblies,
    ] {
        assert_eq!(render_parts_table(category, &vec![], category.catalog(&inventory), "overview"), "");
    }
}

#[test]
fn the_fasteners_table_lists_by_name_with_descriptions_and_quantities() {
    let table = generate_fasteners_table(
        &vec![part("Washer", 12), part("M4 nut", 0), part("M3x10", 4294967295), part("M3x10", 7)],
        &inventory(),
        "step_2",
    );
    let expected = "<details id=\"hardware-step_2\">\n\
<summary><strong>🔩 Hardware</strong></summary>\n\
<br>\n\
<table style=\"margin: 0;\">\n\
<thead>\n\
<tr><th>Name</th><th>Description</th><th>Quantity</th></tr>\n\
</thead>\n\
<tbody>\n\
<tr><td>M3x10</td><td>M3 screw, 10mm</td><td>4294967295</td></tr>\n\
<tr><td>M3x10</td><td>M3 screw, 10mm</td><td>7</td></tr>\n\
<tr><td>M4 nut</td><td>-</td><td>0</td></tr>\n\
<tr><td>Washer</td><td>Hardware not found in inventory</td><td>12</td></tr>\n\
</tbody>\n\
</table>\n\
<br>\n\
</details>\n\n";
    assert_eq!(table, expected);
}

#[test]
fn each_category_has_its_label_and_its_sentence_for_what_is_not_found() {
    let inventory = inventory();
    let list = vec![part("Nothing", 10)];
    let electronics = generate_electronics_table(&list, &inventory, "s");
    assert!(electronics.starts_with("<details id=\"electronics-s\">\n<summary><strong>🔌 Electronics</strong>"));
    assert!(electronics.contains("<tr><td>Nothing</td><td>Electronic component not found in inventory</td><td>10</td></tr>\n"));
    let custom = generate_custom_parts_table(&list, &inventory, "s");
    assert!(custom.starts_with("<details id=\"custom_parts-s\">\n<summary><strong>⚙️ Custom Parts</strong>"));
    assert!(custom.contains("<td>Custom part not found in inventory</td>"));
    let sub = render_parts_table(PartCategory::Subassemblies, &list, &inventory.subassemblies, "s");
    assert!(sub.starts_with("<details id=\"subassemblies-s\">\n<summary><strong>🧩 Subassemblies</strong>"));
    assert!(sub.contains("<td>Subassembly not found in inventory</td>"));
    let assemblies = render_parts_table(PartCategory::Assemblies, &list, &inventory.assemblies, "s");
    assert!(assemblies.starts_with("<details id=\"assemblies-s\">\n<summary><strong>📦 Assemblies</strong>"));
    assert!(assemblies.contains("<td>Assembly not found in inventory</td>"));
    let produced = render_parts_table(
        PartCategory::ProducedSubassemblies,
        &vec![part("Frame", 1)],
        &inventory.subassemblies,
        "s",
    );
    assert!(produced.starts_with("<details id=\"produced_subassemblies-s\">"));
    assert!(produced.contains("<tr><td>Frame</td><td>Base frame</td><td>1</td></tr>\n"));
}

#[test]
fn the_consumables_table_has_no_quantities() {
    let table = generate_consumables_table(
        &vec![consumable("Glue", false), consumable("Flux", true)],
        &inventory(),
        "step_1",
    );
    let expected = "<details id=\"consumables-step_1\">\n\
<summary><strong>🧪 Consumables</strong></summary>\n\
<br>\n\
<table style=\"margin: 0;\">\n\
<thead>\n\
<tr><th>Name</th><th>Description</th></tr>\n\
</thead>\n\
<tbody>\n\
<tr><td>Flux</td><td>Consumable not found in inventory</td></tr>\n\
<tr><td>Glue</td><td>Wood glue</td></tr>\n\
</tbody>\n\
</table>\n\
<br>\n\
</details>\n\n";
    assert_eq!(table, expected);
}

#[test]
fn the_tools_table_shows_setting_and_brand() {
    let table = generate_tools_table(
        &vec![tool("Wrench", None), tool("Driver", Some("Low")), tool("Saw", Some("Fast"))],
        &inventory(),
        "overview",
    );
    let expected = "<details id=\"tools-overview\">\n\
<summary><strong>🔧 Tools</strong></summary>\n\
<br>\n\
<table style=\"margin: 0;\">\n\
<thead>\n\
<tr><th>Name</th><th>Setting</th><th>Brand</th></tr>\n\
</thead>\n\
<tbody>\n\
<tr><td>Driver</td><td>Low</td><td>Acme</td></tr>\n\
<tr><td>Saw</td><td>Fast</td><td>Tool not found in inventory</td></tr>\n\
<tr><td>Wrench</td><td>-</td><td>-</td></tr>\n\
</tbody>\n\
</table>\n\
<br>\n\
</details>\n\n";
    assert_eq!(table, expected);
}

#[test]
fn the_control_that_opens_all_tables_names_its_section() {
    let button = generate_show_all_button("step_7");
    assert!(button.starts_with("\n<button onclick=\"toggleAllTables('step_7')\" class=\"bom-show-all-button\""));
    assert!(button.ends_with("</script>"));
    assert!(button.contains("document.getElementById('produced_assemblies-' + sectionId)"));
    assert_eq!(button.matches("step_7").count(), 1);
}

#[test]
fn the_categories_of_the_inventory_are_apart() {
    let inventory = Inventory::load(InventorySource::Workbook {
        hardware: vec![record("Same", Some("a fastener"), None)],
        electronics: vec![record("Same", Some("an electronic part"), None)],
        custom_parts: vec![],
        consumables: vec![],
        tools: vec![],
        subassemblies: vec![],
        assemblies: vec![],
    });
    let list = vec![part("Same", 1)];
    assert!(generate_fasteners_table(&list, &inventory, "s").contains("<td>a fastener</td>"));
    assert!(generate_electronics_table(&list, &inventory, "s").contains("<td>an electronic part</td>"));
    assert!(generate_custom_parts_table(&list, &inventory, "s").contains("<td>Custom part not found in inventory</td>"));
}

#[test]
fn a_later_row_of_the_inventory_takes_the_place_of_an_earlier_one() {
    let inventory = Inventory::load(InventorySource::Workbook {
        hardware: vec![
            record("M3x10", Some("first"), None),
            record("M3x10", Some("second"), None),
        ],
        electronics: vec![],
        custom_parts: vec![],
        consumables: vec![],
        tools: vec![],
        subassemblies: vec![],
        assemblies: vec![],
    });
    let found = inventory.fasteners.lookup("M3x10").expect("the record is there");
    assert_eq!(found.description.as_deref(), Some("second"));
    assert!(inventory.fasteners.lookup("M3x12").is_none());
    assert!(inventory.fasteners.contains("M3x10"));
    assert!(!inventory.electronics.contains("M3x10"));
}

#[test]
fn the_older_tables_fill_three_categories() {
    let inventory = Inventory::load(InventorySource::Tables {
        parts: vec![record("M3x10", Some("M3 screw, 10mm"), None)],
        consumables: vec![record("Glue", None, None)],
        tools: vec![record("Driver", None, Some("Acme"))],
    });
    assert!(inventory.fasteners.contains("M3x10"));
    assert!(inventory.consumables.contains("Glue"));
    assert_eq!(inventory.tools.lookup("Driver").unwrap().brand_text(), "Acme");
    assert_eq!(inventory.consumables.lookup("Glue").unwrap().description_text(), "-");
    assert!(!inventory.electronics.contains("M3x10"));
    assert!(!inventory.custom_parts.contains("M3x10"));
    assert!(!inventory.subassemblies.contains("M3x10"));
    assert!(!inventory.assemblies.contains("M3x10"));
    let direct = Inventory::load_from_csv(
        vec![record("M3x10", None, None)],
        vec![],
        vec![],
    );
    assert!(direct.fasteners.contains("M3x10"));
    assert!(!direct.tools.contains("Driver"));
}
