use mdbook_bom::front_matter::{extract_front_matter, remove_front_matter};
use mdbook_bom::headings::{find_step_headers, key_of_step, line_is_subheading, line_is_title, line_step_key};
use mdbook_bom::inventory::{Inventory, InventoryRecord, InventorySource};
use mdbook_bom::overview::generate_overview_tables;
use mdbook_bom::rewrite::{insert_section_tables, insert_tables_at};
use mdbook_bom::schema::{
    ConsumableReference, OutputReference, PartReference, Section, SectionInput, SectionMetadata,
    SectionOutput, ToolReference,
};
use mdbook_bom::text::{join, lines_of, str_eq, str_lt};

fn record(name: &str, description: Option<&str>, brand: Option<&str>) -> InventoryRecord {
    InventoryRecord {
        name: name.to_string(),
        description: description.map(|s| s.to_string()),
        brand: brand.map(|s| s.to_string()),
    }
}

fn inventory() -> Inventory {
    Inventory::load(InventorySource::Workbook {
        hardware: vec![record("M3x10", Some("M3 screw, 10mm"), None)],
        electronics: vec![],
        custom_parts: vec![],
        consumables: vec![record("Glue", Some("Wood glue"), None)],
        tools: vec![record("Driver", None, Some("Acme"))],
        subassemblies: vec![record("Frame", Some("Base frame"), None)],
        assemblies: vec![],
    })
}

fn part(name: &str, quantity: u32) -> PartReference {
    PartReference {
        name: name.to_string(),
        quantity,
        exclude_from_bom: false,
        exclude_from_overview: false,
    }
}

fn section(key: &str, hardware: Vec<PartReference>, produced: Vec<OutputReference>) -> Section {
    let mut input = SectionInput::new();
    input.hardware = hardware;
    let mut output = SectionOutput::new();
    output.subassemblies = produced;
    Section { key: key.to_string(), metadata: SectionMetadata { input, output } }
}

fn position(lines: &[String], line: &str) -> usize {
    lines.iter().position(|l| l == line).unwrap_or_else(|| panic!("no line {:?}", line))
}

#[test]
fn the_declaration_is_what_stands_between_the_hyphens() {
    let content = "---\nsections:\n  step_1: {}\n---\n# Title\n";
    assert_eq!(extract_front_matter(content), Some("sections:\n  step_1: {}".to_string()));
    assert_eq!(remove_front_matter(content), "\n# Title\n");
}

#[test]
fn a_chapter_without_a_block_has_no_declaration() {
    for content in ["# Title\n", "", "---", "---\n", "---\nno end", "--- \na\n---\n", " ---\na\n---\n", "---\r\na\r\n---\r\n"] {
        assert_eq!(extract_front_matter(content), None, "{:?}", content);
        assert_eq!(remove_front_matter(content), content, "{:?}", content);
    }
}

#[test]
fn the_block_ends_at_the_first_closing_line() {
    let content = "---\na: 1\n---\nbody\n---\nmore\n";
    assert_eq!(extract_front_matter(content), Some("a: 1".to_string()));
    assert_eq!(remove_front_matter(content), "\nbody\n---\nmore\n");
}

#[test]
fn a_block_without_a_declaration_is_no_block() {
    assert_eq!(extract_front_matter("---\n---\nbody\n"), None);
    assert_eq!(remove_front_matter("---\n---\nbody\n"), "---\n---\nbody\n");
    assert_eq!(extract_front_matter("---\n\n---\nbody"), Some("".to_string()));
    assert_eq!(remove_front_matter("---\n\n---\nbody"), "\nbody");
    assert_eq!(extract_front_matter("---\né\n---\n"), Some("é".to_string()));
    assert_eq!(remove_front_matter("---\né\n---\n"), "\n");
}

#[test]
fn lines_end_at_line_feeds() {
    let none: Vec<String> = vec![];
    assert_eq!(lines_of(""), none);
    assert_eq!(lines_of("a"), vec!["a"]);
    assert_eq!(lines_of("a\n"), vec!["a"]);
    assert_eq!(lines_of("a\n\n"), vec!["a", ""]);
    assert_eq!(lines_of("\n"), vec![""]);
    assert_eq!(lines_of("a\r\nb\rc\n\r\nd\r"), vec!["a", "b\rc", "", "d\r"]);
    assert_eq!(lines_of("ä\nö"), vec!["ä", "ö"]);
    for text in ["", "a", "a\n", "a\n\n", "\n", "a\r\nb\rc\n\r\nd\r", "x\ny\nz"] {
        let expected: Vec<String> = text.lines().map(|l| l.to_string()).collect();
        assert_eq!(lines_of(text), expected, "{:?}", text);
    }
    assert_eq!(join(&vec![]), "");
    assert_eq!(join(&vec!["a".to_string()]), "a");
    assert_eq!(join(&vec!["a".to_string(), "".to_string(), "b".to_string()]), "a\n\nb");
}

#[test]
fn names_are_ordered_by_their_characters() {
    assert!(str_lt("", "a"));
    assert!(!str_lt("a", ""));
    assert!(!str_lt("a", "a"));
    assert!(str_lt("a", "ab"));
    assert!(str_lt("ab", "b"));
    assert!(str_lt("B", "a"));
    assert!(str_lt("z", "é"));
    assert!(str_lt("é", "€"));
    assert!(str_lt("\u{ffff}", "\u{10000}"));
    assert!(str_eq("é", "é"));
    assert!(!str_eq("e", "é"));
    assert!(!str_eq("a", "ab"));
    for (a, b) in [("", "a"), ("M3x10", "M3x8"), ("a", "B"), ("é", "z"), ("same", "same")] {
        assert_eq!(str_lt(a, b), a < b, "{:?} {:?}", a, b);
        assert_eq!(str_lt(b, a), b < a, "{:?} {:?}", b, a);
    }
}

#[test]
fn the_heading_of_a_step_gives_its_key() {
    assert_eq!(line_step_key("## Step 1: Prep"), Some("step_1".to_string()));
    assert_eq!(line_step_key("## Step 2"), Some("step_2".to_string()));
    assert_eq!(line_step_key("### step 12 - more"), Some("step_12".to_string()));
    assert_eq!(line_step_key("####\tSTEP   007:"), Some("step_007".to_string()));
    assert_eq!(line_step_key("## Step 3x"), Some("step_3".to_string()));
    assert_eq!(line_step_key("# Step 1"), None);
    assert_eq!(line_step_key("##Step 1"), None);
    assert_eq!(line_step_key("## Step1"), None);
    assert_eq!(line_step_key("## Step one"), None);
    assert_eq!(line_step_key("## Steps 1"), None);
    assert_eq!(line_step_key(" ## Step 1"), None);
    assert_eq!(line_step_key("text ## Step 1"), None);
    assert_eq!(line_step_key(""), None);
    assert_eq!(line_step_key("#"), None);
    assert_eq!(key_of_step("41"), "step_41");
}

#[test]
fn titles_and_subheadings_are_told_apart() {
    assert!(line_is_title("# Title"));
    assert!(line_is_title("# "));
    assert!(!line_is_title("#Title"));
    assert!(!line_is_title("## Title"));
    assert!(!line_is_title("#"));
    assert!(!line_is_title(""));
    assert!(!line_is_title(" # Title"));
    assert!(line_is_subheading("## x"));
    assert!(line_is_subheading("###"));
    assert!(!line_is_subheading("# #"));
    assert!(!line_is_subheading("#"));
}

#[test]
fn the_headings_of_the_steps_are_found_line_by_line() {
    let keys = find_step_headers("# Title\n## Step 1: Prep\ntext\n## Not a step\n### Step 2\n");
    assert_eq!(keys, vec![None, Some("step_1".to_string()), None, None, Some("step_2".to_string())]);
    let none: Vec<Option<String>> = vec![];
    assert_eq!(find_step_headers(""), none);
}

#[test]
fn the_tables_stand_at_their_anchors() {
    let content = "# Title\nintro\n## Step 1: Prep\ntext one\n## Step 2: Assemble\ntext two";
    let sections = vec![
        section(
            "step_1",
            vec![part("M3x10", 4)],
            vec![OutputReference { name: "Frame".to_string(), quantity: 1, exclude_from_overview: false }],
        ),
        section("step_2", vec![part("M3x10", 6)], vec![]),
    ];
    let text = insert_section_tables(content, &sections, &inventory());
    let lines: Vec<String> = text.split('\n').map(|l| l.to_string()).collect();

    // Every line of the chapter is there, in its order.
    let title = position(&lines, "# Title");
    let intro = position(&lines, "intro");
    let step_1 = position(&lines, "## Step 1: Prep");
    let text_1 = position(&lines, "text one");
    let step_2 = position(&lines, "## Step 2: Assemble");
    let text_2 = position(&lines, "text two");
    assert!(title < intro && intro < step_1 && step_1 < text_1 && text_1 < step_2 && step_2 < text_2);
    assert_eq!(title, 0);

    // The overview follows the title.
    assert_eq!(lines[title + 1], "");
    assert_eq!(lines[title + 2], "");
    assert!(lines[title + 3].starts_with("<button onclick=\"toggleAllTables('overview')\""));
    let overview = position(&lines, "<details id=\"hardware-overview\">");
    assert!(title < overview && overview < intro);
    let total = position(&lines, "<tr><td>M3x10</td><td>M3 screw, 10mm</td><td>10</td></tr>");
    assert!(overview < total && total < intro);
    let produced_overview = position(&lines, "<details id=\"produced_subassemblies-overview\">");
    assert!(overview < produced_overview && produced_overview < intro);

    // The rule stands above the second step, and none above the first.
    assert_eq!(&lines[step_2 - 3..step_2], ["", "---", ""]);
    assert_eq!(lines.iter().filter(|l| l.as_str() == "---").count(), 1);
    assert_eq!(lines[step_1 - 1], "intro");

    // What a step uses follows its heading.
    let used_1 = position(&lines, "<details id=\"hardware-step_1\">");
    assert!(step_1 < used_1 && used_1 < text_1);
    assert_eq!(lines[step_1 + 1], "");
    assert!(lines[step_1 + 3].starts_with("<button onclick=\"toggleAllTables('step_1')\""));
    let used_2 = position(&lines, "<details id=\"hardware-step_2\">");
    assert!(step_2 < used_2 && used_2 < text_2);

    // What the first step produces stands above the rule of the second.
    let produced = position(&lines, "<details id=\"produced_subassemblies-step_1\">");
    assert!(text_1 < produced && produced < step_2 - 3);
    assert_eq!(lines[text_1 + 1], "");
    assert_eq!(lines[text_1 + 2], "<p class=\"bom-divider\"><strong>Output</strong></p>");
    assert_eq!(lines[text_1 + 4], "<details id=\"produced_subassemblies-step_1\">");
    let end = lines[produced..].iter().position(|l| l == "</details>").unwrap() + produced;
    assert!(lines[end + 1..step_2 - 3].iter().all(|l| l.is_empty()));
    assert_eq!(lines.last().unwrap(), "text two");
}

#[test]
fn what_the_last_step_produces_stands_at_the_end() {
    let content = "## Step 1\nwork\n";
    let sections = vec![section(
        "step_1",
        vec![],
        vec![OutputReference { name: "Frame".to_string(), quantity: 2, exclude_from_overview: true }],
    )];
    let text = insert_section_tables(content, &sections, &inventory());
    let expected = "## Step 1\nwork\n\n<details id=\"produced_subassemblies-step_1\">\n\
<summary><strong>🧩 Subassemblies</strong></summary>\n\
<br>\n\
<table style=\"margin: 0;\">\n\
<thead>\n\
<tr><th>Name</th><th>Description</th><th>Quantity</th></tr>\n\
</thead>\n\
<tbody>\n\
<tr><td>Frame</td><td>Base frame</td><td>2</td></tr>\n\
</tbody>\n\
</table>\n\
<br>\n\
</details>\n\n\n";
    assert_eq!(text, expected);
}

#[test]
fn a_chapter_without_anchors_keeps_its_lines() {
    let sections = vec![section("step_1", vec![part("M3x10", 4)], vec![])];
    let text = insert_section_tables("plain\r\ntext\n\nmore\n", &sections, &inventory());
    assert_eq!(text, "plain\ntext\n\nmore");
    assert_eq!(insert_section_tables("", &sections, &inventory()), "");
}

#[test]
fn a_step_without_a_section_gets_a_rule_only() {
    let text = insert_section_tables("## Step 1\na\n## Step 2\nb\n## Step 3\nc", &vec![], &inventory());
    assert_eq!(text, "## Step 1\na\n\n---\n\n## Step 2\nb\n\n---\n\n## Step 3\nc");
}

#[test]
fn the_overview_stands_after_the_first_title_only() {
    let sections = vec![section("step_9", vec![part("M3x10", 4)], vec![])];
    let text = insert_section_tables("# One\n# Two\n", &sections, &inventory());
    let lines: Vec<&str> = text.split('\n').collect();
    assert_eq!(lines[0], "# One");
    assert_eq!(*lines.last().unwrap(), "# Two");
    assert_eq!(text.matches("<details id=\"hardware-overview\">").count(), 1);
    assert_eq!(text.matches("toggleAllTables('overview')").count(), 1);
    let empty = insert_section_tables("# One\ntext", &vec![], &inventory());
    assert_eq!(empty, "# One\ntext");
}

#[test]
fn the_keys_of_the_steps_may_be_handed_in() {
    let sections = vec![section("first", vec![part("M3x10", 4)], vec![])];
    let keys = vec![None, Some("first".to_string()), Some("second".to_string())];
    let text = insert_tables_at("a\nb\nc\nd", &keys, &sections, &inventory());
    let lines: Vec<&str> = text.split('\n').collect();
    assert_eq!(lines[0], "a");
    assert_eq!(lines[1], "b");
    assert!(lines.contains(&"<details id=\"hardware-first\">"));
    let c = lines.iter().position(|l| *l == "c").unwrap();
    assert_eq!(&lines[c - 3..c], ["", "---", ""]);
    assert_eq!(&lines[c..], ["c", "d"]);
}

#[test]
fn the_section_of_a_key_is_the_first_of_that_key() {
    let sections = vec![
        section("step_1", vec![part("first", 1)], vec![]),
        section("step_1", vec![part("second", 1)], vec![]),
    ];
    let text = insert_section_tables("## Step 1", &sections, &inventory());
    assert!(text.contains("<tr><td>first</td>"));
    assert!(!text.contains("<tr><td>second</td>"));
}

#[test]
fn the_overview_merges_all_sections_and_leaves_out_what_all_exclude() {
    let mut one = SectionInput::new();
    one.hardware = vec![
        PartReference { name: "M3x10".to_string(), quantity: 4, exclude_from_bom: false, exclude_from_overview: true },
        PartReference { name: "Hidden".to_string(), quantity: 1, exclude_from_bom: false, exclude_from_overview: true },
    ];
    one.tools = vec![ToolReference {
        name: "Driver".to_string(),
        setting: Some("Low".to_string()),
        exclude_from_bom: false,
        exclude_from_overview: false,
    }];
    one.consumables = vec![ConsumableReference {
        name: "Glue".to_string(),
        exclude_from_bom: false,
        exclude_from_overview: true,
    }];
    let mut two = SectionInput::new();
    two.hardware = vec![
        PartReference { name: "M3x10".to_string(), quantity: 6, exclude_from_bom: false, exclude_from_overview: false },
        PartReference { name: "Hidden".to_string(), quantity: 2, exclude_from_bom: false, exclude_from_overview: true },
    ];
    two.tools = vec![ToolReference {
        name: "Driver".to_string(),
        setting: Some("High".to_string()),
        exclude_from_bom: false,
        exclude_from_overview: false,
    }];
    let sections = vec![
        Section { key: "step_1".to_string(), metadata: SectionMetadata { input: one, output: SectionOutput::new() } },
        Section { key: "step_2".to_string(), metadata: SectionMetadata { input: two, output: SectionOutput::new() } },
    ];
    let overview = generate_overview_tables(&sections, &inventory());
    assert!(overview.starts_with("\n<button onclick=\"toggleAllTables('overview')\""));
    assert!(overview.contains("<tr><td>M3x10</td><td>M3 screw, 10mm</td><td>10</td></tr>\n"));
    assert!(!overview.contains("Hidden"));
    assert!(overview.contains("<tr><td>Driver</td><td>High, Low</td><td>Acme</td></tr>\n"));
    assert_eq!(overview.matches("<td>Driver</td>").count(), 1);
    assert!(!overview.contains("consumables-overview"));
    assert!(!overview.contains("bom-divider"));
    let hardware = overview.find("hardware-overview").unwrap();
    let tools = overview.find("tools-overview").unwrap();
    assert!(hardware < tools);
    assert_eq!(generate_overview_tables(&vec![], &inventory()), "");
}
