use mdbook_bom::declaration::{
    normalize_chapter, normalize_section, DeclaredChapter, DeclaredEntry, DeclaredInput,
    DeclaredOutput, DeclaredSection,
};
use mdbook_bom::inventory::{Inventory, InventoryRecord, InventorySource};
use mdbook_bom::preprocessor::{BomPreprocessor, Chapter, RunError};
use mdbook_bom::schema::{
    find_section, ChapterMetadata, ConsumableReference, OutputReference, PartReference, Section,
    SectionInput, SectionMetadata, SectionOutput, ToolReference,
};

fn record(name: &str, description: Option<&str>, brand: Option<&str>) -> InventoryRecord {
    InventoryRecord {
        name: name.to_string(),
        description: description.map(|s| s.to_string()),
        brand: brand.map(|s| s.to_string()),
    }
}

fn inventory() -> Inventory {
    Inventory::load(InventorySource::Workbook {
        hardware: vec![record("M3x10", Some("M3 screw, 10mm"), None)],
        electronics: vec![],
        custom_parts: vec![],
        consumables: vec![record("Glue", Some("Wood glue"), None)],
        tools: vec![record("Driver", None, Some("Acme"))],
        subassemblies: vec![],
        assemblies: vec![],
    })
}

fn part(name: &str, quantity: u32) -> PartReference {
    PartReference {
        name: name.to_string(),
        quantity,
        exclude_from_bom: false,
        exclude_from_overview: false,
    }
}

fn declared(key: &str, hardware: Vec<PartReference>) -> ChapterMetadata {
    let mut input = SectionInput::new();
    input.hardware = hardware;
    ChapterMetadata {
        sections: vec![Section {
            key: key.to_string(),
            metadata: SectionMetadata { input, output: SectionOutput::new() },
        }],
    }
}

fn empty_section() -> DeclaredSection {
    DeclaredSection {
        input: None,
        output: None,
        hardware: None,
        fasteners: None,
        parts: None,
        electronics: None,
        custom_parts: None,
        tools: None,
        consumables: None,
    }
}

fn names(parts: &[PartReference]) -> Vec<&str> {
    parts.iter().map(|p| p.name.as_str()).collect()
}

#[test]
fn the_preprocessor_has_its_name_and_its_renderers() {
    assert_eq!(BomPreprocessor.name(), "bom");
    assert!(BomPreprocessor.supports_renderer("html"));
    assert!(BomPreprocessor.supports_renderer(""));
    assert!(BomPreprocessor.supports_renderer("not-supported "));
    assert!(!BomPreprocessor.supports_renderer("not-supported"));
}

#[test]
fn a_book_is_built_chapter_by_chapter() {
    let chapters = vec![
        Chapter { content: "# Plain\ntext\n".to_string(), metadata: None },
        Chapter {
            content: "---\nsections: ...\n---\n# One\n## Step 1\nwork".to_string(),
            metadata: Some(declared("step_1", vec![part("M3x10", 4)])),
        },
        Chapter {
            content: "---\nnot a declaration\n---\n# Kept\n".to_string(),
            metadata: None,
        },
        Chapter {
            content: "# No block\n## Step 1\n".to_string(),
            metadata: Some(declared("step_1", vec![part("M3x10", 100)])),
        },
        Chapter {
            content: "---\nsections: ...\n---\n## Step 1\n".to_string(),
            metadata: Some(declared("step_1", vec![part("M3x10", 6), part("Unknown", 1)])),
        },
    ];
    let out = BomPreprocessor.run(&chapters, &inventory()).expect("the book is built");
    assert_eq!(out.contents.len(), 5);
    assert_eq!(out.contents[0], "# Plain\ntext\n");
    assert_eq!(out.contents[2], "---\nnot a declaration\n---\n# Kept\n");
    assert_eq!(out.contents[3], "# No block\n## Step 1\n");
    assert!(out.contents[1].starts_with("\n# One\n\n\n<button onclick=\"toggleAllTables('overview')\""));
    assert!(out.contents[1].contains("<details id=\"hardware-step_1\">"));
    assert!(out.contents[1].ends_with("\nwork"));
    assert!(!out.contents[1].contains("sections: ..."));
    assert!(out.contents[4].contains("<tr><td>Unknown</td><td>Hardware not found in inventory</td><td>1</td></tr>"));
    let items = out.bom.fasteners.items();
    assert_eq!(items.len(), 1);
    assert_eq!(items[0].name, "M3x10");
    assert_eq!(items[0].description, "M3 screw, 10mm");
    assert_eq!(items[0].total_quantity, 10);
    assert_eq!(out.bom.electronics.len(), 0);
    assert_eq!(out.bom.tools.len(), 0);
}

#[test]
fn a_book_without_chapters_has_an_empty_bill() {
    let out = BomPreprocessor.run(&vec![], &inventory()).expect("the book is built");
    assert!(out.contents.is_empty());
    assert_eq!(out.bom.fasteners.len(), 0);
    assert_eq!(out.bom.consumables.len(), 0);
}

#[test]
fn a_total_beyond_the_largest_number_stops_the_book() {
    let chapter = |quantity: u32| Chapter {
        content: "---\nx\n---\n## Step 1\n".to_string(),
        metadata: Some(declared("step_1", vec![part("M3x10", quantity)])),
    };
    let failed = BomPreprocessor.run(&vec![chapter(u32::MAX), chapter(0), chapter(1)], &inventory());
    assert!(matches!(failed, Err(RunError::QuantityOverflow { chapter: 2 })));
    let within = BomPreprocessor.run(&vec![chapter(u32::MAX - 1), chapter(1)], &inventory()).expect("it fits");
    assert_eq!(within.bom.fasteners.items()[0].total_quantity, u32::MAX);
    let overview = Chapter {
        content: "---\nx\n---\n## Step 1\n".to_string(),
        metadata: Some(declared("step_1", vec![part("Unknown", u32::MAX), part("Unknown", 1)])),
    };
    let failed = BomPreprocessor.run(&vec![chapter(1), overview], &inventory());
    assert!(matches!(failed, Err(RunError::QuantityOverflow { chapter: 1 })));
    let unread = Chapter { content: "---\nx\n---\n".to_string(), metadata: None };
    let bom = mdbook_bom::aggregate::Bom::new();
    assert!(BomPreprocessor.chapter_within_limits(&unread, &inventory(), &bom));
    assert!(BomPreprocessor.chapter_within_limits(&chapter(u32::MAX), &inventory(), &bom));
}

#[test]
fn one_chapter_is_built_against_the_bill() {
    let inventory = inventory();
    let mut bom = mdbook_bom::aggregate::Bom::new();
    let chapter = Chapter {
        content: "---\nx\n---\ntext".to_string(),
        metadata: Some(declared("step_1", vec![part("M3x10", 2)])),
    };
    assert_eq!(BomPreprocessor.process_chapter(&chapter, &inventory, &mut bom), "\ntext");
    assert_eq!(BomPreprocessor.process_chapter(&chapter, &inventory, &mut bom), "\ntext");
    assert_eq!(bom.fasteners.get("M3x10").unwrap().total_quantity, 4);
}

#[test]
fn the_lists_of_a_section_are_brought_together() {
    let mut section = empty_section();
    section.input = Some(DeclaredInput {
        hardware: Some(vec![part("in", 1)]),
        electronics: None,
        custom_parts: Some(vec![part("custom in", 1)]),
        subassemblies: Some(vec![part("sub", 1)]),
        assemblies: None,
        tools: Some(vec![]),
        consumables: None,
    });
    section.output = Some(DeclaredOutput {
        subassemblies: None,
        assemblies: Some(vec![OutputReference { name: "made".to_string(), quantity: 1, exclude_from_overview: false }]),
    });
    section.hardware = Some(vec![part("hardware", 1)]);
    section.fasteners = Some(vec![part("fastener", 1)]);
    section.parts = Some(vec![part("part", 1)]);
    section.electronics = Some(vec![part("led", 1)]);
    section.custom_parts = Some(vec![part("custom", 1)]);
    section.tools = Some(vec![ToolReference {
        name: "Driver".to_string(),
        setting: None,
        exclude_from_bom: false,
        exclude_from_overview: false,
    }]);
    section.consumables = Some(vec![ConsumableReference {
        name: "Glue".to_string(),
        exclude_from_bom: false,
        exclude_from_overview: false,
    }]);
    let normal = normalize_section(section);
    assert_eq!(names(&normal.input.hardware), vec!["in", "hardware", "fastener", "part"]);
    assert_eq!(names(&normal.input.electronics), vec!["led"]);
    assert_eq!(names(&normal.input.custom_parts), vec!["custom in", "custom"]);
    assert_eq!(names(&normal.input.subassemblies), vec!["sub"]);
    assert!(normal.input.assemblies.is_empty());
    assert_eq!(normal.input.tools.len(), 1);
    assert_eq!(normal.input.consumables.len(), 1);
    assert!(normal.output.subassemblies.is_empty());
    assert_eq!(normal.output.assemblies[0].name, "made");
    assert!(!normal.input.is_empty());
    assert!(!normal.output.is_empty());

    let nothing = normalize_section(empty_section());
    assert!(nothing.input.is_empty());
    assert!(nothing.output.is_empty());
}

#[test]
fn a_chapter_with_lists_of_its_own_has_one_section() {
    let chapter = normalize_chapter(DeclaredChapter {
        sections: None,
        parts: Some(vec![part("M3x10", 2)]),
        consumables: None,
        tools: Some(vec![ToolReference {
            name: "Driver".to_string(),
            setting: Some("Low".to_string()),
            exclude_from_bom: false,
            exclude_from_overview: false,
        }]),
    });
    assert_eq!(chapter.sections.len(), 1);
    assert_eq!(chapter.sections[0].key, "legacy");
    assert_eq!(names(&chapter.sections[0].metadata.input.hardware), vec!["M3x10"]);
    assert_eq!(chapter.sections[0].metadata.input.tools[0].name, "Driver");
    assert!(chapter.sections[0].metadata.input.consumables.is_empty());
    assert!(chapter.sections[0].metadata.output.is_empty());
}

#[test]
fn the_sections_of_a_chapter_come_before_its_own_lists() {
    let mut first = empty_section();
    first.parts = Some(vec![part("old", 1)]);
    let chapter = normalize_chapter(DeclaredChapter {
        sections: Some(vec![
            DeclaredEntry { key: "step_2".to_string(), section: first },
            DeclaredEntry { key: "step_1".to_string(), section: empty_section() },
        ]),
        parts: Some(vec![part("passed over", 1)]),
        consumables: None,
        tools: None,
    });
    let keys: Vec<&str> = chapter.sections.iter().map(|s| s.key.as_str()).collect();
    assert_eq!(keys, vec!["step_2", "step_1"]);
    assert_eq!(names(&chapter.sections[0].metadata.input.hardware), vec!["old"]);
    assert!(chapter.sections[1].metadata.input.is_empty());
    assert_eq!(find_section(&chapter.sections, "step_1"), Some(1));
    assert_eq!(find_section(&chapter.sections, "step_3"), None);
    let none = normalize_chapter(DeclaredChapter { sections: Some(vec![]), parts: None, consumables: None, tools: None });
    assert!(none.sections.is_empty());
}
