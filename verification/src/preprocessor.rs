//! The preprocessor: a book, chapter by chapter.
//!
//! A chapter that starts with a declaration block, whose declaration was
//! read, loses the block, gets its tables and adds what it uses to the bill
//! of materials. Every other chapter is left as it is and adds nothing: one
//! without a block, and one whose declaration could not be read.

use crate::aggregate::{
    accumulate_chapter, bom_wf, bom_with_chapter, chapter_fits, chapter_within_limits, empty_bom,
    lemma_bom_with_chapter_wf, lemma_chapter_order, overview_within_limits, Bom, BomModel,
};
use crate::front_matter::{extract_front_matter, front_matter, remove_front_matter, without_front_matter};
use crate::inventory::{Inventory, InventoryModel};
use crate::overview::overview_fits;
use crate::rewrite::{insert_section_tables, rewritten};
use crate::schema::{views, ChapterMetadata, SectionEntry};
use crate::text::{str_eq, string_views};
use vstd::prelude::*;

verus! {

/// The name under which the preprocessor is configured.
pub const PREPROCESSOR_NAME: &'static str = "bom";

/// The one renderer for which the preprocessor does not work.
pub const UNSUPPORTED_RENDERER: &'static str = "not-supported";

/// A chapter: its text, and its declaration as far as it was read.
#[derive(Debug, Clone)]
pub struct Chapter {
    pub content: String,
    /// The declaration of the chapter; none where the chapter has no
    /// declaration block or the block does not hold a declaration.
    pub metadata: Option<ChapterMetadata>,
}

/// The view of a [`Chapter`].
pub struct ChapterModel {
    pub content: Seq<char>,
    pub metadata: Option<Seq<SectionEntry>>,
}

impl View for Chapter {
    type V = ChapterModel;

    open spec fn view(&self) -> ChapterModel {
        ChapterModel {
            content: self.content@,
            metadata: match self.metadata {
                Some(m) => Some(m@),
                None => None,
            },
        }
    }
}

/// The sections that a chapter declares: those of its declaration, where it
/// starts with a declaration block.
pub open spec fn declared_sections(chapter: ChapterModel) -> Option<Seq<SectionEntry>> {
    if front_matter(chapter.content) is Some {
        chapter.metadata
    } else {
        None
    }
}

/// The text of a chapter when the book is built.
pub open spec fn chapter_text(chapter: ChapterModel, inventory: InventoryModel) -> Seq<char> {
    match declared_sections(chapter) {
        Some(sections) => rewritten(without_front_matter(chapter.content), sections, inventory),
        None => chapter.content,
    }
}

/// The bill of materials when a chapter has been added.
pub open spec fn bom_with(bom: BomModel, chapter: ChapterModel, inventory: InventoryModel) -> BomModel {
    match declared_sections(chapter) {
        Some(sections) => bom_with_chapter(bom, sections, inventory),
        None => bom,
    }
}

/// Whether the quantities that a chapter declares can be added up: those of
/// its overview, and the totals of the bill with the chapter added.
pub open spec fn chapter_within_limits_of(
    bom: BomModel,
    chapter: ChapterModel,
    inventory: InventoryModel,
) -> bool {
    match declared_sections(chapter) {
        Some(sections) => overview_fits(sections) && chapter_fits(bom, sections, inventory),
        None => true,
    }
}

/// The bill of materials of a book: that of its chapters, added one after
/// the other to an empty bill.
pub open spec fn bom_of(chapters: Seq<ChapterModel>, inventory: InventoryModel) -> BomModel
    decreases chapters.len(),
{
    if chapters.len() == 0 {
        empty_bom()
    } else {
        bom_with(bom_of(chapters.drop_last(), inventory), chapters.last(), inventory)
    }
}

/// The texts of the chapters when the book is built.
pub open spec fn chapter_texts(chapters: Seq<ChapterModel>, inventory: InventoryModel) -> Seq<
    Seq<char>,
> {
    chapters.map_values(|chapter: ChapterModel| chapter_text(chapter, inventory))
}

/// The first chapter whose quantities cannot be added up, if there is one.
pub open spec fn first_overflow(chapters: Seq<ChapterModel>, inventory: InventoryModel) -> Option<
    int,
>
    decreases chapters.len(),
{
    if chapters.len() == 0 {
        None
    } else {
        match first_overflow(chapters.drop_last(), inventory) {
            Some(i) => Some(i),
            None => if chapter_within_limits_of(
                bom_of(chapters.drop_last(), inventory),
                chapters.last(),
                inventory,
            ) {
                None
            } else {
                Some(chapters.len() - 1)
            },
        }
    }
}

/// The bill of materials of a book is in order.
pub proof fn lemma_bom_of_wf(chapters: Seq<ChapterModel>, inventory: InventoryModel)
    ensures
        bom_wf(bom_of(chapters, inventory)),
    decreases chapters.len(),
{
    if chapters.len() > 0 {
        lemma_bom_of_wf(chapters.drop_last(), inventory);
        match declared_sections(chapters.last()) {
            Some(sections) => {
                lemma_bom_with_chapter_wf(
                    bom_of(chapters.drop_last(), inventory),
                    sections,
                    inventory,
                );
            },
            None => {},
        }
    }
}

/// Two chapters may be added to a bill of materials in either order: the
/// bill is the same, entry for entry and total for total.
pub proof fn lemma_bom_with_commutes(
    bom: BomModel,
    first: ChapterModel,
    second: ChapterModel,
    inventory: InventoryModel,
)
    requires
        bom_wf(bom),
    ensures
        bom_with(bom_with(bom, first, inventory), second, inventory) == bom_with(
            bom_with(bom, second, inventory),
            first,
            inventory,
        ),
{
    match (declared_sections(first), declared_sections(second)) {
        (Some(a), Some(b)) => {
            lemma_chapter_order(bom, a, b, inventory);
        },
        _ => {},
    }
}

/// The bill of materials of a book does not depend on the order of two
/// chapters that follow each other: with the chapters `first` and `second`
/// after the chapters `before`, it is the same for both orders of the two.
pub proof fn lemma_book_order(
    before: Seq<ChapterModel>,
    first: ChapterModel,
    second: ChapterModel,
    inventory: InventoryModel,
)
    ensures
        bom_of(before.push(first).push(second), inventory) == bom_of(
            before.push(second).push(first),
            inventory,
        ),
{
    assert(before.push(first).push(second).drop_last() =~= before.push(first));
    assert(before.push(second).push(first).drop_last() =~= before.push(second));
    assert(before.push(first).drop_last() =~= before);
    assert(before.push(second).drop_last() =~= before);
    lemma_bom_of_wf(before, inventory);
    let base = bom_of(before, inventory);
    lemma_bom_with_commutes(base, first, second, inventory);
    assert(bom_of(before.push(first), inventory) == bom_with(base, first, inventory));
    assert(bom_of(before.push(second), inventory) == bom_with(base, second, inventory));
    assert(bom_of(before.push(first).push(second), inventory) == bom_with(
        bom_with(base, first, inventory),
        second,
        inventory,
    ));
    assert(bom_of(before.push(second).push(first), inventory) == bom_with(
        bom_with(base, second, inventory),
        first,
        inventory,
    ));
}

/// A book that has been built: the texts of its chapters, and its bill of
/// materials.
pub struct RunOutput {
    pub contents: Vec<String>,
    pub bom: Bom,
}

/// Why a book could not be built.
#[derive(Debug, Clone, Copy)]
pub enum RunError {
    /// The quantities that the chapter at this position declares add up to
    /// more than a total can hold.
    QuantityOverflow { chapter: usize },
}

/// The preprocessor.
pub struct BomPreprocessor;

/// A found overflow among the first chapters is the first overflow of all.
proof fn lemma_first_overflow_prefix(chapters: Seq<ChapterModel>, inventory: InventoryModel, n: int)
    requires
        0 <= n <= chapters.len(),
        first_overflow(chapters.take(n), inventory) is Some,
    ensures
        first_overflow(chapters, inventory) == first_overflow(chapters.take(n), inventory),
    decreases chapters.len() - n,
{
    if n < chapters.len() {
        assert(chapters.take(n + 1).drop_last() =~= chapters.take(n));
        lemma_first_overflow_prefix(chapters, inventory, n + 1);
    } else {
        assert(chapters.take(n) =~= chapters);
    }
}

impl BomPreprocessor {
    /// The name under which the preprocessor is configured.
    pub fn name(&self) -> (r: &'static str)
        ensures
            r@ == PREPROCESSOR_NAME@,
    {
        PREPROCESSOR_NAME
    }

    /// Whether the preprocessor works for the renderer of this name: for
    /// every one but `not-supported`.
    pub fn supports_renderer(&self, renderer: &str) -> (r: bool)
        ensures
            r == (renderer@ != UNSUPPORTED_RENDERER@),
    {
        !str_eq(renderer, UNSUPPORTED_RENDERER)
    }

    /// Whether the quantities that the chapter declares can be added up.
    pub fn chapter_within_limits(&self, chapter: &Chapter, inventory: &Inventory, bom: &Bom) -> (r:
        bool)
        ensures
            r == chapter_within_limits_of(bom@, chapter@, inventory@),
    {
        match &chapter.metadata {
            Some(metadata) => {
                match extract_front_matter(chapter.content.as_str()) {
                    Some(_) => overview_within_limits(&metadata.sections) && chapter_within_limits(
                        &metadata.sections,
                        inventory,
                        bom,
                    ),
                    None => true,
                }
            },
            None => true,
        }
    }

    /// Builds one chapter: hands out its text, and adds what it uses to the
    /// bill of materials.
    pub fn process_chapter(&self, chapter: &Chapter, inventory: &Inventory, bom: &mut Bom) -> (r:
        String)
        requires
            old(bom).wf(),
            chapter_within_limits_of(old(bom)@, chapter@, inventory@),
        ensures
            final(bom).wf(),
            r@ == chapter_text(chapter@, inventory@),
            final(bom)@ == bom_with(old(bom)@, chapter@, inventory@),
    {
        match &chapter.metadata {
            Some(metadata) => {
                match extract_front_matter(chapter.content.as_str()) {
                    Some(_) => {
                        let body = remove_front_matter(chapter.content.as_str());
                        let text = insert_section_tables(
                            body.as_str(),
                            &metadata.sections,
                            inventory,
                        );
                        accumulate_chapter(&metadata.sections, inventory, bom);
                        text
                    },
                    None => chapter.content.clone(),
                }
            },
            None => chapter.content.clone(),
        }
    }

    /// Builds a book: the chapters in their order. Fails at the first
    /// chapter whose quantities cannot be added up, and only there.
    pub fn run(&self, chapters: &Vec<Chapter>, inventory: &Inventory) -> (r: Result<
        RunOutput,
        RunError,
    >)
        ensures
            match r {
                Ok(out) => {
                    &&& first_overflow(views(chapters@), inventory@) is None
                    &&& string_views(out.contents@) == chapter_texts(views(chapters@), inventory@)
                    &&& out.bom@ == bom_of(views(chapters@), inventory@)
                    &&& out.bom.wf()
                },
                Err(RunError::QuantityOverflow { chapter }) => first_overflow(
                    views(chapters@),
                    inventory@,
                ) == Some(chapter as int),
            },
    {
        let ghost all = views(chapters@);
        let mut bom = Bom::new();
        let mut contents: Vec<String> = Vec::new();
        let mut i: usize = 0;
        while i < chapters.len()
            invariant
                i <= chapters.len(),
                all == views(chapters@),
                bom.wf(),
                bom@ == bom_of(all.take(i as int), inventory@),
                first_overflow(all.take(i as int), inventory@) is None,
                contents@.len() == i,
                forall|j: int|
                    0 <= j < i ==> (#[trigger] contents@[j])@ == chapter_text(all[j], inventory@),
            decreases chapters.len() - i,
        {
            proof {
                assert(all.take(i + 1).drop_last() =~= all.take(i as int));
                assert(all.take(i + 1).last() == chapters@[i as int]@);
            }
            if !self.chapter_within_limits(&chapters[i], inventory, &bom) {
                proof {
                    lemma_first_overflow_prefix(all, inventory@, i + 1);
                }
                return Err(RunError::QuantityOverflow { chapter: i });
            }
            let text = self.process_chapter(&chapters[i], inventory, &mut bom);
            contents.push(text);
            i += 1;
        }
        proof {
            assert(all.take(chapters.len() as int) =~= all);
            assert(string_views(contents@) =~= chapter_texts(all, inventory@));
        }
        Ok(RunOutput { contents, bom })
    }
}

} // verus!
