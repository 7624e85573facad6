//! The declaration block at the start of a chapter.
//!
//! A chapter declares what it uses in a block at its very start: a line of
//! three hyphens, the declaration, and a closing line of three hyphens. The
//! declaration is not empty: the closing line is looked for after the line
//! feed of the opening one.

use crate::schema::optional_text;
use crate::text::{chars_of, string_of_range};
use vstd::prelude::*;

verus! {

/// The line that opens the block, with its line feed.
pub const FENCE_OPEN: &'static str = "---\n";

/// The line that closes the block, with the line feeds around it.
pub const FENCE_CLOSE: &'static str = "\n---\n";

/// What is left of the closing line with the block taken out: its line feed.
pub const FENCE_REST: &'static str = "\n";

/// Whether `pattern` stands in `text` at position `at`.
pub open spec fn occurs_at(text: Seq<char>, pattern: Seq<char>, at: int) -> bool {
    0 <= at && at + pattern.len() <= text.len() && text.subrange(at, at + pattern.len()) == pattern
}

/// The first position at or after `from` at which `pattern` stands in `text`.
pub open spec fn first_occurrence(text: Seq<char>, pattern: Seq<char>, from: int) -> Option<int>
    decreases text.len() + 1 - from,
{
    if from < 0 || from + pattern.len() > text.len() {
        None
    } else if occurs_at(text, pattern, from) {
        Some(from)
    } else {
        first_occurrence(text, pattern, from + 1)
    }
}

/// The position of the closing line of the declaration block, where the
/// chapter starts with one.
pub open spec fn front_matter_end(content: Seq<char>) -> Option<int> {
    if occurs_at(content, FENCE_OPEN@, 0) {
        first_occurrence(content, FENCE_CLOSE@, FENCE_OPEN@.len() as int)
    } else {
        None
    }
}

/// The declaration of a chapter: what stands between the two lines of
/// hyphens.
pub open spec fn front_matter(content: Seq<char>) -> Option<Seq<char>> {
    match front_matter_end(content) {
        Some(end) => Some(content.subrange(FENCE_OPEN@.len() as int, end)),
        None => None,
    }
}

/// The chapter without its declaration block: what follows the hyphens of
/// the closing line, from their line feed on. A chapter without a block is
/// left as it is.
pub open spec fn without_front_matter(content: Seq<char>) -> Seq<char> {
    match front_matter_end(content) {
        Some(end) => content.subrange(
            end + FENCE_CLOSE@.len() - FENCE_REST@.len(),
            content.len() as int,
        ),
        None => content,
    }
}

/// What `first_occurrence` finds lies within the text, after `from`.
pub proof fn lemma_first_occurrence(text: Seq<char>, pattern: Seq<char>, from: int)
    ensures
        match first_occurrence(text, pattern, from) {
            Some(at) => from <= at && occurs_at(text, pattern, at) && forall|k: int|
                from <= k < at ==> !occurs_at(text, pattern, k),
            None => forall|k: int| from <= k && 0 <= from ==> !occurs_at(text, pattern, k),
        },
    decreases text.len() + 1 - from,
{
    if 0 <= from && from + pattern.len() <= text.len() && !occurs_at(text, pattern, from) {
        lemma_first_occurrence(text, pattern, from + 1);
    }
}

/// Whether `pattern` stands in `text` at position `at`.
fn stands_at(text: &Vec<char>, pattern: &Vec<char>, at: usize) -> (r: bool)
    ensures
        r == occurs_at(text@, pattern@, at as int),
{
    if pattern.len() > text.len() || at > text.len() - pattern.len() {
        return false;
    }
    let mut i: usize = 0;
    while i < pattern.len()
        invariant
            i <= pattern.len(),
            at + pattern.len() <= text.len(),
            forall|k: int| 0 <= k < i ==> text@[at + k] == pattern@[k],
        decreases pattern.len() - i,
    {
        if text[at + i] != pattern[i] {
            assert(text@.subrange(at as int, at + pattern.len())[i as int] != pattern@[i as int]);
            return false;
        }
        i += 1;
    }
    assert(text@.subrange(at as int, at + pattern.len()) =~= pattern@);
    true
}

/// The first position at or after `from` at which `pattern` stands in `text`.
fn find_from(text: &Vec<char>, pattern: &Vec<char>, from: usize) -> (r: Option<usize>)
    ensures
        match r {
            Some(at) => first_occurrence(text@, pattern@, from as int) == Some(at as int) && at
                + pattern.len() <= text.len(),
            None => first_occurrence(text@, pattern@, from as int) is None,
        },
{
    if pattern.len() > text.len() {
        return None;
    }
    let last = text.len() - pattern.len();
    let mut at: usize = from;
    if at > last {
        return None;
    }
    loop
        invariant
            from <= at <= last,
            last == text.len() - pattern.len(),
            pattern.len() <= text.len(),
            first_occurrence(text@, pattern@, from as int) == first_occurrence(
                text@,
                pattern@,
                at as int,
            ),
        decreases last - at,
    {
        if stands_at(text, pattern, at) {
            return Some(at);
        }
        if at == last {
            assert(first_occurrence(text@, pattern@, at + 1) is None);
            return None;
        }
        at += 1;
    }
}

/// The position of the closing line of the declaration block.
fn find_front_matter_end(cs: &Vec<char>) -> (r: Option<usize>)
    ensures
        match r {
            Some(end) => front_matter_end(cs@) == Some(end as int) && FENCE_OPEN@.len() <= end
                && end + FENCE_CLOSE@.len() <= cs.len(),
            None => front_matter_end(cs@) is None,
        },
{
    let open = chars_of(FENCE_OPEN);
    let close = chars_of(FENCE_CLOSE);
    if !stands_at(cs, &open, 0) {
        return None;
    }
    proof {
        lemma_first_occurrence(cs@, close@, open.len() as int);
    }
    find_from(cs, &close, open.len())
}

/// The declaration of a chapter, if the chapter starts with a declaration
/// block.
pub fn extract_front_matter(content: &str) -> (r: Option<String>)
    ensures
        optional_text(r) == front_matter(content@),
{
    let cs = chars_of(content);
    match find_front_matter_end(&cs) {
        Some(end) => {
            let open = chars_of(FENCE_OPEN);
            Some(string_of_range(&cs, open.len(), end))
        },
        None => None,
    }
}

/// The chapter without its declaration block.
pub fn remove_front_matter(content: &str) -> (r: String)
    ensures
        r@ == without_front_matter(content@),
{
    let cs = chars_of(content);
    match find_front_matter_end(&cs) {
        Some(end) => {
            let close = chars_of(FENCE_CLOSE);
            let rest = chars_of(FENCE_REST);
            proof {
                reveal_strlit("\n---\n");
                reveal_strlit("\n");
            }
            string_of_range(&cs, end + close.len() - rest.len(), cs.len())
        },
        None => {
            let r = content.to_owned();
            r
        },
    }
}

} // verus!
