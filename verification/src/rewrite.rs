//! The document rewriter: the tables put into the text of a chapter.
//!
//! The text is read line by line, once, from top to bottom. Every line is
//! kept, in its place. After the title stands the overview. After the
//! heading of a step stand the tables of what the step uses. The tables of
//! what a step produces wait: they stand where the step ends, above the rule
//! that parts it from the next step, or at the end of the chapter. The first
//! step has no rule above it.

use crate::headings::{find_step_headers, is_title, line_is_title, optional_texts, step_keys};
use crate::inventory::{Inventory, InventoryModel};
use crate::overview::{
    generate_overview_tables, input_block, output_block, overview_fits, overview_text,
    section_table_set, section_tables,
};
use crate::schema::{find_section, section_index, views, Section, SectionEntry};
use crate::text::{join, join_lines, lines_of, push_lines, split_lines, string_views};
use vstd::prelude::*;

verus! {

/// The rule between two steps.
pub const RULE: &'static str = "---";

/// What the pass over the lines remembers.
pub struct PassState {
    /// Whether the overview stands already.
    pub overview_done: bool,
    /// Whether the heading of a step has been passed.
    pub step_seen: bool,
    /// The lines that wait for the end of the step.
    pub pending: Seq<Seq<char>>,
}

/// The state in which the pass starts.
pub open spec fn start_state() -> PassState {
    PassState { overview_done: false, step_seen: false, pending: Seq::empty() }
}

/// A block as lines, with an empty line before and after it; nothing for an
/// empty block.
pub open spec fn wrapped_block(block: Seq<char>) -> Seq<Seq<char>> {
    if block.len() == 0 {
        Seq::empty()
    } else {
        seq![Seq::empty()] + split_lines(block) + seq![Seq::empty()]
    }
}

/// The rule between two steps, with an empty line before and after it.
pub open spec fn rule_lines() -> Seq<Seq<char>> {
    seq![Seq::empty(), RULE@, Seq::empty()]
}

/// The key at position `i`, if there is one.
pub open spec fn key_at(keys: Seq<Option<Seq<char>>>, i: int) -> Option<Seq<char>> {
    if 0 <= i < keys.len() {
        keys[i]
    } else {
        None
    }
}

/// The lines that follow the heading of the step `key`: the tables of what
/// the step uses. A step without a section of its key has none.
pub open spec fn lines_after_heading(
    sections: Seq<SectionEntry>,
    inventory: InventoryModel,
    key: Seq<char>,
) -> Seq<Seq<char>> {
    match section_index(sections, key) {
        Some(i) => wrapped_block(
            input_block(section_table_set(sections[i].section, inventory, key), key),
        ),
        None => Seq::empty(),
    }
}

/// The lines that wait for the end of the step `key`: the tables of what the
/// step produces.
pub open spec fn lines_at_step_end(
    sections: Seq<SectionEntry>,
    inventory: InventoryModel,
    key: Seq<char>,
) -> Seq<Seq<char>> {
    match section_index(sections, key) {
        Some(i) => wrapped_block(output_block(section_table_set(sections[i].section, inventory, key))),
        None => Seq::empty(),
    }
}

/// The lines that the pass writes when it reads `line`, which heads the step
/// `key` if `key` is given, and `overview` being the block that follows the
/// title.
pub open spec fn written_at(
    line: Seq<char>,
    key: Option<Seq<char>>,
    sections: Seq<SectionEntry>,
    inventory: InventoryModel,
    overview: Seq<char>,
    state: PassState,
) -> Seq<Seq<char>> {
    if !state.overview_done && is_title(line) {
        seq![line] + wrapped_block(overview)
    } else {
        match key {
            Some(key) => {
                let above = if state.step_seen {
                    state.pending + rule_lines()
                } else {
                    state.pending
                };
                above + seq![line] + lines_after_heading(sections, inventory, key)
            },
            None => seq![line],
        }
    }
}

/// What the pass remembers when it has read `line`.
pub open spec fn state_after(
    line: Seq<char>,
    key: Option<Seq<char>>,
    sections: Seq<SectionEntry>,
    inventory: InventoryModel,
    state: PassState,
) -> PassState {
    if !state.overview_done && is_title(line) {
        PassState { overview_done: true, step_seen: state.step_seen, pending: state.pending }
    } else {
        match key {
            Some(key) => PassState {
                overview_done: state.overview_done,
                step_seen: true,
                pending: lines_at_step_end(sections, inventory, key),
            },
            None => state,
        }
    }
}

/// The lines of the rewritten chapter from line `i` on: what the pass writes
/// line by line, and at the end what still waits. `keys` holds for each line
/// the key of the step that it heads, if any.
pub open spec fn rewrite_from(
    lines: Seq<Seq<char>>,
    keys: Seq<Option<Seq<char>>>,
    sections: Seq<SectionEntry>,
    inventory: InventoryModel,
    overview: Seq<char>,
    i: int,
    state: PassState,
) -> Seq<Seq<char>>
    decreases lines.len() - i,
{
    if i < 0 || i >= lines.len() {
        state.pending
    } else {
        written_at(lines[i], key_at(keys, i), sections, inventory, overview, state) + rewrite_from(
            lines,
            keys,
            sections,
            inventory,
            overview,
            i + 1,
            state_after(lines[i], key_at(keys, i), sections, inventory, state),
        )
    }
}

/// The rewritten chapter, where `keys` says which lines head which steps.
pub open spec fn rewritten_with(
    content: Seq<char>,
    keys: Seq<Option<Seq<char>>>,
    sections: Seq<SectionEntry>,
    inventory: InventoryModel,
) -> Seq<char> {
    join_lines(
        rewrite_from(
            split_lines(content),
            keys,
            sections,
            inventory,
            overview_text(sections, inventory),
            0,
            start_state(),
        ),
    )
}

/// The rewritten chapter.
pub open spec fn rewritten(
    content: Seq<char>,
    sections: Seq<SectionEntry>,
    inventory: InventoryModel,
) -> Seq<char> {
    rewritten_with(content, step_keys(split_lines(content)), sections, inventory)
}

/// Where the line stands among the lines that the pass writes when it reads
/// it: after what is put above it.
pub open spec fn offset_when_read(line: Seq<char>, key: Option<Seq<char>>, state: PassState) -> int {
    if !state.overview_done && is_title(line) {
        0
    } else {
        match key {
            Some(_) => if state.step_seen {
                (state.pending.len() + rule_lines().len()) as int
            } else {
                state.pending.len() as int
            },
            None => 0,
        }
    }
}

/// Where line `k` of the chapter stands among the lines of the rewritten
/// chapter from line `i` on.
pub open spec fn position_of_line(
    lines: Seq<Seq<char>>,
    keys: Seq<Option<Seq<char>>>,
    sections: Seq<SectionEntry>,
    inventory: InventoryModel,
    overview: Seq<char>,
    i: int,
    state: PassState,
    k: int,
) -> int
    decreases k - i,
{
    if i < 0 || k < i || k >= lines.len() {
        0
    } else if k == i {
        offset_when_read(lines[i], key_at(keys, i), state)
    } else {
        written_at(lines[i], key_at(keys, i), sections, inventory, overview, state).len()
            + position_of_line(
            lines,
            keys,
            sections,
            inventory,
            overview,
            i + 1,
            state_after(lines[i], key_at(keys, i), sections, inventory, state),
            k,
        )
    }
}

/// Every line of the chapter is kept: it stands in the rewritten chapter,
/// at the position that `position_of_line` gives.
pub proof fn lemma_lines_are_kept(
    lines: Seq<Seq<char>>,
    keys: Seq<Option<Seq<char>>>,
    sections: Seq<SectionEntry>,
    inventory: InventoryModel,
    overview: Seq<char>,
    i: int,
    state: PassState,
    k: int,
)
    requires
        0 <= i <= k < lines.len(),
    ensures
        0 <= position_of_line(lines, keys, sections, inventory, overview, i, state, k)
            < rewrite_from(lines, keys, sections, inventory, overview, i, state).len(),
        rewrite_from(lines, keys, sections, inventory, overview, i, state)[position_of_line(
            lines,
            keys,
            sections,
            inventory,
            overview,
            i,
            state,
            k,
        )] == lines[k],
    decreases k - i,
{
    let step = written_at(lines[i], key_at(keys, i), sections, inventory, overview, state);
    let offset = offset_when_read(lines[i], key_at(keys, i), state);
    assert(0 <= offset < step.len() && step[offset] == lines[i]);
    if k > i {
        lemma_lines_are_kept(
            lines,
            keys,
            sections,
            inventory,
            overview,
            i + 1,
            state_after(lines[i], key_at(keys, i), sections, inventory, state),
            k,
        );
    }
}

/// The lines of the chapter keep their order: a later line stands after an
/// earlier one in the rewritten chapter.
pub proof fn lemma_lines_keep_their_order(
    lines: Seq<Seq<char>>,
    keys: Seq<Option<Seq<char>>>,
    sections: Seq<SectionEntry>,
    inventory: InventoryModel,
    overview: Seq<char>,
    i: int,
    state: PassState,
    k: int,
    l: int,
)
    requires
        0 <= i <= k < l < lines.len(),
    ensures
        position_of_line(lines, keys, sections, inventory, overview, i, state, k)
            < position_of_line(lines, keys, sections, inventory, overview, i, state, l),
    decreases k - i,
{
    let step = written_at(lines[i], key_at(keys, i), sections, inventory, overview, state);
    let next = state_after(lines[i], key_at(keys, i), sections, inventory, state);
    let offset = offset_when_read(lines[i], key_at(keys, i), state);
    assert(0 <= offset < step.len());
    if k > i {
        lemma_lines_keep_their_order(lines, keys, sections, inventory, overview, i + 1, next, k, l);
    } else {
        lemma_lines_are_kept(lines, keys, sections, inventory, overview, i + 1, next, l);
    }
}

fn push_wrapped_block(out: &mut Vec<String>, block: &str)
    ensures
        string_views(final(out)@) == string_views(old(out)@) + wrapped_block(block@),
{
    if block.is_empty() {
        assert(string_views(out@) =~= string_views(old(out)@) + wrapped_block(block@));
        return ;
    }
    let ghost before = string_views(out@);
    out.push(String::new());
    assert(string_views(out@) =~= before + seq![Seq::<char>::empty()]);
    push_lines(out, block);
    let ghost middle = string_views(out@);
    out.push(String::new());
    assert(string_views(out@) =~= middle + seq![Seq::<char>::empty()]);
    assert(string_views(out@) =~= before + wrapped_block(block@));
}

fn push_rule(out: &mut Vec<String>)
    ensures
        string_views(final(out)@) == string_views(old(out)@) + rule_lines(),
{
    let ghost before = string_views(out@);
    out.push(String::new());
    out.push(RULE.to_owned());
    out.push(String::new());
    assert(string_views(out@) =~= before + rule_lines());
}

/// The pass over the lines of a chapter: what it has written, and what it
/// remembers.
struct Pass {
    out: Vec<String>,
    pending: Vec<String>,
    overview_done: bool,
    step_seen: bool,
}

impl Pass {
    spec fn state(&self) -> PassState {
        PassState {
            overview_done: self.overview_done,
            step_seen: self.step_seen,
            pending: string_views(self.pending@),
        }
    }

    spec fn written(&self) -> Seq<Seq<char>> {
        string_views(self.out@)
    }

    fn read_title(&mut self, line: &String, overview: &str)
        requires
            !old(self).overview_done,
            is_title(line@),
        ensures
            final(self).written() == old(self).written() + (seq![line@] + wrapped_block(overview@)),
            final(self).state() == (PassState {
                overview_done: true,
                step_seen: old(self).step_seen,
                pending: old(self).state().pending,
            }),
    {
        let ghost done = string_views(self.out@);
        self.out.push(line.clone());
        assert(string_views(self.out@) =~= done + seq![line@]);
        push_wrapped_block(&mut self.out, overview);
        self.overview_done = true;
        assert(string_views(self.out@) =~= done + (seq![line@] + wrapped_block(overview@)));
    }

    fn read_plain(&mut self, line: &String)
        ensures
            final(self).written() == old(self).written() + seq![line@],
            final(self).state() == old(self).state(),
    {
        let ghost done = string_views(self.out@);
        self.out.push(line.clone());
        assert(string_views(self.out@) =~= done + seq![line@]);
    }

    fn flush(&mut self)
        ensures
            final(self).written() == old(self).written() + old(self).state().pending,
            final(self).pending@.len() == 0,
            final(self).overview_done == old(self).overview_done,
            final(self).step_seen == old(self).step_seen,
    {
        let ghost done = string_views(self.out@);
        let ghost waiting = string_views(self.pending@);
        self.out.append(&mut self.pending);
        assert(string_views(self.out@) =~= done + waiting);
    }

    fn read_heading(&mut self, line: &String, key: &str, sections: &Vec<Section>, inventory: &Inventory)
        ensures
            final(self).written() == old(self).written() + ((if old(self).step_seen {
                old(self).state().pending + rule_lines()
            } else {
                old(self).state().pending
            }) + seq![line@] + lines_after_heading(views(sections@), inventory@, key@)),
            final(self).state() == (PassState {
                overview_done: old(self).overview_done,
                step_seen: true,
                pending: lines_at_step_end(views(sections@), inventory@, key@),
            }),
    {
        let ghost done = string_views(self.out@);
        let ghost waiting = string_views(self.pending@);
        let ghost above = if self.step_seen {
            waiting + rule_lines()
        } else {
            waiting
        };
        self.flush();
        if self.step_seen {
            push_rule(&mut self.out);
        }
        assert(string_views(self.out@) =~= done + above);
        let ghost with_above = string_views(self.out@);
        self.out.push(line.clone());
        assert(string_views(self.out@) =~= with_above + seq![line@]);
        assert(string_views(self.pending@) =~= Seq::<Seq<char>>::empty());
        match find_section(sections, key) {
            Some(at) => {
                assert(views(sections@)[at as int] == sections@[at as int]@);
                let tables = section_tables(&sections[at].metadata, inventory, key);
                let used = tables.input_block(key);
                push_wrapped_block(&mut self.out, used.as_str());
                let produced = tables.output_block();
                push_wrapped_block(&mut self.pending, produced.as_str());
                assert(string_views(self.pending@) =~= lines_at_step_end(
                    views(sections@),
                    inventory@,
                    key@,
                ));
            },
            None => {},
        }
        self.step_seen = true;
        assert(string_views(self.out@) =~= done + (above + seq![line@] + lines_after_heading(
            views(sections@),
            inventory@,
            key@,
        )));
    }

    fn read_line(
        &mut self,
        line: &String,
        key: Option<&String>,
        overview: &str,
        sections: &Vec<Section>,
        inventory: &Inventory,
    )
        ensures
            final(self).written() == old(self).written() + written_at(
                line@,
                optional_ref_text(key),
                views(sections@),
                inventory@,
                overview@,
                old(self).state(),
            ),
            final(self).state() == state_after(
                line@,
                optional_ref_text(key),
                views(sections@),
                inventory@,
                old(self).state(),
            ),
    {
        if !self.overview_done && line_is_title(line.as_str()) {
            self.read_title(line, overview);
        } else {
            match key {
                Some(key) => {
                    self.read_heading(line, key.as_str(), sections, inventory);
                },
                None => {
                    self.read_plain(line);
                },
            }
        }
    }
}

/// The view of an optional reference to a string.
pub open spec fn optional_ref_text(s: Option<&String>) -> Option<Seq<char>> {
    match s {
        Some(t) => Some(t@),
        None => None,
    }
}

/// Puts the tables into the text of a chapter, where `step_keys` says for
/// each line of the text of which step it is the heading, if of any. A line
/// beyond the end of `step_keys` heads no step.
pub fn insert_tables_at(
    content: &str,
    step_keys: &Vec<Option<String>>,
    sections: &Vec<Section>,
    inventory: &Inventory,
) -> (r: String)
    requires
        overview_fits(views(sections@)),
    ensures
        r@ == rewritten_with(content@, optional_texts(step_keys@), views(sections@), inventory@),
{
    let lines = lines_of(content);
    let overview = generate_overview_tables(sections, inventory);
    let ghost ls = string_views(lines@);
    let ghost keys = optional_texts(step_keys@);
    let ghost secs = views(sections@);
    let ghost inv = inventory@;
    let mut pass = Pass {
        out: Vec::new(),
        pending: Vec::new(),
        overview_done: false,
        step_seen: false,
    };
    let mut i: usize = 0;
    assert(pass.state() == start_state()) by {
        assert(string_views(pass.pending@) =~= Seq::<Seq<char>>::empty());
    }
    assert(pass.written() + rewrite_from(ls, keys, secs, inv, overview@, 0, start_state())
        =~= rewrite_from(ls, keys, secs, inv, overview@, 0, start_state()));
    while i < lines.len()
        invariant
            i <= lines.len(),
            ls == string_views(lines@),
            keys == optional_texts(step_keys@),
            secs == views(sections@),
            inv == inventory@,
            pass.written() + rewrite_from(ls, keys, secs, inv, overview@, i as int, pass.state())
                == rewrite_from(ls, keys, secs, inv, overview@, 0, start_state()),
        decreases lines.len() - i,
    {
        let ghost done = pass.written();
        let ghost state = pass.state();
        let key: Option<&String> = if i < step_keys.len() {
            match &step_keys[i] {
                Some(k) => Some(k),
                None => None,
            }
        } else {
            None
        };
        assert(optional_ref_text(key) == key_at(keys, i as int));
        assert(lines@[i as int]@ == ls[i as int]);
        pass.read_line(&lines[i], key, overview.as_str(), sections, inventory);
        proof {
            let step = written_at(ls[i as int], key_at(keys, i as int), secs, inv, overview@, state);
            let next = rewrite_from(ls, keys, secs, inv, overview@, i + 1, pass.state());
            assert(rewrite_from(ls, keys, secs, inv, overview@, i as int, state) == step + next);
            assert(pass.written() + next =~= done + (step + next));
        }
        i += 1;
    }
    pass.flush();
    join(&pass.out)
}

/// Puts the tables into the text of a chapter: the overview after the title,
/// and at each step the tables of the section with the key of the step.
pub fn insert_section_tables(content: &str, sections: &Vec<Section>, inventory: &Inventory) -> (r:
    String)
    requires
        overview_fits(views(sections@)),
    ensures
        r@ == rewritten(content@, views(sections@), inventory@),
{
    let keys = find_step_headers(content);
    insert_tables_at(content, &keys, sections, inventory)
}

} // verus!
