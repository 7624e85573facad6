//! The anchors of a chapter: its title and the headings of its steps.
//!
//! The title is the first line that starts with one hash and a space. The
//! heading of a step is a line of two or more hashes, the word "Step" in
//! any case, and a number; what follows the number is free. Which lines are
//! such headings is decided by a regular expression, and the `regex` crate
//! matches it.

use crate::schema::optional_text;
use crate::text::{lines_of, split_lines, string_views};
use vstd::prelude::*;

verus! {

/// The pattern of the heading of a step. Its group is the number.
pub const STEP_PATTERN: &'static str = "(?i)^##+\\s+Step\\s+(\\d+):?.*$";

/// What stands before the number in the key of a step.
pub const STEP_KEY_PREFIX: &'static str = "step_";

/// The group of the pattern that holds the number.
pub const STEP_NUMBER_GROUP: usize = 1;

/// What the group with the number `group` of `pattern` holds at the leftmost
/// match of the pattern in `text`, as the `regex` crate finds it: nothing if
/// `pattern` is no regular expression, if it does not match, if it has no
/// such group, or if the group takes no part in the match.
pub uninterp spec fn regex_group(pattern: Seq<char>, text: Seq<char>, group: nat) -> Option<
    Seq<char>,
>;

/// Compiles `pattern` with `regex::Regex::new`, searches `text` with
/// `Regex::captures` and hands out the text of the group `group` of the
/// match, as `Captures::get` and `Match::as_str` give it. The result is what
/// `regex_group` names; nothing more is claimed of it.
#[verifier::external_body]
fn group_of_match(pattern: &str, text: &str, group: usize) -> (r: Option<String>)
    ensures
        optional_text(r) == regex_group(pattern@, text@, group as nat),
{
    match regex::Regex::new(pattern) {
        Ok(re) => re.captures(text).and_then(|found| found.get(group)).map(
            |m| m.as_str().to_string(),
        ),
        Err(_) => None,
    }
}

/// Whether the line is a title: a heading of the first level.
pub open spec fn is_title(line: Seq<char>) -> bool {
    line.len() >= 2 && line[0] == '#' && line[1] == ' '
}

/// Whether the line starts as a heading below the first level does.
pub open spec fn is_subheading(line: Seq<char>) -> bool {
    line.len() >= 2 && line[0] == '#' && line[1] == '#'
}

/// The number of the step of which `line` is the heading, if it is one.
pub open spec fn step_number(line: Seq<char>) -> Option<Seq<char>> {
    if is_subheading(line) {
        regex_group(STEP_PATTERN@, line, STEP_NUMBER_GROUP as nat)
    } else {
        None
    }
}

/// The key of the step with the number `number`.
pub open spec fn step_key(number: Seq<char>) -> Seq<char> {
    STEP_KEY_PREFIX@ + number
}

/// The key of the step of which `line` is the heading, if it is one.
pub open spec fn step_key_of_line(line: Seq<char>) -> Option<Seq<char>> {
    match step_number(line) {
        Some(number) => Some(step_key(number)),
        None => None,
    }
}

/// For each line the key of the step that it heads, if any.
pub open spec fn step_keys(lines: Seq<Seq<char>>) -> Seq<Option<Seq<char>>> {
    lines.map_values(|line: Seq<char>| step_key_of_line(line))
}

/// The views of a vector of optional strings.
pub open spec fn optional_texts(v: Seq<Option<String>>) -> Seq<Option<Seq<char>>> {
    v.map_values(|s: Option<String>| optional_text(s))
}

/// Whether the line is a title.
pub fn line_is_title(line: &str) -> (r: bool)
    ensures
        r == is_title(line@),
{
    let mut it = line.chars();
    let first = it.next();
    let second = it.next();
    match (first, second) {
        (Some(a), Some(b)) => {
            assert(line@.skip(0).drop_first() =~= line@.skip(1));
            a == '#' && b == ' '
        },
        _ => false,
    }
}

/// Whether the line starts as a heading below the first level does.
pub fn line_is_subheading(line: &str) -> (r: bool)
    ensures
        r == is_subheading(line@),
{
    let mut it = line.chars();
    let first = it.next();
    let second = it.next();
    match (first, second) {
        (Some(a), Some(b)) => {
            assert(line@.skip(0).drop_first() =~= line@.skip(1));
            a == '#' && b == '#'
        },
        _ => false,
    }
}

/// The key of the step with the number `number`.
pub fn key_of_step(number: &str) -> (key: String)
    ensures
        key@ == step_key(number@),
{
    let mut key = String::new();
    key.append(STEP_KEY_PREFIX);
    key.append(number);
    assert(key@ =~= step_key(number@));
    key
}

/// The key of the step of which `line` is the heading, if it is one.
pub fn line_step_key(line: &str) -> (key: Option<String>)
    ensures
        optional_text(key) == step_key_of_line(line@),
{
    if !line_is_subheading(line) {
        return None;
    }
    match group_of_match(STEP_PATTERN, line, STEP_NUMBER_GROUP) {
        Some(number) => Some(key_of_step(number.as_str())),
        None => None,
    }
}

/// For each line of `content` the key of the step that it heads, if any.
pub fn find_step_headers(content: &str) -> (keys: Vec<Option<String>>)
    ensures
        optional_texts(keys@) == step_keys(split_lines(content@)),
{
    let lines = lines_of(content);
    let mut keys: Vec<Option<String>> = Vec::new();
    let mut i: usize = 0;
    while i < lines.len()
        invariant
            i <= lines.len(),
            keys@.len() == i,
            forall|j: int|
                0 <= j < i ==> optional_text(#[trigger] keys@[j]) == step_key_of_line(lines@[j]@),
        decreases lines.len() - i,
    {
        keys.push(line_step_key(lines[i].as_str()));
        i += 1;
    }
    proof {
        assert(optional_texts(keys@) =~= step_keys(string_views(lines@)));
    }
    keys
}

} // verus!
