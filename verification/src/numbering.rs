//! Pure policy for deriving numbered tab labels.

use vstd::prelude::*;
#[allow(unused_imports)]
use vstd::string::{StrSliceExecFns, StringExecFns};

use crate::text;
use crate::text::{characters, decimal_text, is_digit, skip_whitespace};

verus! {

/// Tab state needed to calculate its desired label.
#[derive(Debug, PartialEq, Eq)]
pub struct Tab {
    /// Stable Herdr identifier for the tab.
    pub tab_id: String,
    /// Stable Herdr identifier for the containing workspace.
    pub workspace_id: String,
    /// Current user-visible tab label.
    pub label: String,
}

impl Clone for Tab {
    fn clone(&self) -> (copy: Self)
        ensures
            copy == *self,
    {
        Tab {
            tab_id: self.tab_id.clone(),
            workspace_id: self.workspace_id.clone(),
            label: self.label.clone(),
        }
    }
}

/// The position after the run of digits that starts at `start`.
pub open spec fn digits_end(label: Seq<char>, start: int) -> int
    decreases label.len() - start,
{
    if 0 <= start < label.len() && text::digit(label[start]) {
        digits_end(label, start + 1)
    } else {
        start
    }
}

/// The position of the bracket that closes a leading `[digits]`, if there is one.
pub open spec fn prefix_end(label: Seq<char>) -> Option<int> {
    let end = digits_end(label, 1);
    if label.len() > 0 && label[0] == '[' && 1 < end < label.len() && label[end] == ']' {
        Some(end)
    } else {
        None
    }
}

/// A label without its leading `[digits]` prefixes and the white space behind each.
pub open spec fn base_label(label: Seq<char>) -> Seq<char>
    decreases label.len(),
{
    match prefix_end(label) {
        Some(end) => {
            proof {
                text::lemma_trim_start_len(label.skip(end + 1));
            }
            base_label(text::trim_start(label.skip(end + 1)))
        },
        None => label,
    }
}

/// The label that shows `position` in front of the base of `label`.
pub open spec fn numbered(position: nat, label: Seq<char>) -> Seq<char> {
    let prefix = seq!['['] + text::decimal(position) + seq![']'];
    if base_label(label).len() == 0 {
        prefix
    } else {
        prefix + seq![' '] + base_label(label)
    }
}

/// Whether a base label is empty or all digits.
pub open spec fn placeholder(label: Seq<char>) -> bool {
    forall|i: int| 0 <= i < label.len() ==> text::digit(#[trigger] label[i])
}

/// Renders the label of the tab at `position` in its workspace.
pub fn numbered_label(position: usize, label: &str) -> (rendered: String)
    ensures
        rendered@ == numbered(position as nat, label@),
{
    let base = strip_numeric_prefix(label);
    let mut rendered = String::new();
    rendered.push('[');
    rendered.append(decimal_text(position as u64).as_str());
    rendered.push(']');
    if !base.is_empty() {
        rendered.push(' ');
        rendered.append(base);
    }
    rendered
}

/// Removes every leading `[digits]` prefix together with the white space behind it.
pub fn strip_numeric_prefix(label: &str) -> (base: &str)
    ensures
        base@ == base_label(label@),
{
    let collected = characters(label);
    let length = collected.len();
    let mut start: usize = 0;
    assert(label@.skip(0) == label@);
    loop
        invariant
            start <= length,
            length == collected@.len(),
            collected@ == label@,
            base_label(label@.skip(start as int)) == base_label(label@),
        decreases length - start,
    {
        let ghost rest = label@.skip(start as int);
        let mut end: usize = start;
        if start < length {
            end = start + 1;
        }
        let ghost opened = end;
        while end < length && is_digit(collected[end])
            invariant
                start <= opened <= end <= length,
                start < length ==> opened == start + 1,
                start == length ==> opened == start,
                length == collected@.len(),
                collected@ == label@,
                rest == label@.skip(start as int),
                start < length ==> digits_end(rest, 1) == digits_end(rest, end - start),
            decreases length - end,
        {
            end = end + 1;
        }
        if start >= length || collected[start] != '[' || end <= start + 1 || end >= length
            || collected[end] != ']' {
            assert(prefix_end(rest) is None);
            return label.substring_char(start, length);
        }
        assert(prefix_end(rest) == Some(end - start));
        assert(rest.skip(end - start + 1) == label@.skip(end + 1));
        start = skip_whitespace(&collected, end + 1);
    }
}

/// Returns whether Herdr likely generated this empty or all-numeric base label.
pub fn is_placeholder(label: &str) -> (result: bool)
    ensures
        result == placeholder(label@),
{
    let collected = characters(label);
    let mut index: usize = 0;
    while index < collected.len()
        invariant
            index <= collected@.len(),
            collected@ == label@,
            forall|i: int| 0 <= i < index ==> text::digit(#[trigger] label@[i]),
        decreases collected@.len() - index,
    {
        if !is_digit(collected[index]) {
            assert(!text::digit(label@[index as int]));
            return false;
        }
        index = index + 1;
    }
    true
}

/// A base label carries no numeric prefix: stripping twice is stripping once.
pub proof fn stripping_is_idempotent(label: Seq<char>)
    ensures
        prefix_end(base_label(label)) is None,
        base_label(base_label(label)) == base_label(label),
    decreases label.len(),
{
    if let Some(end) = prefix_end(label) {
        text::lemma_trim_start_len(label.skip(end + 1));
        stripping_is_idempotent(text::trim_start(label.skip(end + 1)));
    }
}

proof fn lemma_digits_end(label: Seq<char>, start: int, end: int)
    requires
        0 <= start <= end < label.len(),
        forall|i: int| start <= i < end ==> text::digit(#[trigger] label[i]),
        !text::digit(label[end]),
    ensures
        digits_end(label, start) == end,
    decreases end - start,
{
    if start < end {
        lemma_digits_end(label, start + 1, end);
    }
}

/// A bracketed numeral in front of any text is stripped with the white space behind it.
proof fn lemma_strip_number(position: nat, rest: Seq<char>)
    ensures
        base_label(seq!['['] + text::decimal(position) + seq![']'] + rest) == base_label(
            text::trim_start(rest),
        ),
{
    let numeral = text::decimal(position);
    let label = seq!['['] + numeral + seq![']'] + rest;
    text::lemma_decimal_digits(position);
    assert forall|i: int| 1 <= i < 1 + numeral.len() implies text::digit(#[trigger] label[i]) by {
        assert(label[i] == numeral[i - 1]);
    }
    lemma_digits_end(label, 1, 1 + numeral.len() as int);
    assert(label.skip(2 + numeral.len() as int) == rest);
}

/// Trimming before or after stripping comes to the same base.
proof fn lemma_strip_trim(label: Seq<char>)
    ensures
        base_label(text::trim_start(base_label(label))) == base_label(text::trim_start(label)),
    decreases label.len(),
{
    if let Some(end) = prefix_end(label) {
        let rest = text::trim_start(label.skip(end + 1));
        text::lemma_trim_start_len(label.skip(end + 1));
        text::lemma_trim_start_idempotent(label.skip(end + 1));
        lemma_strip_trim(rest);
        assert(!text::whitespace(label[0]));
    }
}

/// The base of a rendered label is the base of the text it was rendered from.
///
/// White space in front of that text is the one thing that does not survive.
pub proof fn rendering_preserves_the_base(position: nat, label: Seq<char>)
    ensures
        base_label(numbered(position, label)) == base_label(text::trim_start(label)),
{
    let base = base_label(label);
    let prefix = seq!['['] + text::decimal(position) + seq![']'];
    lemma_strip_trim(label);
    if base.len() == 0 {
        lemma_strip_number(position, Seq::empty());
        assert(prefix + Seq::<char>::empty() == prefix);
        assert(text::trim_start(base) == base);
        assert(base == Seq::<char>::empty());
    } else {
        lemma_strip_number(position, seq![' '] + base);
        assert(prefix + (seq![' '] + base) == prefix + seq![' '] + base);
        assert((seq![' '] + base).drop_first() == base);
    }
}

/// Renumbering a rendered label gives what rendering at the new position gives.
pub proof fn renumbering_replaces_the_number(first: nat, second: nat, label: Seq<char>)
    ensures
        numbered(second, numbered(first, label)) == numbered(second, text::trim_start(label)),
{
    rendering_preserves_the_base(first, label);
}

} // verus!
