//! Text primitives: comparison, character classes and decimal numerals.

use vstd::prelude::*;
#[allow(unused_imports)]
use vstd::string::{StrSliceExecFns, StringExecFns};

verus! {

/// `String::push` appends the given character to the end of the string.
pub assume_specification[ String::push ](string: &mut String, character: char)
    ensures
        final(string)@ == old(string)@.push(character),
;

/// `==` on `str` holds exactly when both texts have the same characters.
pub assume_specification[ <str as PartialEq>::eq ](first: &str, second: &str) -> (equal: bool)
    ensures
        equal == (first@ == second@),
;

/// The views of an optional text.
pub open spec fn optional_text(text: Option<String>) -> Option<Seq<char>> {
    match text {
        Some(text) => Some(text@),
        None => None,
    }
}

/// Whether two texts hold the same characters.
pub fn text_eq(first: &str, second: &str) -> (equal: bool)
    ensures
        equal == (first@ == second@),
{
    *first == *second
}

/// The view of an optional borrowed text.
pub open spec fn borrowed_text(text: Option<&str>) -> Option<Seq<char>> {
    match text {
        Some(text) => Some(text@),
        None => None,
    }
}

/// The views of the texts of a list.
pub open spec fn texts(list: Seq<String>) -> Seq<Seq<char>> {
    list.map_values(|text: String| text@)
}

/// The set of the texts of a list.
pub open spec fn text_set(texts: Seq<String>) -> Set<Seq<char>> {
    Set::new(|text: Seq<char>| exists|i: int| 0 <= i < texts.len() && (#[trigger] texts[i])@ == text)
}

/// Copies a list of texts.
pub fn clone_texts(list: &Vec<String>) -> (copy: Vec<String>)
    ensures
        copy@ == list@,
{
    let mut copy: Vec<String> = Vec::new();
    let mut index: usize = 0;
    while index < list.len()
        invariant
            index <= list@.len(),
            copy@ == list@.take(index as int),
        decreases list@.len() - index,
    {
        copy.push(list[index].clone());
        assert(list@.take(index + 1) == list@.take(index as int).push(list@[index as int]));
        index = index + 1;
    }
    assert(list@.take(index as int) == list@);
    copy
}

/// Borrows an optional text.
pub fn borrow_text(text: &Option<String>) -> (borrowed: Option<&str>)
    ensures
        borrowed_text(borrowed) == optional_text(*text),
{
    match text {
        Some(text) => Some(text.as_str()),
        None => None,
    }
}

/// Whether a list holds a text.
pub fn list_contains(texts: &Vec<String>, text: &str) -> (found: bool)
    ensures
        found == text_set(texts@).contains(text@),
{
    let mut index: usize = 0;
    while index < texts.len()
        invariant
            index <= texts@.len(),
            forall|i: int| 0 <= i < index ==> (#[trigger] texts@[i])@ != text@,
        decreases texts@.len() - index,
    {
        if text_eq(texts[index].as_str(), text) {
            return true;
        }
        index = index + 1;
    }
    false
}

/// The characters of a text, one vector element each.
pub fn characters(text: &str) -> (collected: Vec<char>)
    ensures
        collected@ == text@,
{
    let mut collected: Vec<char> = Vec::new();
    for character in it: text.chars()
        invariant
            collected@ == it.seq().take(it.index()),
            it.seq() == text@,
    {
        collected.push(character);
        assert(it.seq().take(it.index() + 1) == it.seq().take(it.index()).push(
            it.seq()[it.index()],
        ));
    }
    assert(text@.take(text@.len() as int) == text@);
    collected
}

/// The text made of the characters from `start` up to, not including, `end`.
pub fn text_of(characters: &Vec<char>, start: usize, end: usize) -> (text: String)
    requires
        start <= end <= characters@.len(),
    ensures
        text@ == characters@.subrange(start as int, end as int),
{
    let mut text = String::new();
    let mut index: usize = start;
    while index < end
        invariant
            start <= index <= end <= characters@.len(),
            text@ == characters@.subrange(start as int, index as int),
        decreases end - index,
    {
        text.push(characters[index]);
        assert(characters@.subrange(start as int, index + 1) == characters@.subrange(
            start as int,
            index as int,
        ).push(characters@[index as int]));
        index = index + 1;
    }
    text
}

/// The characters with the Unicode `White_Space` property.
pub open spec fn whitespace(character: char) -> bool {
    ||| '\u{0009}' <= character <= '\u{000d}'
    ||| character == '\u{0020}'
    ||| character == '\u{0085}'
    ||| character == '\u{00a0}'
    ||| character == '\u{1680}'
    ||| '\u{2000}' <= character <= '\u{200a}'
    ||| character == '\u{2028}'
    ||| character == '\u{2029}'
    ||| character == '\u{202f}'
    ||| character == '\u{205f}'
    ||| character == '\u{3000}'
}

/// Whether a character has the Unicode `White_Space` property.
pub fn is_whitespace(character: char) -> (result: bool)
    ensures
        result == whitespace(character),
{
    ('\u{0009}' <= character && character <= '\u{000d}') || character == '\u{0020}' || character
        == '\u{0085}' || character == '\u{00a0}' || character == '\u{1680}' || ('\u{2000}'
        <= character && character <= '\u{200a}') || character == '\u{2028}' || character
        == '\u{2029}' || character == '\u{202f}' || character == '\u{205f}' || character
        == '\u{3000}'
}

/// Whether a text has no character but white space.
pub open spec fn blank(text: Seq<char>) -> bool {
    forall|i: int| 0 <= i < text.len() ==> whitespace(#[trigger] text[i])
}

/// Whether nothing is left of a text once its white space is trimmed.
pub fn is_blank(text: &str) -> (result: bool)
    ensures
        result == blank(text@),
{
    let collected = characters(text);
    let mut index: usize = 0;
    while index < collected.len()
        invariant
            index <= collected@.len(),
            collected@ == text@,
            forall|i: int| 0 <= i < index ==> whitespace(#[trigger] text@[i]),
        decreases collected@.len() - index,
    {
        if !is_whitespace(collected[index]) {
            assert(!whitespace(text@[index as int]));
            return false;
        }
        index = index + 1;
    }
    true
}

/// A text without its leading white space.
pub open spec fn trim_start(text: Seq<char>) -> Seq<char>
    decreases text.len(),
{
    if text.len() > 0 && whitespace(text[0]) {
        trim_start(text.drop_first())
    } else {
        text
    }
}

/// Trimming never lengthens a text.
pub proof fn lemma_trim_start_len(text: Seq<char>)
    ensures
        trim_start(text).len() <= text.len(),
    decreases text.len(),
{
    if text.len() > 0 && whitespace(text[0]) {
        lemma_trim_start_len(text.drop_first());
    }
}

/// A trimmed text has nothing left to trim.
pub proof fn lemma_trim_start_idempotent(text: Seq<char>)
    ensures
        trim_start(trim_start(text)) == trim_start(text),
        trim_start(text).len() > 0 ==> !whitespace(trim_start(text)[0]),
    decreases text.len(),
{
    if text.len() > 0 && whitespace(text[0]) {
        lemma_trim_start_idempotent(text.drop_first());
    }
}

/// The position of the first character from `start` on that is not white space.
pub fn skip_whitespace(characters: &Vec<char>, start: usize) -> (end: usize)
    requires
        start <= characters@.len(),
    ensures
        start <= end <= characters@.len(),
        characters@.skip(end as int) == trim_start(characters@.skip(start as int)),
{
    let mut index: usize = start;
    while index < characters.len() && is_whitespace(characters[index])
        invariant
            start <= index <= characters@.len(),
            trim_start(characters@.skip(index as int)) == trim_start(
                characters@.skip(start as int),
            ),
        decreases characters@.len() - index,
    {
        assert(characters@.skip(index as int).drop_first() == characters@.skip(index + 1));
        index = index + 1;
    }
    index
}

/// Where the part of a path behind its last slash starts.
pub open spec fn segment_start(path: Seq<char>) -> int
    decreases path.len(),
{
    if path.len() == 0 || path.last() == '/' {
        path.len() as int
    } else {
        segment_start(path.drop_last())
    }
}

/// The start of the last segment lies inside the path.
pub proof fn lemma_segment_start(path: Seq<char>)
    ensures
        0 <= segment_start(path) <= path.len(),
    decreases path.len(),
{
    if path.len() > 0 && path.last() != '/' {
        lemma_segment_start(path.drop_last());
    }
}

/// The last segment of a path is what stands behind its last slash.
pub proof fn lemma_last_segment(directory: Seq<char>, name: Seq<char>)
    requires
        directory.len() > 0 ==> directory.last() == '/',
        forall|i: int| 0 <= i < name.len() ==> #[trigger] name[i] != '/',
    ensures
        segment_start(directory + name) == directory.len(),
    decreases name.len(),
{
    if name.len() > 0 {
        assert((directory + name).drop_last() =~= directory + name.drop_last());
        assert((directory + name).last() == name[name.len() - 1]);
        assert forall|i: int| 0 <= i < name.drop_last().len() implies #[trigger] name.drop_last()[i]
            != '/' by {
            assert(name[i] != '/');
        }
        lemma_last_segment(directory, name.drop_last());
    } else {
        assert(directory + name =~= directory);
    }
}

/// Finds where the part behind the last slash in front of `end` starts.
pub fn find_segment_start(path: &Vec<char>, end: usize) -> (start: usize)
    requires
        end <= path@.len(),
    ensures
        start == segment_start(path@.take(end as int)),
        start <= end,
{
    let mut start: usize = end;
    while start > 0 && path[start - 1] != '/'
        invariant
            start <= end <= path@.len(),
            segment_start(path@.take(start as int)) == segment_start(path@.take(end as int)),
        decreases start,
    {
        assert(path@.take(start as int).drop_last() == path@.take(start - 1));
        start = start - 1;
    }
    start
}

/// The lexicographic order of texts.
pub open spec fn precedes(first: Seq<char>, second: Seq<char>) -> bool
    decreases first.len(),
{
    if second.len() == 0 {
        false
    } else if first.len() == 0 {
        true
    } else if first[0] != second[0] {
        first[0] < second[0]
    } else {
        precedes(first.drop_first(), second.drop_first())
    }
}

/// Whether a text comes before another in lexicographic order.
pub fn text_precedes(first: &str, second: &str) -> (result: bool)
    ensures
        result == precedes(first@, second@),
{
    let left = characters(first);
    let right = characters(second);
    let mut index: usize = 0;
    assert(left@.skip(0) == left@ && right@.skip(0) == right@);
    while index < left.len() && index < right.len() && left[index] == right[index]
        invariant
            index <= left@.len(),
            index <= right@.len(),
            precedes(left@.skip(index as int), right@.skip(index as int)) == precedes(left@, right@),
        decreases left@.len() - index,
    {
        assert(left@.skip(index as int).drop_first() == left@.skip(index + 1));
        assert(right@.skip(index as int).drop_first() == right@.skip(index + 1));
        index = index + 1;
    }
    if index >= right.len() {
        false
    } else if index >= left.len() {
        true
    } else {
        left[index] < right[index]
    }
}

/// Nothing comes before itself.
pub proof fn lemma_precedes_irreflexive(text: Seq<char>)
    ensures
        !precedes(text, text),
    decreases text.len(),
{
    if text.len() > 0 {
        lemma_precedes_irreflexive(text.drop_first());
    }
}

/// Of two different texts one comes first.
pub proof fn lemma_precedes_total(first: Seq<char>, second: Seq<char>)
    ensures
        precedes(first, second) || precedes(second, first) || first == second,
    decreases first.len(),
{
    if first.len() > 0 && second.len() > 0 && first[0] == second[0] {
        lemma_precedes_total(first.drop_first(), second.drop_first());
        if first.drop_first() == second.drop_first() {
            assert(first == seq![first[0]] + first.drop_first());
            assert(second == seq![second[0]] + second.drop_first());
        }
    }
}

/// What comes before a text comes before everything behind it.
pub proof fn lemma_precedes_transitive(first: Seq<char>, second: Seq<char>, third: Seq<char>)
    requires
        precedes(first, second),
        precedes(second, third),
    ensures
        precedes(first, third),
    decreases first.len(),
{
    if first.len() > 0 && second.len() > 0 && third.len() > 0 && first[0] == second[0] && second[0]
        == third[0] {
        lemma_precedes_transitive(first.drop_first(), second.drop_first(), third.drop_first());
    }
}

/// An ascending list with a text added at its place, unless it is there already.
pub open spec fn insert_ascending(list: Seq<Seq<char>>, text: Seq<char>) -> Seq<Seq<char>>
    decreases list.len(),
{
    if list.len() == 0 {
        seq![text]
    } else if list[0] == text {
        list
    } else if precedes(text, list[0]) {
        seq![text] + list
    } else {
        seq![list[0]] + insert_ascending(list.drop_first(), text)
    }
}

/// The distinct texts of a list in ascending order.
pub open spec fn ascending(list: Seq<Seq<char>>) -> Seq<Seq<char>>
    decreases list.len(),
{
    if list.len() == 0 {
        Seq::empty()
    } else {
        insert_ascending(ascending(list.drop_last()), list.last())
    }
}

/// Whether each text of a list comes before every text behind it.
pub open spec fn strictly_ascending(list: Seq<Seq<char>>) -> bool {
    forall|i: int, j: int| 0 <= i < j < list.len() ==> precedes(#[trigger] list[i], #[trigger] list[j])
}

proof fn lemma_insert_ascending(list: Seq<Seq<char>>, text: Seq<char>)
    requires
        strictly_ascending(list),
    ensures
        strictly_ascending(insert_ascending(list, text)),
        forall|other: Seq<char>| #[trigger]
            insert_ascending(list, text).contains(other) <==> list.contains(other) || other == text,
    decreases list.len(),
{
    let grown = insert_ascending(list, text);
    if list.len() == 0 {
        assert(grown[0] == text);
        assert forall|other: Seq<char>| #[trigger] grown.contains(other) implies other == text by {}
    } else if list[0] == text {
    } else if precedes(text, list[0]) {
        assert forall|i: int, j: int| 0 <= i < j < grown.len() implies precedes(
            #[trigger] grown[i],
            #[trigger] grown[j],
        ) by {
            assert(grown[j] == list[j - 1]);
            if i > 0 {
                assert(grown[i] == list[i - 1]);
            } else if j > 1 {
                lemma_precedes_transitive(text, list[0], list[j - 1]);
            }
        }
        assert forall|other: Seq<char>| #[trigger]
            grown.contains(other) <==> list.contains(other) || other == text by {
            if list.contains(other) {
                let i = choose|i: int| 0 <= i < list.len() && list[i] == other;
                assert(grown[i + 1] == other);
            }
            if grown.contains(other) {
                let i = choose|i: int| 0 <= i < grown.len() && grown[i] == other;
                if i > 0 {
                    assert(list[i - 1] == other);
                }
            }
            assert(grown[0] == text);
        }
    } else {
        let rest = list.drop_first();
        assert forall|i: int, j: int| 0 <= i < j < rest.len() implies precedes(
            #[trigger] rest[i],
            #[trigger] rest[j],
        ) by {
            assert(rest[i] == list[i + 1] && rest[j] == list[j + 1]);
        }
        lemma_insert_ascending(rest, text);
        lemma_precedes_total(text, list[0]);
        let tail = insert_ascending(rest, text);
        assert forall|i: int, j: int| 0 <= i < j < grown.len() implies precedes(
            #[trigger] grown[i],
            #[trigger] grown[j],
        ) by {
            assert(grown[j] == tail[j - 1]);
            if i > 0 {
                assert(grown[i] == tail[i - 1]);
            } else {
                assert(tail.contains(tail[j - 1]));
                if tail[j - 1] != text {
                    let k = choose|k: int| 0 <= k < rest.len() && rest[k] == tail[j - 1];
                    assert(list[k + 1] == rest[k]);
                }
            }
        }
        assert forall|other: Seq<char>| #[trigger]
            grown.contains(other) <==> list.contains(other) || other == text by {
            assert(tail.contains(other) <==> rest.contains(other) || other == text);
            if list.contains(other) {
                let i = choose|i: int| 0 <= i < list.len() && list[i] == other;
                if i == 0 {
                    assert(grown[0] == other);
                } else {
                    assert(rest[i - 1] == other);
                    let k = choose|k: int| 0 <= k < tail.len() && tail[k] == other;
                    assert(grown[k + 1] == other);
                }
            }
            if other == text {
                let k = choose|k: int| 0 <= k < tail.len() && tail[k] == other;
                assert(grown[k + 1] == other);
            }
            if grown.contains(other) {
                let i = choose|i: int| 0 <= i < grown.len() && grown[i] == other;
                if i == 0 {
                    assert(list[0] == other);
                } else {
                    assert(tail[i - 1] == other);
                    if other != text {
                        let k = choose|k: int| 0 <= k < rest.len() && rest[k] == other;
                        assert(list[k + 1] == other);
                    }
                }
            }
        }
    }
}

/// Sorting keeps exactly the texts of the list, each once, in strictly ascending order.
pub proof fn ascending_lists_each_text_once(list: Seq<Seq<char>>)
    ensures
        strictly_ascending(ascending(list)),
        forall|text: Seq<char>| #[trigger] ascending(list).contains(text) <==> list.contains(text),
    decreases list.len(),
{
    if list.len() > 0 {
        let shorter = list.drop_last();
        ascending_lists_each_text_once(shorter);
        lemma_insert_ascending(ascending(shorter), list.last());
        assert forall|text: Seq<char>| #[trigger]
            ascending(list).contains(text) <==> list.contains(text) by {
            assert(ascending(shorter).contains(text) <==> shorter.contains(text));
            if list.contains(text) && text != list.last() {
                let i = choose|i: int| 0 <= i < list.len() && list[i] == text;
                assert(shorter[i] == text);
            }
            if shorter.contains(text) {
                let i = choose|i: int| 0 <= i < shorter.len() && shorter[i] == text;
                assert(list[i] == text);
            }
            assert(list[list.len() - 1] == list.last());
        }
    }
}

/// Adds a text to an ascending list at its place, unless it is there already.
pub fn add_ascending(list: &mut Vec<String>, text: String)
    ensures
        texts(final(list)@) == insert_ascending(texts(old(list)@), text@),
{
    let ghost before = texts(list@);
    let mut index: usize = 0;
    assert(before.skip(0) == before);
    assert(before.take(0) + insert_ascending(before, text@) == insert_ascending(before, text@));
    while index < list.len() && !text_eq(list[index].as_str(), text.as_str()) && !text_precedes(
        text.as_str(),
        list[index].as_str(),
    )
        invariant
            index <= list@.len(),
            list@ == old(list)@,
            before == texts(list@),
            before.take(index as int) + insert_ascending(before.skip(index as int), text@)
                == insert_ascending(before, text@),
        decreases list@.len() - index,
    {
        let ghost rest = before.skip(index as int);
        assert(rest[0] == before[index as int]);
        assert(rest.drop_first() == before.skip(index + 1));
        assert(before.take(index + 1) + insert_ascending(before.skip(index + 1), text@)
            == before.take(index as int) + (seq![rest[0]] + insert_ascending(
            before.skip(index + 1),
            text@,
        )));
        index = index + 1;
    }
    if index >= list.len() {
        list.push(text);
        assert(texts(list@) =~= before.take(index as int) + seq![text@]);
    } else if text_eq(list[index].as_str(), text.as_str()) {
        assert(before.skip(index as int)[0] == before[index as int]);
        assert(before.take(index as int) + before.skip(index as int) == before);
    } else {
        assert(before.skip(index as int)[0] == before[index as int]);
        list.insert(index, text);
        assert(texts(list@) =~= before.take(index as int) + (seq![text@] + before.skip(
            index as int,
        )));
    }
}

/// The texts of a list with a separator between each two.
pub open spec fn joined(list: Seq<Seq<char>>, separator: Seq<char>) -> Seq<char>
    decreases list.len(),
{
    if list.len() == 0 {
        Seq::empty()
    } else if list.len() == 1 {
        list[0]
    } else {
        joined(list.drop_last(), separator) + separator + list.last()
    }
}

/// Joins the texts of a list with a separator between each two.
pub fn join(list: &Vec<String>, separator: &str) -> (text: String)
    ensures
        text@ == joined(texts(list@), separator@),
{
    let mut text = String::new();
    let mut index: usize = 0;
    assert(texts(list@).take(0) == Seq::<Seq<char>>::empty());
    while index < list.len()
        invariant
            index <= list@.len(),
            text@ == joined(texts(list@).take(index as int), separator@),
        decreases list@.len() - index,
    {
        assert(texts(list@).take(index + 1).drop_last() == texts(list@).take(index as int));
        if index > 0 {
            text.append(separator);
        }
        text.append(list[index].as_str());
        assert(text@ == joined(texts(list@).take(index + 1), separator@));
        index = index + 1;
    }
    assert(texts(list@).take(index as int) == texts(list@));
    text
}

/// The ASCII decimal digits.
pub open spec fn digit(character: char) -> bool {
    '0' <= character <= '9'
}

/// Whether a character is an ASCII decimal digit.
pub fn is_digit(character: char) -> (result: bool)
    ensures
        result == digit(character),
{
    '0' <= character && character <= '9'
}

/// The digit character that stands for a number below ten.
pub open spec fn digit_character(number: int) -> char {
    ('0' as int + number) as char
}

/// The decimal numeral of a number, without leading zeros.
pub open spec fn decimal(number: nat) -> Seq<char>
    decreases number,
{
    if number < 10 {
        seq![digit_character(number as int)]
    } else {
        decimal(number / 10).push(digit_character((number % 10) as int))
    }
}

/// A numeral is a non-empty run of digits.
pub proof fn lemma_decimal_digits(number: nat)
    ensures
        decimal(number).len() > 0,
        forall|i: int| 0 <= i < decimal(number).len() ==> digit(#[trigger] decimal(number)[i]),
    decreases number,
{
    if number >= 10 {
        lemma_decimal_digits(number / 10);
    }
}

/// The number that a run of digits stands for.
pub open spec fn decimal_value(digits: Seq<char>) -> nat
    decreases digits.len(),
{
    if digits.len() == 0 {
        0
    } else {
        decimal_value(digits.drop_last()) * 10 + (digits.last() as int - '0' as int) as nat
    }
}

/// Reading a numeral gives back the number it was written for.
pub proof fn decimal_round_trip(number: nat)
    ensures
        decimal_value(decimal(number)) == number,
    decreases number,
{
    reveal_with_fuel(decimal_value, 2);
    if number >= 10 {
        decimal_round_trip(number / 10);
        assert(decimal(number).drop_last() == decimal(number / 10));
    } else {
        assert(decimal(number).drop_last() == Seq::<char>::empty());
    }
}

fn digit_of(number: u64) -> (character: char)
    requires
        number < 10,
    ensures
        character == digit_character(number as int),
{
    (48u8 + number as u8) as char
}

/// Writes a number as a decimal numeral.
pub fn decimal_text(number: u64) -> (text: String)
    ensures
        text@ == decimal(number as nat),
    decreases number,
{
    if number < 10 {
        let mut text = String::new();
        text.push(digit_of(number));
        assert(text@ == decimal(number as nat));
        text
    } else {
        let mut text = decimal_text(number / 10);
        text.push(digit_of(number % 10));
        text
    }
}

/// A text without the plus sign that may stand in front of its digits.
pub open spec fn unsigned_digits(text: Seq<char>) -> Seq<char> {
    if text.len() > 0 && text[0] == '+' {
        text.skip(1)
    } else {
        text
    }
}

/// Whether a text is made of digits alone.
pub open spec fn all_digits(text: Seq<char>) -> bool {
    forall|i: int| 0 <= i < text.len() ==> digit(#[trigger] text[i])
}

/// The number that a text stands for as an unsigned integer of 32 bits.
pub open spec fn parsed_number(text: Seq<char>) -> Option<u32> {
    let digits = unsigned_digits(text);
    if digits.len() > 0 && all_digits(digits) && decimal_value(digits) <= u32::MAX {
        Some(decimal_value(digits) as u32)
    } else {
        None
    }
}

proof fn lemma_value_grows(digits: Seq<char>, length: int)
    requires
        0 <= length <= digits.len(),
        all_digits(digits),
    ensures
        decimal_value(digits.take(length)) <= decimal_value(digits),
    decreases digits.len(),
{
    if length < digits.len() {
        let shorter = digits.drop_last();
        assert forall|i: int| 0 <= i < shorter.len() implies digit(#[trigger] shorter[i]) by {
            assert(shorter[i] == digits[i]);
        }
        assert(shorter.take(length) == digits.take(length));
        lemma_value_grows(shorter, length);
    } else {
        assert(digits.take(length) == digits);
    }
}

/// Reads an unsigned integer of 32 bits.
pub fn parse_number(text: &str) -> (number: Option<u32>)
    ensures
        number == parsed_number(text@),
{
    let collected = characters(text);
    let mut start: usize = 0;
    if collected.len() > 0 && collected[0] == '+' {
        start = 1;
    }
    let ghost digits = collected@.skip(start as int);
    assert(start == 0 ==> digits == text@);
    if start == collected.len() {
        return None;
    }
    let mut value: u64 = 0;
    let mut index: usize = start;
    assert(digits.take(0) == Seq::<char>::empty());
    while index < collected.len()
        invariant
            start <= index <= collected@.len(),
            digits == collected@.skip(start as int),
            digits == unsigned_digits(text@),
            value <= u32::MAX,
            value == decimal_value(digits.take(index - start)),
            forall|i: int| 0 <= i < index - start ==> digit(#[trigger] digits[i]),
        decreases collected@.len() - index,
    {
        let character = collected[index];
        assert(digits[index - start] == character);
        if !is_digit(character) {
            assert(!digit(digits[index - start]));
            return None;
        }
        let ghost longer = digits.take(index - start + 1);
        assert(longer.drop_last() == digits.take(index - start));
        assert(longer.last() == character);
        let unit: u64 = character as u64 - 48;
        value = value * 10 + unit;
        assert(value == decimal_value(longer));
        if value > u32::MAX as u64 {
            proof {
                if all_digits(digits) {
                    lemma_value_grows(digits, index - start + 1);
                }
            }
            return None;
        }
        index = index + 1;
    }
    assert(digits.take(index - start) == digits);
    Some(value as u32)
}

/// Reading what was written as a numeral gives back the number.
pub proof fn numerals_are_read_back(number: u32)
    ensures
        parsed_number(decimal(number as nat)) == Some(number),
{
    lemma_decimal_digits(number as nat);
    decimal_round_trip(number as nat);
    assert(digit(decimal(number as nat)[0]));
}

} // verus!
