//! What labels and numbers look like, in terms of the characters they are made of.

use vstd::prelude::*;

use crate::naming;
use crate::naming::{ObservedProcess, PolicyView};
use crate::numbering;
use crate::text;

verus! {

/// A text without the characters that move a terminal's cursor instead of showing something.
pub open spec fn printable(text: Seq<char>) -> Seq<char> {
    text.filter(
        |character: char|
            !(character <= '\u{1f}' || '\u{7f}' <= character && character <= '\u{9f}'),
    )
}

/// The first characters of a text, up to a number of them.
pub open spec fn cut(text: Seq<char>, length: nat) -> Seq<char> {
    if text.len() <= length {
        text
    } else {
        text.subrange(0, length as int)
    }
}

/// Whether a program is shown under another name: its command line or its basename has an alias.
pub open spec fn aliased(policy: PolicyView, process: ObservedProcess) -> bool {
    ||| process.command_line matches Some(line) && line@.len() > 0 && policy.aliases.dom().contains(
        line@,
    )
    ||| policy.aliases.dom().contains(naming::normalized(process.program@))
}

proof fn lemma_printable(text: Seq<char>)
    ensures
        naming::without_controls(text) == printable(text),
    decreases text.len(),
{
    reveal(Seq::filter);
    let shown = |character: char|
        !(character <= '\u{1f}' || '\u{7f}' <= character && character <= '\u{9f}');
    let kept = |character: char| !naming::control(character);
    assert(text.filter(shown) == printable(text));
    assert(text.filter(kept) == naming::without_controls(text));
    if text.len() > 0 {
        lemma_printable(text.drop_last());
        assert(shown(text.last()) == kept(text.last()));
        assert(text.drop_last().filter(shown) == text.drop_last().filter(kept));
    }
}

proof fn lemma_finished(policy: PolicyView, name: Seq<char>)
    ensures
        policy.finished(name) == cut(printable(name), policy.max_label_chars),
{
    lemma_printable(name);
    assert(policy.finished(name) =~= cut(printable(name), policy.max_label_chars));
}

/// A program that is neither aliased nor a shell nor ignored is shown under its own name, whether
/// or not idle shells are hidden.
pub proof fn running_programs_are_shown(
    policy: PolicyView,
    shell: Seq<char>,
    process: ObservedProcess,
)
    requires
        ({
            let name = naming::normalized(process.program@);
            &&& name.len() > 0
            &&& !aliased(policy, process)
            &&& !policy.shells.contains(name)
            &&& !policy.ignored_processes.contains(name)
        }),
    ensures
        policy.label(shell, Some(process)) == Some(
            cut(printable(naming::normalized(process.program@)), policy.max_label_chars),
        ),
{
    lemma_finished(policy, naming::normalized(process.program@));
}

/// An alias is shown whatever it stands for, that of the whole command line before that of the
/// program, and never hidden.
pub proof fn aliases_replace_names(
    policy: PolicyView,
    shell: Seq<char>,
    process: ObservedProcess,
)
    requires
        naming::normalized(process.program@).len() > 0,
        aliased(policy, process),
    ensures
        ({
            let by_line = process.command_line is Some && process.command_line->0@.len() > 0
                && policy.aliases.dom().contains(process.command_line->0@);
            let alias = if by_line {
                policy.aliases[process.command_line->0@]
            } else {
                policy.aliases[naming::normalized(process.program@)]
            };
            policy.label(shell, Some(process)) == Some(
                cut(printable(alias), policy.max_label_chars),
            )
        }),
{
    let line = text::optional_text(process.command_line);
    let alias = policy.alias(naming::normalized(process.program@), line)->0;
    lemma_finished(policy, alias);
}

/// A shell in the foreground is shown under its own name, or hidden where idle shells are.
pub proof fn idle_shells_are_shown_unless_hidden(
    policy: PolicyView,
    shell: Seq<char>,
    process: ObservedProcess,
)
    requires
        ({
            let name = naming::normalized(process.program@);
            name.len() > 0 && !aliased(policy, process) && policy.shells.contains(name)
        }),
    ensures
        policy.hide_idle_shell <==> policy.label(shell, Some(process)) is None,
        !policy.hide_idle_shell ==> policy.label(shell, Some(process)) == Some(
            cut(printable(naming::normalized(process.program@)), policy.max_label_chars),
        ),
{
    lemma_finished(policy, naming::normalized(process.program@));
}

/// Where no program counts, the shell that was supplied is shown, or hidden where idle shells are:
/// nothing was observed, the program has no name, or it is ignored.
pub proof fn uncounted_programs_leave_the_shell(
    policy: PolicyView,
    shell: Seq<char>,
    process: Option<ObservedProcess>,
)
    requires
        match process {
            None => true,
            Some(process) => {
                let name = naming::normalized(process.program@);
                name.len() == 0 || (!aliased(policy, process) && !policy.shells.contains(name)
                    && policy.ignored_processes.contains(name))
            },
        },
    ensures
        policy.hide_idle_shell <==> policy.label(shell, process) is None,
        !policy.hide_idle_shell ==> policy.label(shell, process) == Some(
            cut(printable(naming::normalized(shell)), policy.max_label_chars),
        ),
{
    lemma_finished(policy, naming::normalized(shell));
}

/// Naming a running program is labelling an observation without a command line.
pub proof fn program_labels_are_labels_of_observations(
    policy: PolicyView,
    shell: Seq<char>,
    process: ObservedProcess,
)
    requires
        process.command_line is None,
    ensures
        policy.program_label(shell, process.program@, None) == policy.label(shell, Some(process)),
{
}

/// Which programs are shells and which are ignored goes by their basenames alone.
pub proof fn shells_and_ignored_programs_go_by_basename(policy: PolicyView, program: Seq<char>)
    ensures
        policy.shell_program(program) <==> policy.shells.contains(naming::normalized(program)),
        policy.ignored_program(program) <==> policy.ignored_processes.contains(
            naming::normalized(program),
        ),
{
}

proof fn lemma_trimmed(dashes: Seq<char>, rest: Seq<char>)
    requires
        forall|i: int| 0 <= i < dashes.len() ==> #[trigger] dashes[i] == '-',
        rest.len() > 0 ==> rest[0] != '-',
    ensures
        naming::trim_dashes(dashes + rest) == rest,
    decreases dashes.len(),
{
    if dashes.len() > 0 {
        assert((dashes + rest)[0] == dashes[0]);
        assert((dashes + rest).drop_first() =~= dashes.drop_first() + rest);
        lemma_trimmed(dashes.drop_first(), rest);
    } else {
        assert(dashes + rest =~= rest);
    }
}

proof fn lemma_segment(directory: Seq<char>, rest: Seq<char>)
    requires
        directory.len() > 0 ==> directory.last() == '/' || directory.last() == '\\',
        forall|i: int| 0 <= i < rest.len() ==> #[trigger] rest[i] != '/' && rest[i] != '\\',
    ensures
        naming::last_segment(directory + rest) == rest,
    decreases rest.len(),
{
    let whole = directory + rest;
    if rest.len() > 0 {
        assert(rest[rest.len() - 1] != '/');
        assert(whole.last() == rest.last());
        assert(whole.drop_last() =~= directory + rest.drop_last());
        assert forall|i: int| 0 <= i < rest.drop_last().len() implies #[trigger] rest.drop_last()[i]
            != '/' && rest.drop_last()[i] != '\\' by {
            assert(rest[i] != '/');
        }
        lemma_segment(directory, rest.drop_last());
        assert(rest.drop_last().push(rest.last()) =~= rest);
    } else {
        assert(whole =~= directory);
        assert(naming::last_segment(directory) =~= rest);
    }
}

/// The directories in front of a program and the dashes of a login shell do not belong to its name;
/// everything behind them that can be shown does.
pub proof fn basenames_are_kept(directory: Seq<char>, dashes: Seq<char>, base: Seq<char>)
    requires
        directory.len() > 0 ==> directory.last() == '/' || directory.last() == '\\',
        forall|i: int| 0 <= i < dashes.len() ==> #[trigger] dashes[i] == '-',
        forall|i: int| 0 <= i < base.len() ==> #[trigger] base[i] != '/' && base[i] != '\\',
        base.len() > 0 ==> base[0] != '-',
    ensures
        naming::normalized(directory + dashes + base) == printable(base),
{
    let rest = dashes + base;
    assert(directory + dashes + base =~= directory + rest);
    assert forall|i: int| 0 <= i < rest.len() implies #[trigger] rest[i] != '/' && rest[i] != '\\' by {
        if i < dashes.len() {
            assert(rest[i] == dashes[i]);
        } else {
            assert(rest[i] == base[i - dashes.len()]);
        }
    }
    lemma_segment(directory, rest);
    lemma_trimmed(dashes, base);
    lemma_printable(base);
}

/// Every name of a program is made of directories, dashes and a basename, so each has one.
pub proof fn every_program_has_a_basename(program: Seq<char>) -> (parts: (
    Seq<char>,
    Seq<char>,
    Seq<char>,
))
    ensures
        program == parts.0 + parts.1 + parts.2,
        parts.0.len() > 0 ==> parts.0.last() == '/' || parts.0.last() == '\\',
        forall|i: int| 0 <= i < parts.1.len() ==> #[trigger] parts.1[i] == '-',
        forall|i: int|
            0 <= i < parts.2.len() ==> #[trigger] parts.2[i] != '/' && parts.2[i] != '\\',
        parts.2.len() > 0 ==> parts.2[0] != '-',
        naming::normalized(program) == printable(parts.2),
    decreases program.len(),
{
    let parts = if program.len() == 0 {
        (Seq::empty(), Seq::empty(), Seq::empty())
    } else {
        let last = program.last();
        let (directory, dashes, base) = every_program_has_a_basename(program.drop_last());
        assert(program =~= program.drop_last().push(last));
        if last == '/' || last == '\\' {
            (program, Seq::empty(), Seq::empty())
        } else if last == '-' && base.len() == 0 {
            (directory, dashes.push(last), base)
        } else {
            (directory, dashes, base.push(last))
        }
    };
    assert(program =~= parts.0 + parts.1 + parts.2);
    basenames_are_kept(parts.0, parts.1, parts.2);
    parts
}

/// Whether a text is made of the characters from `0` to `9`.
pub open spec fn numeral(text: Seq<char>) -> bool {
    forall|i: int| 0 <= i < text.len() ==> '0' <= #[trigger] text[i] && text[i] <= '9'
}

/// Whether a label starts with a number in brackets.
pub open spec fn looks_numbered(label: Seq<char>) -> bool {
    exists|end: int|
        #![trigger label[end]]
        1 < end < label.len() && label[0] == '[' && label[end] == ']' && numeral(
            label.subrange(1, end),
        )
}

proof fn lemma_digits(label: Seq<char>, start: int, end: int)
    requires
        0 <= start <= end < label.len(),
        numeral(label.subrange(start, end)),
        !('0' <= label[end] <= '9'),
    ensures
        numbering::digits_end(label, start) == end,
    decreases end - start,
{
    if start < end {
        assert(label.subrange(start, end)[0] == label[start]);
        assert forall|i: int| 0 <= i < label.subrange(start + 1, end).len() implies '0'
            <= #[trigger] label.subrange(start + 1, end)[i] && label.subrange(start + 1, end)[i]
            <= '9' by {
            assert(label.subrange(start + 1, end)[i] == label.subrange(start, end)[i + 1]);
        }
        lemma_digits(label, start + 1, end);
    }
}

proof fn lemma_digits_before(label: Seq<char>, start: int)
    requires
        0 <= start <= label.len(),
    ensures
        start <= numbering::digits_end(label, start) <= label.len(),
        numeral(label.subrange(start, numbering::digits_end(label, start))),
    decreases label.len() - start,
{
    let end = numbering::digits_end(label, start);
    if start < label.len() && '0' <= label[start] <= '9' {
        lemma_digits_before(label, start + 1);
        assert forall|i: int| 0 <= i < label.subrange(start, end).len() implies '0'
            <= #[trigger] label.subrange(start, end)[i] && label.subrange(start, end)[i] <= '9' by {
            if i > 0 {
                assert(label.subrange(start, end)[i] == label.subrange(start + 1, end)[i - 1]);
            }
        }
    }
}

/// A label that does not start with a number in brackets is its own base.
pub proof fn unnumbered_labels_are_their_base(label: Seq<char>)
    requires
        !looks_numbered(label),
    ensures
        numbering::base_label(label) == label,
{
    if numbering::prefix_end(label) is Some {
        let end = numbering::digits_end(label, 1);
        lemma_digits_before(label, 1);
        assert(label[end] == ']');
        assert(looks_numbered(label));
    }
}

proof fn lemma_blanks_trimmed(blanks: Seq<char>, rest: Seq<char>)
    requires
        text::blank(blanks),
        rest.len() > 0 ==> !text::whitespace(rest[0]),
    ensures
        text::trim_start(blanks + rest) == rest,
    decreases blanks.len(),
{
    if blanks.len() > 0 {
        assert(text::whitespace(blanks[0]));
        assert((blanks + rest)[0] == blanks[0]);
        assert((blanks + rest).drop_first() =~= blanks.drop_first() + rest);
        assert forall|i: int| 0 <= i < blanks.drop_first().len() implies text::whitespace(
            #[trigger] blanks.drop_first()[i],
        ) by {
            assert(text::whitespace(blanks[i + 1]));
        }
        lemma_blanks_trimmed(blanks.drop_first(), rest);
    } else {
        assert(blanks + rest =~= rest);
    }
}

/// A number in brackets in front of a label and the white space behind it do not belong to its
/// base.
pub proof fn numbers_are_stripped(number: Seq<char>, blanks: Seq<char>, rest: Seq<char>)
    requires
        number.len() > 0,
        numeral(number),
        text::blank(blanks),
        rest.len() > 0 ==> !text::whitespace(rest[0]),
    ensures
        numbering::base_label(seq!['['] + number + seq![']'] + blanks + rest)
            == numbering::base_label(rest),
{
    let label = seq!['['] + number + seq![']'] + blanks + rest;
    let end = 1 + number.len() as int;
    assert(label.subrange(1, end) =~= number);
    assert(label[end] == ']');
    lemma_digits(label, 1, end);
    assert(label.skip(end + 1) =~= blanks + rest);
    lemma_blanks_trimmed(blanks, rest);
}

/// A number is written without leading zeros, in the digits that stand for it.
pub proof fn numbers_are_written_out(number: nat)
    ensures
        numeral(text::decimal(number)),
        text::decimal(number).len() > 0,
        text::decimal_value(text::decimal(number)) == number,
        text::decimal(number)[0] == '0' ==> number == 0 && text::decimal(number).len() == 1,
    decreases number,
{
    text::lemma_decimal_digits(number);
    text::decimal_round_trip(number);
    assert forall|i: int| 0 <= i < text::decimal(number).len() implies '0'
        <= #[trigger] text::decimal(number)[i] && text::decimal(number)[i] <= '9' by {
        assert(text::digit(text::decimal(number)[i]));
    }
    if number >= 10 {
        numbers_are_written_out(number / 10);
        assert(text::decimal(number)[0] == text::decimal(number / 10)[0]);
    } else {
        assert(number > 0 ==> text::digit_character(number as int) != '0');
    }
}

/// The value of a numeral is built up digit by digit.
pub proof fn numerals_have_their_value(digits: Seq<char>, last: char)
    requires
        numeral(digits),
        '0' <= last <= '9',
    ensures
        text::decimal_value(Seq::empty()) == 0,
        text::decimal_value(digits.push(last)) == 10 * text::decimal_value(digits) + (last as int
            - '0' as int),
{
    assert(digits.push(last).drop_last() =~= digits);
}

/// A tab at a position shows the position in brackets and, behind a space, its name.
pub proof fn labels_show_number_and_name(position: nat, name: Seq<char>)
    requires
        !looks_numbered(name),
    ensures
        numbering::numbered(position, name) == if name.len() == 0 {
            seq!['['] + text::decimal(position) + seq![']']
        } else {
            seq!['['] + text::decimal(position) + seq![']', ' '] + name
        },
{
    unnumbered_labels_are_their_base(name);
    let prefix = seq!['['] + text::decimal(position) + seq![']'];
    if name.len() > 0 {
        assert(prefix + seq![' '] + name =~= seq!['['] + text::decimal(position) + seq![']', ' ']
            + name);
    }
}

/// What a tab shows depends on nothing but its position and the base of its label.
pub proof fn numbering_goes_by_the_base(position: nat, label: Seq<char>)
    ensures
        !looks_numbered(numbering::base_label(label)),
        numbering::numbered(position, label) == numbering::numbered(
            position,
            numbering::base_label(label),
        ),
{
    numbering::stripping_is_idempotent(label);
    let base = numbering::base_label(label);
    if looks_numbered(base) {
        let end = choose|end: int|
            #![trigger base[end]]
            1 < end < base.len() && base[0] == '[' && base[end] == ']' && numeral(
                base.subrange(1, end),
            );
        lemma_digits(base, 1, end);
    }
}

/// A placeholder is a label without any character but digits.
pub proof fn placeholders_are_empty_or_numeric(label: Seq<char>)
    ensures
        numbering::placeholder(label) <==> numeral(label),
{
    if numeral(label) {
        assert forall|i: int| 0 <= i < label.len() implies text::digit(#[trigger] label[i]) by {
            assert('0' <= label[i] && label[i] <= '9');
        }
    }
    if numbering::placeholder(label) {
        assert forall|i: int| 0 <= i < label.len() implies '0' <= #[trigger] label[i] && label[i]
            <= '9' by {
            assert(text::digit(label[i]));
        }
    }
}

/// The code points that Unicode counts as white space.
pub open spec fn blank_code(code: int) -> bool {
    ||| 0x9 <= code <= 0xd
    ||| code == 0x20
    ||| code == 0x85
    ||| code == 0xa0
    ||| code == 0x1680
    ||| 0x2000 <= code <= 0x200a
    ||| code == 0x2028
    ||| code == 0x2029
    ||| code == 0x202f
    ||| code == 0x205f
    ||| code == 0x3000
}

/// A blank text has no character but Unicode white space.
pub proof fn blank_texts_show_nothing(text: Seq<char>)
    ensures
        text::blank(text) <==> forall|i: int|
            0 <= i < text.len() ==> blank_code(#[trigger] text[i] as int),
{
    assert(forall|character: char| #[trigger]
        text::whitespace(character) == blank_code(character as int));
    if forall|i: int| 0 <= i < text.len() ==> blank_code(#[trigger] text[i] as int) {
        assert forall|i: int| 0 <= i < text.len() implies text::whitespace(#[trigger] text[i]) by {
            assert(blank_code(text[i] as int));
        }
    }
    if text::blank(text) {
        assert forall|i: int| 0 <= i < text.len() implies blank_code(#[trigger] text[i] as int) by {
            assert(text::whitespace(text[i]));
        }
    }
}

/// What is left of a text once its leading white space is gone starts with something to show, and
/// is the end of the text.
pub proof fn trimming_takes_leading_white_space(text: Seq<char>) -> (start: int)
    ensures
        0 <= start <= text.len(),
        text::trim_start(text) == text.skip(start),
        text::blank(text.take(start)),
        start < text.len() ==> !text::whitespace(text[start]),
    decreases text.len(),
{
    if text.len() > 0 && text::whitespace(text[0]) {
        let rest = trimming_takes_leading_white_space(text.drop_first());
        assert(text.drop_first().skip(rest) =~= text.skip(rest + 1));
        assert forall|i: int| 0 <= i < text.take(rest + 1).len() implies text::whitespace(
            #[trigger] text.take(rest + 1)[i],
        ) by {
            if i > 0 {
                assert(text::whitespace(text.drop_first().take(rest)[i - 1]));
            }
        }
        rest + 1
    } else {
        assert(text.skip(0) =~= text);
        0
    }
}

} // verus!
