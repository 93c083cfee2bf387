//! Cross-process serialization policy for reconciliation hooks.

use vstd::prelude::*;
#[allow(unused_imports)]
use vstd::string::{StrSliceExecFns, StringExecFns};

use crate::config::Invocation;
use crate::filesystem;
use crate::filesystem::{clone_bytes, join_path, FileFailure};
use crate::text;
use crate::text::decimal_text;

verus! {

/// How long to wait before another attempt to take the lock, in nanoseconds.
pub const LOCK_RETRY_DELAY: u64 = 25_000_000;

/// How many digits the number of a rerun request is written with.
pub const RERUN_NUMBER_WIDTH: usize = 20;

/// How long to wait before the next attempt; nothing is left of the window at its end.
pub open spec fn delay_within(deadline: u64, now: u64, delay: u64) -> Option<u64> {
    if deadline <= now {
        None
    } else if deadline - now < delay {
        Some((deadline - now) as u64)
    } else {
        Some(delay)
    }
}

/// How long to wait before the next attempt to take the lock, without passing the deadline.
pub fn retry_delay(deadline: u64, now: u64) -> (delay: Option<u64>)
    ensures
        delay == delay_within(deadline, now, LOCK_RETRY_DELAY),
{
    bounded_delay(deadline, now, LOCK_RETRY_DELAY)
}

/// A delay that does not pass the deadline, or nothing once the deadline is reached.
pub fn bounded_delay(deadline: u64, now: u64, delay: u64) -> (bounded: Option<u64>)
    ensures
        bounded == delay_within(deadline, now, delay),
{
    if deadline <= now {
        None
    } else if deadline - now < delay {
        Some(deadline - now)
    } else {
        Some(delay)
    }
}

/// No wait goes beyond the deadline.
pub proof fn waits_end_by_the_deadline(deadline: u64, now: u64, delay: u64)
    ensures
        match delay_within(deadline, now, delay) {
            Some(wait) => now + wait <= deadline && wait <= delay,
            None => deadline <= now,
        },
{
}

/// The sum of durations.
pub open spec fn total(durations: Seq<u64>) -> nat
    decreases durations.len(),
{
    if durations.len() == 0 {
        0
    } else {
        total(durations.drop_last()) + durations.last() as nat
    }
}

/// Whether the wait before a position is over at the time of that position.
pub open spec fn over_by(times: Seq<u64>, waits: Seq<u64>, position: int) -> bool {
    times[position - 1] + waits[position - 1] <= times[position]
}

/// Whether waits are those before a deadline: each is decided on at its time, once the one before
/// it is over.
pub open spec fn waits_before(deadline: u64, delay: u64, times: Seq<u64>, waits: Seq<u64>) -> bool {
    &&& times.len() == waits.len()
    &&& forall|i: int|
        0 <= i < times.len() ==> #[trigger] delay_within(deadline, times[i], delay) == Some(
            waits[i],
        )
    &&& forall|i: int| 0 < i < times.len() ==> #[trigger] over_by(times, waits, i)
}

/// However often is waited before a deadline, the waits together end by it.
pub proof fn waits_together_end_by_the_deadline(
    deadline: u64,
    delay: u64,
    times: Seq<u64>,
    waits: Seq<u64>,
)
    requires
        waits_before(deadline, delay, times, waits),
        times.len() > 0,
    ensures
        times[0] + total(waits) <= times.last() + waits.last() <= deadline,
    decreases times.len(),
{
    let last = times.len() - 1;
    assert(delay_within(deadline, times[last], delay) == Some(waits[last]));
    if last == 0 {
        assert(total(waits.drop_last()) == 0);
    } else {
        let earlier = times.drop_last();
        let before = waits.drop_last();
        assert forall|i: int| 0 <= i < earlier.len() implies #[trigger] delay_within(
            deadline,
            earlier[i],
            delay,
        ) == Some(before[i]) by {
            assert(delay_within(deadline, times[i], delay) == Some(waits[i]));
        }
        assert forall|i: int| 0 < i < earlier.len() implies #[trigger] over_by(
            earlier,
            before,
            i,
        ) by {
            assert(over_by(times, waits, i));
        }
        waits_together_end_by_the_deadline(deadline, delay, earlier, before);
        assert(over_by(times, waits, last));
    }
}

/// What follows an attempt to take the lock within a time.
#[derive(Debug, PartialEq, Eq)]
pub enum LockStep {
    /// The lock was taken.
    Acquired,
    /// The lock is to be tried again after this time.
    Wait(u64),
    /// The time is over; the error says so.
    TimedOut(String),
    /// The lock could not be tried.
    Failed(String),
}

/// What follows an attempt to take the lock within a time, with its text as a character sequence.
#[verifier::ext_equal]
pub enum LockStepView {
    Acquired,
    Wait(u64),
    TimedOut(Seq<char>),
    Failed(Seq<char>),
}

impl View for LockStep {
    type V = LockStepView;

    open spec fn view(&self) -> LockStepView {
        match *self {
            LockStep::Acquired => LockStepView::Acquired,
            LockStep::Wait(delay) => LockStepView::Wait(delay),
            LockStep::TimedOut(error) => LockStepView::TimedOut(error@),
            LockStep::Failed(error) => LockStepView::Failed(error@),
        }
    }
}

/// Decides what follows an attempt to take the lock by a deadline.
///
/// `taken` says whether the attempt took the lock, or why it could not be made.
pub fn acquire_with_timeout(taken: Result<bool, String>, deadline: u64, now: u64) -> (step:
    LockStep)
    ensures
        step@ == match taken {
            Ok(true) => LockStepView::Acquired,
            Ok(false) => match delay_within(deadline, now, LOCK_RETRY_DELAY) {
                Some(delay) => LockStepView::Wait(delay),
                None => LockStepView::TimedOut("timed out waiting for another reconciliation"@),
            },
            Err(error) => LockStepView::Failed(error@),
        },
{
    match taken {
        Ok(true) => LockStep::Acquired,
        Ok(false) => match retry_delay(deadline, now) {
            Some(delay) => LockStep::Wait(delay),
            None => LockStep::TimedOut("timed out waiting for another reconciliation".to_owned()),
        },
        Err(error) => LockStep::Failed(error),
    }
}

/// The file that is locked for a session.
pub fn lock_file(state_dir: &Vec<u8>) -> (path: Vec<u8>)
    ensures
        path@ == filesystem::joined(state_dir@, vstd::utf8::encode_utf8("reconcile.lock"@)),
{
    join_path(state_dir, "reconcile.lock")
}

/// The directory that holds the rerun requests of a session.
pub fn rerun_directory(state_dir: &Vec<u8>) -> (path: Vec<u8>)
    ensures
        path@ == filesystem::joined(state_dir@, vstd::utf8::encode_utf8("reruns"@)),
{
    join_path(state_dir, "reruns")
}

/// The file that a single rerun request was once left in; it is still honored.
pub fn legacy_rerun_file(state_dir: &Vec<u8>) -> (path: Vec<u8>)
    ensures
        path@ == filesystem::joined(state_dir@, vstd::utf8::encode_utf8("rerun"@)),
{
    join_path(state_dir, "rerun")
}

/// The invocation that a rerun request is recorded with.
///
/// The closing of a pane keeps its scope; everything else is covered by a full pass.
pub open spec fn deferred(invocation: Invocation) -> Invocation {
    if invocation is ClosedPane {
        invocation
    } else {
        Invocation::Full
    }
}

/// The invocation that a rerun request is recorded with.
pub fn request_rerun(invocation: &Invocation) -> (requested: Invocation)
    ensures
        requested == deferred(*invocation),
{
    match invocation {
        Invocation::ClosedPane { .. } => invocation.clone(),
        _ => Invocation::Full,
    }
}

/// What follows an attempt to publish a rerun request.
#[derive(Debug, PartialEq, Eq)]
pub enum PublishStep {
    /// The request is published.
    Done,
    /// The request is to be published under its next name.
    Retry,
    /// The request could not be published.
    Failed(String),
}

/// Decides what follows an attempt to publish a rerun request under one of its names.
///
/// A name that is taken, of the published file or of the one it is written to first, is passed
/// over.
pub fn publish_step(attempt: Result<(), FileFailure>) -> (step: PublishStep)
    ensures
        step == match attempt {
            Ok(_) => PublishStep::Done,
            Err(FileFailure::Exists(_)) => PublishStep::Retry,
            Err(failure) => PublishStep::Failed(failure.text()),
        },
{
    match attempt {
        Ok(_) => PublishStep::Done,
        Err(FileFailure::Exists(_)) => PublishStep::Retry,
        Err(failure) => PublishStep::Failed(failure.into_text()),
    }
}

/// Where the next rerun request is to be taken from.
#[derive(Debug, PartialEq, Eq)]
pub enum RerunSource {
    /// The file of this name in the rerun directory.
    Published(Vec<u8>),
    /// The file that a single request was once left in.
    Legacy,
}

/// Whether a name is listed.
pub open spec fn listed(names: Seq<Vec<u8>>, name: Seq<u8>) -> bool {
    exists|i: int| 0 <= i < names.len() && (#[trigger] names[i])@ == name
}

/// Whether a published name is listed, and no published name that is listed comes before it.
pub open spec fn comes_first(names: Seq<Vec<u8>>, name: Seq<u8>) -> bool {
    &&& published(name)
    &&& listed(names, name)
    &&& forall|i: int|
        0 <= i < names.len() && published((#[trigger] names[i])@) ==> !name_precedes(
            names[i]@,
            name,
        )
}

/// Decides where the next rerun request is to be taken from: the first one that the rerun directory
/// lists, and only without any the file that a single request was once left in.
pub fn rerun_source(listed: Result<Vec<Vec<u8>>, FileFailure>) -> (source: Result<
    RerunSource,
    String,
>)
    ensures
        match listed {
            Ok(names) => match source {
                Ok(RerunSource::Published(name)) => comes_first(names@, name@),
                Ok(RerunSource::Legacy) => forall|i: int|
                    0 <= i < names@.len() ==> !published((#[trigger] names@[i])@),
                Err(_) => false,
            },
            Err(FileFailure::Missing(_)) => source == Ok::<RerunSource, String>(
                RerunSource::Legacy,
            ),
            Err(failure) => source == Err::<RerunSource, String>(failure.text()),
        },
{
    match listed {
        Ok(names) => match pending_rerun_file(&names) {
            Some(index) => Ok(RerunSource::Published(clone_bytes(&names[index]))),
            None => Ok(RerunSource::Legacy),
        },
        Err(FileFailure::Missing(_)) => Ok(RerunSource::Legacy),
        Err(failure) => Err(failure.into_text()),
    }
}

/// The invocation that the contents of a rerun request stand for.
///
/// An empty request stands for a full pass; `parsed` is what any other contents were read as.
pub fn read_rerun_contents(contents: &Vec<u8>, parsed: Result<Invocation, String>) -> (requested:
    Result<Invocation, String>)
    ensures
        requested == if contents@.len() == 0 {
            Ok::<Invocation, String>(Invocation::Full)
        } else {
            parsed
        },
{
    if contents.len() == 0 {
        Ok(Invocation::Full)
    } else {
        parsed
    }
}

/// Decides which rerun request was taken, if any.
///
/// `read` is what the contents of the source stand for, or why they could not be read. Nothing was
/// requested where no request is listed and the file of a single one is missing.
pub fn take_rerun(
    source: &RerunSource,
    read: Result<Result<Invocation, String>, FileFailure>,
) -> (taken: Result<Option<Invocation>, String>)
    ensures
        taken == match read {
            Ok(Ok(invocation)) => Ok::<Option<Invocation>, String>(Some(invocation)),
            Ok(Err(error)) => Err::<Option<Invocation>, String>(error),
            Err(failure) => if *source is Legacy && failure is Missing {
                Ok::<Option<Invocation>, String>(None)
            } else {
                Err::<Option<Invocation>, String>(failure.text())
            },
        },
{
    match read {
        Ok(Ok(invocation)) => Ok(Some(invocation)),
        Ok(Err(error)) => Err(error),
        Err(failure) => match (source, failure) {
            (RerunSource::Legacy, FileFailure::Missing(_)) => Ok(None),
            (_, failure) => Err(failure.into_text()),
        },
    }
}

/// Decides whether a rerun request is waiting.
///
/// `found` says whether the file of a single request is there; it counts only where none is listed.
pub fn rerun_requested(source: &RerunSource, found: Result<(), FileFailure>) -> (waiting: Result<
    bool,
    String,
>)
    ensures
        waiting == match (*source, found) {
            (RerunSource::Published(_), _) => Ok::<bool, String>(true),
            (RerunSource::Legacy, Ok(_)) => Ok::<bool, String>(true),
            (RerunSource::Legacy, Err(FileFailure::Missing(_))) => Ok::<bool, String>(false),
            (RerunSource::Legacy, Err(failure)) => Err::<bool, String>(failure.text()),
        },
{
    match source {
        RerunSource::Published(_) => Ok(true),
        RerunSource::Legacy => match found {
            Ok(_) => Ok(true),
            Err(FileFailure::Missing(_)) => Ok(false),
            Err(failure) => Err(failure.into_text()),
        },
    }
}

/// A deferred request is recorded as it is if it is deferred again.
pub proof fn deferring_is_idempotent(invocation: Invocation)
    ensures
        deferred(deferred(invocation)) == deferred(invocation),
{
}

/// A numeral with zeros in front, up to a width.
pub open spec fn padded(number: nat, width: nat) -> Seq<char> {
    let numeral = text::decimal(number);
    if numeral.len() >= width {
        numeral
    } else {
        Seq::new((width - numeral.len()) as nat, |i: int| '0') + numeral
    }
}

/// The name of a rerun request: the process that made it, and which of its requests it is.
pub open spec fn rerun_name(process: u32, request: u64) -> Seq<char> {
    text::decimal(process as nat) + seq!['-'] + padded(request as nat, RERUN_NUMBER_WIDTH as nat)
}

/// Names a rerun request.
pub fn rerun_id(process: u32, request: u64) -> (name: String)
    ensures
        name@ == rerun_name(process, request),
{
    let mut name = decimal_text(process as u64);
    name.push('-');
    let numeral = decimal_text(request);
    let digits = numeral.as_str().unicode_len();
    let ghost stem = name@;
    let mut written: usize = digits;
    assert(name@ == stem + Seq::new(0nat, |i: int| '0'));
    while written < RERUN_NUMBER_WIDTH
        invariant
            digits <= written,
            written <= RERUN_NUMBER_WIDTH || written == digits,
            name@ == stem + Seq::new((written - digits) as nat, |i: int| '0'),
        decreases RERUN_NUMBER_WIDTH - written,
    {
        name.push('0');
        written = written + 1;
        assert(name@ =~= stem + Seq::new((written - digits) as nat, |i: int| '0'));
    }
    name.append(numeral.as_str());
    assert(name@ =~= rerun_name(process, request));
    name
}

/// The file name that a rerun request is published under.
pub open spec fn rerun_file(process: u32, request: u64) -> Seq<char> {
    rerun_name(process, request) + ".json"@
}

/// Names the file that a rerun request is published under.
pub fn rerun_file_name(process: u32, request: u64) -> (name: String)
    ensures
        name@ == rerun_file(process, request),
{
    let mut name = rerun_id(process, request);
    name.append(".json");
    name
}

/// Names the file that a rerun request is written to before it is published.
pub fn rerun_temporary_name(process: u32, request: u64) -> (name: String)
    ensures
        name@ == "."@ + rerun_name(process, request) + ".tmp"@,
{
    let mut name = ".".to_owned();
    name.append(rerun_id(process, request).as_str());
    name.append(".tmp");
    name
}

/// Whether a file of the rerun directory is a published request: its extension is `json`.
pub open spec fn published(name: Seq<u8>) -> bool {
    name.len() > 5 && name.skip(name.len() - 5) == seq![46u8, 106u8, 115u8, 111u8, 110u8]
}

/// The lexicographic order of file names.
pub open spec fn name_precedes(first: Seq<u8>, second: Seq<u8>) -> bool
    decreases first.len(),
{
    if second.len() == 0 {
        false
    } else if first.len() == 0 {
        true
    } else if first[0] != second[0] {
        first[0] < second[0]
    } else {
        name_precedes(first.drop_first(), second.drop_first())
    }
}

fn is_published(name: &Vec<u8>) -> (result: bool)
    ensures
        result == published(name@),
{
    let length = name.len();
    if length <= 5 {
        return false;
    }
    let ghost extension = name@.skip(length - 5);
    let result = name[length - 5] == 46 && name[length - 4] == 106 && name[length - 3] == 115
        && name[length - 2] == 111 && name[length - 1] == 110;
    proof {
        if result {
            assert(extension =~= seq![46u8, 106u8, 115u8, 111u8, 110u8]);
        } else if extension == seq![46u8, 106u8, 115u8, 111u8, 110u8] {
            assert(extension[0] == 46 && extension[1] == 106 && extension[2] == 115 && extension[3]
                == 111 && extension[4] == 110);
        }
    }
    result
}

fn precedes(first: &Vec<u8>, second: &Vec<u8>) -> (result: bool)
    ensures
        result == name_precedes(first@, second@),
{
    let mut index: usize = 0;
    assert(first@.skip(0) == first@ && second@.skip(0) == second@);
    while index < first.len() && index < second.len() && first[index] == second[index]
        invariant
            index <= first@.len(),
            index <= second@.len(),
            name_precedes(first@.skip(index as int), second@.skip(index as int)) == name_precedes(
                first@,
                second@,
            ),
        decreases first@.len() - index,
    {
        assert(first@.skip(index as int).drop_first() == first@.skip(index + 1));
        assert(second@.skip(index as int).drop_first() == second@.skip(index + 1));
        index = index + 1;
    }
    if index >= second.len() {
        false
    } else if index >= first.len() {
        true
    } else {
        first[index] < second[index]
    }
}

/// Selects the published request to be consumed next: the one that comes first by name.
pub fn pending_rerun_file(names: &Vec<Vec<u8>>) -> (next: Option<usize>)
    ensures
        match next {
            Some(index) => index < names@.len() && published(names@[index as int]@) && forall|i: int|
                0 <= i < names@.len() && published((#[trigger] names@[i])@) ==> !name_precedes(
                    names@[i]@,
                    names@[index as int]@,
                ),
            None => forall|i: int|
                0 <= i < names@.len() ==> !published((#[trigger] names@[i])@),
        },
{
    let mut next: Option<usize> = None;
    let mut index: usize = 0;
    while index < names.len()
        invariant
            index <= names@.len(),
            match next {
                Some(first) => first < index && published(names@[first as int]@) && forall|i: int|
                    0 <= i < index && published((#[trigger] names@[i])@) ==> !name_precedes(
                        names@[i]@,
                        names@[first as int]@,
                    ),
                None => forall|i: int| 0 <= i < index ==> !published((#[trigger] names@[i])@),
            },
        decreases names@.len() - index,
    {
        if is_published(&names[index]) {
            proof {
                lemma_irreflexive(names@[index as int]@);
            }
            match next {
                Some(first) => {
                    if precedes(&names[index], &names[first]) {
                        proof {
                            assert forall|i: int| 0 <= i <= index && published(
                                (#[trigger] names@[i])@,
                            ) implies !name_precedes(names@[i]@, names@[index as int]@) by {
                                if i < index && name_precedes(names@[i]@, names@[index as int]@) {
                                    lemma_transitive(
                                        names@[i]@,
                                        names@[index as int]@,
                                        names@[first as int]@,
                                    );
                                }
                            }
                        }
                        next = Some(index);
                    }
                },
                None => {
                    next = Some(index);
                },
            }
        }
        index = index + 1;
    }
    next
}

proof fn lemma_irreflexive(name: Seq<u8>)
    ensures
        !name_precedes(name, name),
    decreases name.len(),
{
    if name.len() > 0 {
        lemma_irreflexive(name.drop_first());
    }
}

proof fn lemma_transitive(first: Seq<u8>, second: Seq<u8>, third: Seq<u8>)
    requires
        name_precedes(first, second),
        name_precedes(second, third),
    ensures
        name_precedes(first, third),
    decreases first.len(),
{
    if first.len() > 0 && second.len() > 0 && third.len() > 0 && first[0] == second[0] && second[0]
        == third[0] {
        lemma_transitive(first.drop_first(), second.drop_first(), third.drop_first());
    }
}

/// The powers of ten.
pub open spec fn power_of_ten(exponent: nat) -> nat
    decreases exponent,
{
    if exponent == 0 {
        1
    } else {
        10 * power_of_ten((exponent - 1) as nat)
    }
}

proof fn lemma_decimal_length(number: nat, width: nat)
    requires
        number < power_of_ten(width),
        width > 0,
    ensures
        text::decimal(number).len() <= width,
    decreases number,
{
    if number >= 10 {
        assert(width >= 2) by {
            if width == 1 {
                assert(power_of_ten(1) == 10) by {
                    reveal_with_fuel(power_of_ten, 2);
                }
            }
        }
        lemma_decimal_length(number / 10, (width - 1) as nat);
    }
}

proof fn lemma_padded(number: nat, width: nat)
    ensures
        text::all_digits(padded(number, width)),
        text::decimal_value(padded(number, width)) == number,
        text::decimal(number).len() <= width ==> padded(number, width).len() == width,
{
    text::lemma_decimal_digits(number);
    text::decimal_round_trip(number);
    let numeral = text::decimal(number);
    if numeral.len() < width {
        let zeros = Seq::new((width - numeral.len()) as nat, |i: int| '0');
        lemma_leading_zeros(zeros, numeral);
        assert forall|i: int| 0 <= i < padded(number, width).len() implies text::digit(
            #[trigger] padded(number, width)[i],
        ) by {
            if i >= zeros.len() {
                assert(padded(number, width)[i] == numeral[i - zeros.len()]);
            }
        }
    }
}

proof fn lemma_leading_zeros(zeros: Seq<char>, numeral: Seq<char>)
    requires
        forall|i: int| 0 <= i < zeros.len() ==> #[trigger] zeros[i] == '0',
    ensures
        text::decimal_value(zeros + numeral) == text::decimal_value(numeral),
    decreases zeros.len() + numeral.len(),
{
    if numeral.len() > 0 {
        assert((zeros + numeral).drop_last() == zeros + numeral.drop_last());
        lemma_leading_zeros(zeros, numeral.drop_last());
    } else if zeros.len() > 0 {
        assert(zeros + numeral == zeros);
        assert(zeros.drop_last() + numeral == zeros.drop_last());
        lemma_leading_zeros(zeros.drop_last(), numeral);
    } else {
        assert(zeros + numeral == numeral);
    }
}

proof fn lemma_same_value(first: Seq<char>, second: Seq<char>)
    requires
        first.len() == second.len(),
        text::all_digits(first),
        text::all_digits(second),
        text::decimal_value(first) == text::decimal_value(second),
    ensures
        first == second,
    decreases first.len(),
{
    if first.len() > 0 {
        lemma_digit_prefix(first);
        lemma_digit_prefix(second);
        lemma_same_value(first.drop_last(), second.drop_last());
        assert(first == first.drop_last().push(first.last()));
        assert(second == second.drop_last().push(second.last()));
    } else {
        assert(first =~= second);
    }
}

proof fn lemma_digit_prefix(numeral: Seq<char>)
    requires
        numeral.len() > 0,
        text::all_digits(numeral),
    ensures
        text::all_digits(numeral.drop_last()),
        text::digit(numeral.last()),
        text::decimal_value(numeral) == text::decimal_value(numeral.drop_last()) * 10 + (
        numeral.last() as int - '0' as int),
{
    assert forall|i: int| 0 <= i < numeral.drop_last().len() implies text::digit(
        #[trigger] numeral.drop_last()[i],
    ) by {
        assert(numeral.drop_last()[i] == numeral[i]);
    }
    assert(text::digit(numeral[numeral.len() - 1]));
}

proof fn lemma_common_start(start: Seq<char>, first: Seq<char>, second: Seq<char>)
    ensures
        text::precedes(start + first, start + second) == text::precedes(first, second),
    decreases start.len(),
{
    if start.len() > 0 {
        assert((start + first).drop_first() == start.drop_first() + first);
        assert((start + second).drop_first() == start.drop_first() + second);
        lemma_common_start(start.drop_first(), first, second);
    } else {
        assert(start + first == first && start + second == second);
    }
}

proof fn lemma_longer(first: Seq<char>, second: Seq<char>, left: Seq<char>, right: Seq<char>)
    requires
        first.len() == second.len(),
        text::precedes(first, second),
    ensures
        text::precedes(first + left, second + right),
    decreases first.len(),
{
    if first.len() > 0 && first[0] == second[0] {
        lemma_longer(first.drop_first(), second.drop_first(), left, right);
        assert((first + left).drop_first() == first.drop_first() + left);
        assert((second + right).drop_first() == second.drop_first() + right);
    }
}

/// Of two numerals of one length, that of the smaller number comes first.
proof fn lemma_numerals_in_order(first: Seq<char>, second: Seq<char>)
    requires
        first.len() == second.len(),
        text::all_digits(first),
        text::all_digits(second),
        text::decimal_value(first) < text::decimal_value(second),
    ensures
        text::precedes(first, second),
    decreases first.len(),
{
    if first.len() > 0 {
        let left = first.drop_last();
        let right = second.drop_last();
        lemma_digit_prefix(first);
        lemma_digit_prefix(second);
        assert(first == left + seq![first.last()]);
        assert(second == right + seq![second.last()]);
        if text::decimal_value(left) < text::decimal_value(right) {
            lemma_numerals_in_order(left, right);
            lemma_longer(left, right, seq![first.last()], seq![second.last()]);
        } else {
            lemma_same_value(left, right);
            lemma_common_start(left, seq![first.last()], seq![second.last()]);
        }
    }
}

proof fn lemma_ascii_order(first: Seq<char>, second: Seq<char>)
    requires
        vstd::utf8::is_ascii_chars(first),
        vstd::utf8::is_ascii_chars(second),
    ensures
        name_precedes(vstd::utf8::encode_utf8(first), vstd::utf8::encode_utf8(second))
            == text::precedes(first, second),
    decreases first.len(),
{
    vstd::utf8::is_ascii_chars_encode_utf8(first);
    vstd::utf8::is_ascii_chars_encode_utf8(second);
    if first.len() > 0 && second.len() > 0 {
        let left = vstd::utf8::encode_utf8(first);
        let right = vstd::utf8::encode_utf8(second);
        assert('\0' <= first[0] <= '\u{7f}' && '\0' <= second[0] <= '\u{7f}');
        assert(left[0] == first[0] as u8 && right[0] == second[0] as u8);
        assert(vstd::utf8::is_ascii_chars(first.drop_first())) by {
            assert forall|i: int| 0 <= i < first.drop_first().len() implies '\0'
                <= #[trigger] first.drop_first()[i] <= '\u{7f}' by {
                assert(first.drop_first()[i] == first[i + 1]);
            }
        }
        assert(vstd::utf8::is_ascii_chars(second.drop_first())) by {
            assert forall|i: int| 0 <= i < second.drop_first().len() implies '\0'
                <= #[trigger] second.drop_first()[i] <= '\u{7f}' by {
                assert(second.drop_first()[i] == second[i + 1]);
            }
        }
        vstd::utf8::is_ascii_chars_encode_utf8(first.drop_first());
        vstd::utf8::is_ascii_chars_encode_utf8(second.drop_first());
        assert(left.drop_first() =~= vstd::utf8::encode_utf8(first.drop_first())) by {
            assert forall|i: int| 0 <= i < first.drop_first().len() implies left.drop_first()[i]
                == #[trigger] vstd::utf8::encode_utf8(first.drop_first())[i] by {
                assert(left[i + 1] == first[i + 1] as u8);
                assert(first.drop_first()[i] == first[i + 1]);
            }
        }
        assert(right.drop_first() =~= vstd::utf8::encode_utf8(second.drop_first())) by {
            assert forall|i: int| 0 <= i < second.drop_first().len() implies right.drop_first()[i]
                == #[trigger] vstd::utf8::encode_utf8(second.drop_first())[i] by {
                assert(right[i + 1] == second[i + 1] as u8);
                assert(second.drop_first()[i] == second[i + 1]);
            }
        }
        lemma_ascii_order(first.drop_first(), second.drop_first());
    }
}

proof fn lemma_rerun_file_is_ascii(process: u32, request: u64)
    ensures
        vstd::utf8::is_ascii_chars(rerun_file(process, request)),
{
    reveal_strlit(".json");
    text::lemma_decimal_digits(process as nat);
    lemma_padded(request as nat, RERUN_NUMBER_WIDTH as nat);
    let process_part = text::decimal(process as nat);
    let request_part = padded(request as nat, RERUN_NUMBER_WIDTH as nat);
    let file = rerun_file(process, request);
    assert forall|i: int| 0 <= i < file.len() implies '\0' <= #[trigger] file[i] <= '\u{7f}' by {
        let start = process_part.len() as int;
        let end = start + 1 + request_part.len();
        if i < start {
            assert(text::digit(process_part[i]));
            assert(file[i] == process_part[i]);
        } else if i == start {
            assert(file[i] == '-');
        } else if i < end {
            assert(text::digit(request_part[i - start - 1]));
            assert(file[i] == request_part[i - start - 1]);
        } else {
            assert(file[i] == ".json"@[i - end]);
        }
    }
}

/// The requests of one process come one after the other in the order they were made in.
pub proof fn requests_are_consumed_in_order(process: u32, earlier: u64, later: u64)
    requires
        earlier < later,
    ensures
        name_precedes(
            vstd::utf8::encode_utf8(rerun_file(process, earlier)),
            vstd::utf8::encode_utf8(rerun_file(process, later)),
        ),
{
    let width = RERUN_NUMBER_WIDTH as nat;
    let first = padded(earlier as nat, width);
    let second = padded(later as nat, width);
    assert(power_of_ten(20) > u64::MAX) by {
        reveal_with_fuel(power_of_ten, 21);
    }
    lemma_decimal_length(earlier as nat, width);
    lemma_decimal_length(later as nat, width);
    lemma_padded(earlier as nat, width);
    lemma_padded(later as nat, width);
    lemma_numerals_in_order(first, second);
    lemma_longer(first, second, ".json"@, ".json"@);
    let start = text::decimal(process as nat) + seq!['-'];
    lemma_common_start(start, first + ".json"@, second + ".json"@);
    assert(start + (first + ".json"@) == rerun_file(process, earlier));
    assert(start + (second + ".json"@) == rerun_file(process, later));
    lemma_rerun_file_is_ascii(process, earlier);
    lemma_rerun_file_is_ascii(process, later);
    lemma_ascii_order(rerun_file(process, earlier), rerun_file(process, later));
}

/// The bytes of the file name that a rerun request is published under.
pub open spec fn request_file(process: u32, request: u64) -> Seq<u8> {
    vstd::utf8::encode_utf8(rerun_file(process, request))
}

/// Whether a name is that of one of the requests of a process from a first to a last one.
pub open spec fn requested_between(name: Seq<u8>, process: u32, first: int, last: int) -> bool {
    exists|request: u64|
        first <= request <= last && name == #[trigger] request_file(process, request)
}

/// Whether the published names that are listed are those of the requests of a process from a first
/// to a last one; there are none where the last comes before the first.
pub open spec fn lists_requests(
    names: Seq<Vec<u8>>,
    process: u32,
    first: int,
    last: int,
) -> bool {
    forall|name: Seq<u8>|
        (#[trigger] published(name) && listed(names, name)) <==> requested_between(
            name,
            process,
            first,
            last,
        )
}

proof fn lemma_ends_with(start: Seq<char>, extension: Seq<char>, i: int)
    requires
        vstd::utf8::is_ascii_chars(start + extension),
        0 <= i < extension.len(),
    ensures
        ({
            let name = vstd::utf8::encode_utf8(start + extension);
            &&& name.len() == start.len() + extension.len()
            &&& name[start.len() + i] == extension[i] as u8
        }),
{
    let whole = start + extension;
    vstd::utf8::is_ascii_chars_encode_utf8(whole);
    assert(whole[start.len() + i] == extension[i]);
}

/// A request is up to be taken once it is published, and not while it is still being written.
pub proof fn only_published_requests_are_taken(process: u32, request: u64)
    ensures
        published(request_file(process, request)),
        !published(
            vstd::utf8::encode_utf8("."@ + rerun_name(process, request) + ".tmp"@),
        ),
{
    let stem = rerun_name(process, request);
    let file = request_file(process, request);
    let start = "."@ + stem;
    let unfinished = vstd::utf8::encode_utf8(start + ".tmp"@);
    reveal_strlit(".json");
    reveal_strlit(".tmp");
    reveal_strlit(".");
    lemma_rerun_file_is_ascii(process, request);
    assert forall|i: int| 0 <= i < 5 implies file[stem.len() + i] == #[trigger] ".json"@[i]
        as u8 by {
        lemma_ends_with(stem, ".json"@, i);
    }
    assert(file.len() == stem.len() + 5) by {
        lemma_ends_with(stem, ".json"@, 0);
    }
    assert(file.skip(file.len() - 5) =~= seq![46u8, 106u8, 115u8, 111u8, 110u8]) by {
        assert(".json"@[0] == '.' && ".json"@[1] == 'j' && ".json"@[2] == 's' && ".json"@[3] == 'o'
            && ".json"@[4] == 'n');
    }
    assert(vstd::utf8::is_ascii_chars(start + ".tmp"@)) by {
        assert forall|i: int| 0 <= i < (start + ".tmp"@).len() implies '\0' <= #[trigger] (start
            + ".tmp"@)[i] <= '\u{7f}' by {
            if 1 <= i < start.len() {
                assert((start + ".tmp"@)[i] == rerun_file(process, request)[i - 1]);
            }
        }
    }
    lemma_ends_with(start, ".tmp"@, 3);
    if published(unfinished) {
        assert(unfinished.skip(unfinished.len() - 5)[4] == 110u8);
        assert(unfinished[unfinished.len() - 1] == 'p' as u8);
    }
}

/// Of the requests of one process, the one that was made first is taken first.
pub proof fn the_first_request_is_taken_first(
    names: Seq<Vec<u8>>,
    process: u32,
    first: u64,
    last: u64,
)
    requires
        first <= last,
        lists_requests(names, process, first as int, last as int),
    ensures
        comes_first(names, request_file(process, first)),
        forall|name: Seq<u8>| #[trigger]
            comes_first(names, name) ==> name == request_file(process, first),
{
    let file = request_file(process, first);
    assert(requested_between(file, process, first as int, last as int));
    assert(published(file) && listed(names, file));
    assert forall|i: int| 0 <= i < names.len() && published(
        (#[trigger] names[i])@,
    ) implies !name_precedes(names[i]@, file) by {
        let name = names[i]@;
        assert(listed(names, name));
        assert(requested_between(name, process, first as int, last as int));
        let request = choose|request: u64|
            first <= request <= last && name == #[trigger] request_file(process, request);
        lemma_irreflexive(file);
        if first < request {
            requests_are_consumed_in_order(process, first, request);
            if name_precedes(name, file) {
                lemma_transitive(file, name, file);
            }
        }
    }
    assert forall|name: Seq<u8>| #[trigger] comes_first(names, name) implies name == file by {
        assert(published(name) && listed(names, name));
        assert(requested_between(name, process, first as int, last as int));
        let request = choose|request: u64|
            first <= request <= last && name == #[trigger] request_file(process, request);
        if first < request {
            requests_are_consumed_in_order(process, first, request);
            let i = choose|i: int| 0 <= i < names.len() && (#[trigger] names[i])@ == file;
            assert(published(names[i]@));
        }
    }
}

/// Whether published names are listed after a take as before it, but for the one that was taken and
/// for requests of a process that were made meanwhile.
pub open spec fn taken_from(
    before: Seq<Vec<u8>>,
    taken: Seq<u8>,
    after: Seq<Vec<u8>>,
    process: u32,
    last: int,
    last_later: int,
) -> bool {
    &&& last <= last_later
    &&& forall|name: Seq<u8>|
        (#[trigger] published(name) && listed(after, name)) <==> (published(name) && listed(
            before,
            name,
        ) && name != taken) || requested_between(name, process, last + 1, last_later)
}

/// Whether the take at a position is of the request that comes first then, and follows on the take
/// before it.
pub open spec fn takes_at(
    lists: Seq<Seq<Vec<u8>>>,
    taken: Seq<Seq<u8>>,
    process: u32,
    lasts: Seq<u64>,
    position: int,
) -> bool {
    &&& comes_first(lists[position], taken[position])
    &&& position > 0 ==> taken_from(
        lists[position - 1],
        taken[position - 1],
        lists[position],
        process,
        lasts[position - 1] as int,
        lasts[position] as int,
    )
}

/// However many requests a process makes while they are taken, they are taken one by one in the
/// order they were made in.
pub proof fn requests_are_taken_first_in_first_out(
    lists: Seq<Seq<Vec<u8>>>,
    taken: Seq<Seq<u8>>,
    process: u32,
    first: u64,
    lasts: Seq<u64>,
    position: int,
)
    requires
        lists.len() == taken.len() == lasts.len(),
        0 <= position < lists.len(),
        lists_requests(lists[0], process, first as int, lasts[0] as int),
        forall|i: int|
            0 <= i < lists.len() ==> #[trigger] takes_at(lists, taken, process, lasts, i),
    ensures
        lists_requests(lists[position], process, first + position, lasts[position] as int),
        first + position <= u64::MAX,
        taken[position] == request_file(process, (first + position) as u64),
    decreases position,
{
    let names = lists[position];
    let name = taken[position];
    let next = first + position;
    assert(takes_at(lists, taken, process, lasts, position));
    if position > 0 {
        assert(takes_at(lists, taken, process, lasts, position - 1));
        requests_are_taken_first_in_first_out(
            lists,
            taken,
            process,
            first,
            lasts,
            position - 1,
        );
        lemma_taken(
            lists[position - 1],
            taken[position - 1],
            names,
            process,
            next - 1,
            lasts[position - 1] as int,
            lasts[position] as int,
        );
    }
    assert(published(name) && listed(names, name));
    assert(requested_between(name, process, next, lasts[position] as int));
    the_first_request_is_taken_first(names, process, next as u64, lasts[position]);
}

proof fn lemma_taken(
    before: Seq<Vec<u8>>,
    taken: Seq<u8>,
    after: Seq<Vec<u8>>,
    process: u32,
    first: int,
    last: int,
    last_later: int,
)
    requires
        0 <= first <= u64::MAX,
        lists_requests(before, process, first, last),
        taken == request_file(process, first as u64),
        published(taken) && listed(before, taken),
        taken_from(before, taken, after, process, last, last_later),
    ensures
        lists_requests(after, process, first + 1, last_later),
{
    assert(requested_between(taken, process, first, last));
    assert(first <= last) by {
        let made = choose|made: u64|
            first <= made <= last && taken == #[trigger] request_file(process, made);
    }
    assert forall|name: Seq<u8>|
        (#[trigger] published(name) && listed(after, name)) <==> requested_between(
            name,
            process,
            first + 1,
            last_later,
        ) by {
        if published(name) && listed(after, name) {
            if requested_between(name, process, last + 1, last_later) {
                let made = choose|made: u64|
                    last + 1 <= made <= last_later && name == #[trigger] request_file(
                        process,
                        made,
                    );
                assert(first + 1 <= made <= last_later);
            } else {
                assert(requested_between(name, process, first, last));
                let made = choose|made: u64|
                    first <= made <= last && name == #[trigger] request_file(process, made);
                assert(made != first);
                assert(first + 1 <= made <= last_later);
            }
        }
        if requested_between(name, process, first + 1, last_later) {
            let made = choose|made: u64|
                first + 1 <= made <= last_later && name == #[trigger] request_file(process, made);
            requests_have_their_own_files(process, first as u64, made);
            if made <= last {
                assert(requested_between(name, process, first, last));
            } else {
                assert(last + 1 <= made <= last_later);
                assert(requested_between(name, process, last + 1, last_later));
                only_published_requests_are_taken(process, made);
            }
        }
    }
}

/// No two requests of one process share a file: a name that is passed over is not tried again.
pub proof fn requests_have_their_own_files(process: u32, first: u64, second: u64)
    requires
        first != second,
    ensures
        rerun_file(process, first) != rerun_file(process, second),
        request_file(process, first) != request_file(process, second),
{
    let earlier = if first < second {
        first
    } else {
        second
    };
    let later = if first < second {
        second
    } else {
        first
    };
    requests_are_consumed_in_order(process, earlier, later);
    lemma_irreflexive(vstd::utf8::encode_utf8(rerun_file(process, earlier)));
}

} // verus!
