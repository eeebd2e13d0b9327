//! Giving the bytes of a superseded value back to the file system.
//!
//! A value that was overwritten or deleted leaves a byte range in its value
//! file that no manifest row refers to any more. The rules here turn that
//! range into a hole whose start and length are multiples of the block size,
//! widen it over free neighbouring bytes where the caller allows that, and
//! cut the file short or remove it where nothing lives behind the hole.
//!
//! The rules need answers that only the manifest and the operating system
//! have. [`Puncher`] asks for them one at a time, as it needs them;
//! [`punch_value`] decides from answers that were collected beforehand.

use vstd::prelude::*;
use crate::blocks::{
    ceil_multiple_spec, checked_ceil_multiple, floored_multiple, floored_multiple_spec,
    lemma_ceil_multiple, lemma_floored_multiple,
};
use crate::error::{Error, IoErrorKind};
use crate::value::Value;

verus! {

/// The largest offset that the operating system takes.
pub const MAX_FILE_OFFSET: u64 = 0x7fff_ffff_ffff_ffff;

/// Whether `value` is an offset that the operating system takes.
pub open spec fn fits_file_offset(value: int) -> bool {
    0 <= value <= MAX_FILE_OFFSET
}

/// The range to free, and how far the caller lets the hole grow.
#[derive(Debug, Clone, Copy, PartialEq, Eq, Structural)]
pub struct PunchValueOptions {
    /// Where the superseded value starts in its file.
    pub offset: u64,
    /// How many bytes the superseded value has.
    pub length: u64,
    /// The block size of the file system that holds the file.
    pub block_size: u64,
    /// Start the hole right behind the value that lies before it.
    pub greedy_start: bool,
    /// After punching, look whether the hole is there.
    pub check_hole: bool,
    /// End the hole right before the value that lies behind it, or at the
    /// end of the file if there is none.
    pub greedy_end: bool,
    /// Cut the file short where no value lies behind the hole.
    pub allow_truncate: bool,
    /// Remove the file where it holds no value at all.
    pub allow_remove: bool,
}

impl PunchValueOptions {
    /// The options with which a commit reclaims the value that it has
    /// superseded: the hole may grow to both sides, the file may be cut
    /// short or removed, and the hole is looked at afterwards.
    pub fn for_value(value: &Value, block_size: u64) -> (opts: PunchValueOptions)
        ensures
            opts == (PunchValueOptions {
                offset: value@.file_offset,
                length: value@.length,
                block_size,
                greedy_start: true,
                check_hole: true,
                greedy_end: true,
                allow_truncate: true,
                allow_remove: true,
            }),
    {
        PunchValueOptions {
            offset: value.file_offset(),
            length: value.length(),
            block_size,
            greedy_start: true,
            check_hole: true,
            greedy_end: true,
            allow_truncate: true,
            allow_remove: true,
        }
    }

    /// The offset of the first byte behind the superseded value.
    pub open spec fn end(self) -> int {
        self.offset + self.length
    }

    /// Whether the range lies within the offsets that the operating system takes.
    pub open spec fn in_range(self) -> bool {
        &&& fits_file_offset(self.offset as int)
        &&& fits_file_offset(self.length as int)
        &&& fits_file_offset(self.block_size as int)
        &&& fits_file_offset(self.end())
    }

    /// Whether the start of the hole depends on where the value before it ends.
    pub open spec fn wants_last_end_offset(self) -> bool {
        self.offset % self.block_size != 0 || self.greedy_start
    }
}

/// What the manifest and the operating system answer while a hole is planned.
#[derive(Debug, Clone, Copy, PartialEq, Eq, Structural)]
pub struct PunchFacts {
    /// Why the value file could not be opened for writing, if it could not.
    pub open_error: Option<IoErrorKind>,
    /// Where the last value ends that lies before the superseded value, or
    /// zero if there is none.
    pub last_end_offset: u64,
    /// Where the first value starts that lies behind the superseded value.
    pub next_value_offset: Option<u64>,
    /// Whether the caller got the exclusive lock on the file.
    pub locked: bool,
    /// The length of the file.
    pub file_end: u64,
}

/// What to do to the value file.
#[derive(Debug, Clone, Copy, PartialEq, Eq, Structural)]
pub enum PunchOutcome {
    /// Leave the file as it is.
    Nothing,
    /// Remove the file.
    Remove,
    /// Cut the file to `len` bytes.
    Truncate { len: u64 },
    /// Punch a hole of `length` bytes at `offset`, and then look for data in
    /// it if `check_hole` is set.
    Punch { offset: u64, length: u64, check_hole: bool },
}

/// The hole from `start` to `end`, if that is a hole that can be punched: it
/// has bytes, and its start and its length are multiples of the block size.
pub open spec fn hole_spec(start: int, end: int, block_size: int, check_hole: bool) -> PunchOutcome {
    if start < end && start % block_size == 0 && (end - start) % block_size == 0 {
        PunchOutcome::Punch { offset: start as u64, length: (end - start) as u64, check_hole }
    } else {
        PunchOutcome::Nothing
    }
}

/// Where the hole starts: at the requested offset, or at the first block
/// boundary behind the value before it.
pub open spec fn hole_start(opts: PunchValueOptions, facts: PunchFacts) -> int {
    if opts.wants_last_end_offset() {
        ceil_multiple_spec(facts.last_end_offset as int, opts.block_size as int)
    } else {
        opts.offset as int
    }
}

/// What becomes of the file once the hole's start is known.
pub open spec fn plan_from_start(opts: PunchValueOptions, facts: PunchFacts, start: int) -> Result<
    PunchOutcome,
    Error,
> {
    let block_size = opts.block_size as int;
    let requested_end = floored_multiple_spec(opts.end(), block_size);
    if !opts.greedy_end {
        Ok(hole_spec(start, requested_end, block_size, opts.check_hole))
    } else {
        match facts.next_value_offset {
            Some(next) => if fits_file_offset(next as int) {
                Ok(
                    hole_spec(
                        start,
                        floored_multiple_spec(next as int, block_size),
                        block_size,
                        opts.check_hole,
                    ),
                )
            } else {
                Err(Error::Conversion)
            },
            None => if !facts.locked {
                Ok(hole_spec(start, requested_end, block_size, opts.check_hole))
            } else if start == 0 && opts.allow_remove {
                Ok(PunchOutcome::Remove)
            } else if opts.allow_truncate {
                Ok(PunchOutcome::Truncate { len: start as u64 })
            } else if fits_file_offset(facts.file_end as int) {
                Ok(hole_spec(start, facts.file_end as int, block_size, opts.check_hole))
            } else {
                Err(Error::Conversion)
            },
        }
    }
}

/// What becomes of the value file, given the range to free and the answers
/// of the manifest and the operating system.
pub open spec fn punch_plan(opts: PunchValueOptions, facts: PunchFacts) -> Result<
    PunchOutcome,
    Error,
> {
    match facts.open_error {
        Some(kind) => if kind == IoErrorKind::NotFound && opts.allow_remove {
            Ok(PunchOutcome::Nothing)
        } else {
            Err(Error::Io(kind))
        },
        None => {
            let start = hole_start(opts, facts);
            if opts.in_range() && fits_file_offset(start) {
                plan_from_start(opts, facts, start)
            } else {
                Err(Error::Conversion)
            }
        },
    }
}

/// What the caller of a [`Puncher`] has to do next.
#[derive(Debug, Clone, Copy, PartialEq, Eq, Structural)]
pub enum PunchStep {
    /// Open the value file for writing.
    Open,
    /// Ask the manifest where the last value ends that ends at or before `offset`.
    QueryLastEndOffset { offset: u64 },
    /// Ask the manifest where the first value starts that starts at or behind `offset`.
    QueryNextValueOffset { offset: u64 },
    /// Try to take the exclusive lock on the file without waiting, then
    /// measure the file.
    LockAndMeasure,
    /// Carry out the outcome. Nothing more is asked.
    Done(PunchOutcome),
}

/// What the caller of a [`Puncher`] reports back.
#[derive(Debug, Clone, Copy, PartialEq, Eq, Structural)]
pub enum PunchEvent {
    /// The value file is open.
    Opened,
    /// The value file could not be opened.
    OpenFailed(IoErrorKind),
    /// The manifest's answer to [`PunchStep::QueryLastEndOffset`].
    LastEndOffset(u64),
    /// The manifest's answer to [`PunchStep::QueryNextValueOffset`].
    NextValueOffset(Option<u64>),
    /// Whether the lock was taken, and the length of the file.
    Locked { locked: bool, file_end: u64 },
}

/// The step that follows once the hole's start is known.
pub open spec fn step_after_start(opts: PunchValueOptions, start: int) -> PunchStep {
    if opts.greedy_end {
        PunchStep::QueryNextValueOffset { offset: opts.end() as u64 }
    } else {
        PunchStep::Done(
            hole_spec(
                start,
                floored_multiple_spec(opts.end(), opts.block_size as int),
                opts.block_size as int,
                opts.check_hole,
            ),
        )
    }
}

/// One move of the planning: from the step that is pending, the start of
/// the hole as far as it is known and the event that the caller reports, to
/// the hole's start and the next step, or to the error that ends the planning.
pub open spec fn step_spec(
    opts: PunchValueOptions,
    start: u64,
    pending: PunchStep,
    event: PunchEvent,
) -> Result<(u64, PunchStep), Error> {
    let block_size = opts.block_size as int;
    match (pending, event) {
        (PunchStep::Open, PunchEvent::Opened) => if !opts.in_range() {
            Err(Error::Conversion)
        } else if opts.wants_last_end_offset() {
            Ok((start, PunchStep::QueryLastEndOffset { offset: opts.offset }))
        } else {
            Ok((opts.offset, step_after_start(opts, opts.offset as int)))
        },
        (PunchStep::Open, PunchEvent::OpenFailed(kind)) => if kind == IoErrorKind::NotFound
            && opts.allow_remove {
            Ok((start, PunchStep::Done(PunchOutcome::Nothing)))
        } else {
            Err(Error::Io(kind))
        },
        (PunchStep::QueryLastEndOffset { .. }, PunchEvent::LastEndOffset(last_end)) => {
            let new_start = ceil_multiple_spec(last_end as int, block_size);
            if fits_file_offset(new_start) {
                Ok((new_start as u64, step_after_start(opts, new_start)))
            } else {
                Err(Error::Conversion)
            }
        },
        (PunchStep::QueryNextValueOffset { .. }, PunchEvent::NextValueOffset(Some(next))) => {
            if fits_file_offset(next as int) {
                Ok(
                    (
                        start,
                        PunchStep::Done(
                            hole_spec(
                                start as int,
                                floored_multiple_spec(next as int, block_size),
                                block_size,
                                opts.check_hole,
                            ),
                        ),
                    ),
                )
            } else {
                Err(Error::Conversion)
            }
        },
        (PunchStep::QueryNextValueOffset { .. }, PunchEvent::NextValueOffset(None)) => Ok(
            (start, PunchStep::LockAndMeasure),
        ),
        (PunchStep::LockAndMeasure, PunchEvent::Locked { locked, file_end }) => if !locked {
            Ok(
                (
                    start,
                    PunchStep::Done(
                        hole_spec(
                            start as int,
                            floored_multiple_spec(opts.end(), block_size),
                            block_size,
                            opts.check_hole,
                        ),
                    ),
                ),
            )
        } else if start == 0 && opts.allow_remove {
            Ok((start, PunchStep::Done(PunchOutcome::Remove)))
        } else if opts.allow_truncate {
            Ok((start, PunchStep::Done(PunchOutcome::Truncate { len: start })))
        } else if fits_file_offset(file_end as int) {
            Ok(
                (
                    start,
                    PunchStep::Done(
                        hole_spec(start as int, file_end as int, block_size, opts.check_hole),
                    ),
                ),
            )
        } else {
            Err(Error::Conversion)
        },
        _ => Err(Error::UnexpectedEvent),
    }
}

/// How many answers a step may still be away from the outcome.
pub open spec fn steps_left(step: PunchStep) -> nat {
    match step {
        PunchStep::Open => 4,
        PunchStep::QueryLastEndOffset { .. } => 3,
        PunchStep::QueryNextValueOffset { .. } => 2,
        PunchStep::LockAndMeasure => 1,
        PunchStep::Done(_) => 0,
    }
}

/// The event that answers `step` out of `facts`.
pub open spec fn answer_spec(step: PunchStep, facts: PunchFacts) -> PunchEvent {
    match step {
        PunchStep::Open | PunchStep::Done(_) => match facts.open_error {
            None => PunchEvent::Opened,
            Some(kind) => PunchEvent::OpenFailed(kind),
        },
        PunchStep::QueryLastEndOffset { .. } => PunchEvent::LastEndOffset(facts.last_end_offset),
        PunchStep::QueryNextValueOffset { .. } => PunchEvent::NextValueOffset(
            facts.next_value_offset,
        ),
        PunchStep::LockAndMeasure => PunchEvent::Locked {
            locked: facts.locked,
            file_end: facts.file_end,
        },
    }
}

/// Where the planning ends when every step is answered out of `facts`.
pub open spec fn run_spec(
    opts: PunchValueOptions,
    start: u64,
    pending: PunchStep,
    facts: PunchFacts,
) -> Result<PunchOutcome, Error>
    decreases steps_left(pending),
{
    match pending {
        PunchStep::Done(outcome) => Ok(outcome),
        _ => match step_spec(opts, start, pending, answer_spec(pending, facts)) {
            Err(error) => Err(error),
            Ok((next_start, next)) => if steps_left(next) < steps_left(pending) {
                run_spec(opts, next_start, next, facts)
            } else {
                Err(Error::UnexpectedEvent)
            },
        },
    }
}

/// Every move of the planning brings the outcome nearer.
pub proof fn lemma_step_makes_progress(
    opts: PunchValueOptions,
    start: u64,
    pending: PunchStep,
    event: PunchEvent,
)
    ensures
        step_spec(opts, start, pending, event) matches Ok((_, next)) ==> steps_left(next)
            < steps_left(pending),
{
}

/// Planning step by step ends where [`punch_plan`] says.
pub proof fn lemma_steps_follow_plan(opts: PunchValueOptions, facts: PunchFacts)
    requires
        opts.block_size > 0,
    ensures
        run_spec(opts, opts.offset, PunchStep::Open, facts) == punch_plan(opts, facts),
{
    reveal_with_fuel(run_spec, 5);
    let block_size = opts.block_size as int;
    if facts.open_error is None && opts.in_range() {
        let start = hole_start(opts, facts);
        if fits_file_offset(start) {
            let after = step_after_start(opts, start);
            assert(run_spec(opts, start as u64, after, facts) == plan_from_start(
                opts,
                facts,
                start,
            ));
        }
    }
}

/// The bytes of a value file whose content an outcome gives up.
pub open spec fn freed_bytes(outcome: PunchOutcome) -> Set<int> {
    match outcome {
        PunchOutcome::Nothing => Set::empty(),
        PunchOutcome::Remove => Set::new(|byte: int| 0 <= byte),
        PunchOutcome::Truncate { len } => Set::new(|byte: int| len <= byte),
        PunchOutcome::Punch { offset, length, .. } => Set::new(
            |byte: int| offset <= byte < offset + length,
        ),
    }
}

/// Whether the manifest's answers are true of a file in which the values
/// that are still referenced occupy the bytes `live`: none of them lies in
/// the range to free, none lies between the reported end of the value
/// before the range and the range, and none lies between the range and
/// the reported start of the value behind it.
pub open spec fn facts_describe(opts: PunchValueOptions, facts: PunchFacts, live: Set<int>) -> bool {
    &&& forall|byte: int| opts.offset <= byte < opts.end() ==> !live.contains(byte)
    &&& forall|byte: int|
        live.contains(byte) && byte < opts.offset ==> byte < facts.last_end_offset
    &&& forall|byte: int|
        live.contains(byte) && byte >= opts.end() ==> (facts.next_value_offset matches Some(next)
            && byte >= next)
}

/// The hole is planned from the requested range outwards and never
/// reaches a byte that a value still occupies: no outcome gives up a byte
/// of `live`, and a file is cut short or removed only under the exclusive
/// lock and with no value behind the range.
pub proof fn law_punch_spares_live_values(
    opts: PunchValueOptions,
    facts: PunchFacts,
    live: Set<int>,
)
    requires
        opts.block_size > 0,
        facts_describe(opts, facts, live),
        punch_plan(opts, facts) is Ok,
    ensures
        freed_bytes(punch_plan(opts, facts)->Ok_0).disjoint(live),
        punch_plan(opts, facts)->Ok_0 is Remove || punch_plan(opts, facts)->Ok_0 is Truncate
            ==> facts.locked && facts.next_value_offset is None && opts.greedy_end,
{
    let block_size = opts.block_size as int;
    let outcome = punch_plan(opts, facts)->Ok_0;
    let start = hole_start(opts, facts);
    lemma_floored_multiple(opts.end(), block_size);
    lemma_ceil_multiple(facts.last_end_offset as int, block_size);
    if facts.next_value_offset is Some {
        lemma_floored_multiple(facts.next_value_offset->0 as int, block_size);
    }
    assert forall|byte: int| freed_bytes(outcome).contains(byte) implies !live.contains(byte) by {
        if live.contains(byte) {
            if byte < opts.offset {
                assert(byte < facts.last_end_offset);
            } else {
                assert(byte >= opts.end());
            }
        }
    }
}

/// A value file as far as reclaiming space changes it: whether it exists,
/// how long it is, and which of its bytes hold data.
pub struct FileState {
    pub exists: bool,
    pub len: int,
    pub data: Set<int>,
}

/// The file after an outcome was carried out on it.
pub open spec fn carried_out(file: FileState, outcome: PunchOutcome) -> FileState {
    if !file.exists {
        file
    } else {
        match outcome {
            PunchOutcome::Nothing => file,
            PunchOutcome::Remove => FileState { exists: false, len: 0, data: Set::empty() },
            PunchOutcome::Truncate { len } => FileState {
                exists: true,
                len: len as int,
                data: file.data.difference(freed_bytes(outcome)),
            },
            PunchOutcome::Punch { .. } => FileState {
                exists: true,
                len: file.len,
                data: file.data.difference(freed_bytes(outcome)),
            },
        }
    }
}

/// Reclaiming a range a second time changes nothing and is no error.
/// Carrying an outcome out twice leaves the file as carrying it out once
/// does. The second round plans what the first did where the answers
/// are the same: a hole leaves the manifest and the file's length as they
/// were; where the first round cut the file short, the second plans the
/// same cut whatever the file's length is now; and where the first
/// round removed the file, the second finds it missing and ends with
/// nothing to do.
pub proof fn law_punching_again_changes_nothing(
    opts: PunchValueOptions,
    facts: PunchFacts,
    file: FileState,
    file_end_now: u64,
)
    requires
        opts.block_size > 0,
        punch_plan(opts, facts) is Ok,
    ensures
        ({
            let outcome = punch_plan(opts, facts)->Ok_0;
            let once = carried_out(file, outcome);
            &&& carried_out(once, outcome) == once
            &&& outcome is Truncate ==> punch_plan(
                opts,
                PunchFacts { file_end: file_end_now, ..facts },
            ) == Ok::<PunchOutcome, Error>(outcome)
            &&& outcome is Remove ==> punch_plan(
                opts,
                PunchFacts { open_error: Some(IoErrorKind::NotFound), ..facts },
            ) == Ok::<PunchOutcome, Error>(PunchOutcome::Nothing)
        }),
{
    let outcome = punch_plan(opts, facts)->Ok_0;
    let once = carried_out(file, outcome);
    let twice = carried_out(once, outcome);
    assert(twice.data =~= once.data);
}

/// The planning of one hole, which asks for what it needs to know one
/// answer at a time.
#[derive(Debug)]
pub struct Puncher {
    opts: PunchValueOptions,
    start: u64,
    pending: PunchStep,
}

impl Puncher {
    #[verifier::type_invariant]
    spec fn well_formed(self) -> bool {
        &&& self.opts.block_size > 0
        &&& self.pending == PunchStep::Open ==> self.start == self.opts.offset
        &&& self.pending != PunchStep::Open && !(self.pending is Done) ==> self.opts.in_range()
            && fits_file_offset(self.start as int)
    }

    /// The range to free and the caller's allowances.
    pub closed spec fn options(self) -> PunchValueOptions {
        self.opts
    }

    /// Where the hole starts, as far as that is known.
    pub closed spec fn start(self) -> u64 {
        self.start
    }

    /// The step that the caller has to take next.
    pub closed spec fn pending_step(self) -> PunchStep {
        self.pending
    }

    /// Starts planning the hole for `opts`. The first step is to open
    /// the value file.
    pub fn new(opts: PunchValueOptions) -> (puncher: Puncher)
        requires
            opts.block_size > 0,
        ensures
            puncher.options() == opts,
            puncher.start() == opts.offset,
            puncher.pending_step() == PunchStep::Open,
    {
        Puncher { opts, start: opts.offset, pending: PunchStep::Open }
    }

    /// The step that the caller has to take next.
    pub fn pending(&self) -> (step: PunchStep)
        ensures
            step == self.pending_step(),
    {
        self.pending
    }

    /// Takes the caller's report and says what to do next. A report that
    /// does not answer the pending step, and one that ends the planning with
    /// an error, leave the planning where it was.
    pub fn step(&mut self, event: PunchEvent) -> (next: Result<PunchStep, Error>)
        ensures
            final(self).options() == old(self).options(),
            step_spec(old(self).options(), old(self).start(), old(self).pending_step(), event)
                matches Ok((start, pending)) ==> {
                &&& next == Ok::<PunchStep, Error>(pending)
                &&& final(self).start() == start
                &&& final(self).pending_step() == pending
            },
            step_spec(old(self).options(), old(self).start(), old(self).pending_step(), event)
                matches Err(error) ==> {
                &&& next == Err::<PunchStep, Error>(error)
                &&& final(self).start() == old(self).start()
                &&& final(self).pending_step() == old(self).pending_step()
            },
    {
        proof {
            use_type_invariant(&*self);
        }
        let opts = self.opts;
        let start = self.start;
        let moved: Result<(u64, PunchStep), Error> = match (self.pending, event) {
            (PunchStep::Open, PunchEvent::Opened) => {
                if opts.offset > MAX_FILE_OFFSET || opts.length > MAX_FILE_OFFSET
                    || opts.block_size > MAX_FILE_OFFSET || opts.offset > MAX_FILE_OFFSET
                    - opts.length {
                    Err(Error::Conversion)
                } else if opts.offset % opts.block_size != 0 || opts.greedy_start {
                    Ok((start, PunchStep::QueryLastEndOffset { offset: opts.offset }))
                } else {
                    Ok((opts.offset, after_start(&opts, opts.offset)))
                }
            },
            (PunchStep::Open, PunchEvent::OpenFailed(kind)) => {
                if kind == IoErrorKind::NotFound && opts.allow_remove {
                    Ok((start, PunchStep::Done(PunchOutcome::Nothing)))
                } else {
                    Err(Error::Io(kind))
                }
            },
            (PunchStep::QueryLastEndOffset { .. }, PunchEvent::LastEndOffset(last_end)) => {
                match checked_ceil_multiple(last_end, opts.block_size) {
                    Some(new_start) => {
                        if new_start <= MAX_FILE_OFFSET {
                            Ok((new_start, after_start(&opts, new_start)))
                        } else {
                            Err(Error::Conversion)
                        }
                    },
                    None => Err(Error::Conversion),
                }
            },
            (PunchStep::QueryNextValueOffset { .. }, PunchEvent::NextValueOffset(Some(next))) => {
                if next <= MAX_FILE_OFFSET {
                    let end = floored_multiple(next, opts.block_size);
                    Ok((start, PunchStep::Done(hole(start, end, opts.block_size, opts.check_hole))))
                } else {
                    Err(Error::Conversion)
                }
            },
            (PunchStep::QueryNextValueOffset { .. }, PunchEvent::NextValueOffset(None)) => Ok(
                (start, PunchStep::LockAndMeasure),
            ),
            (PunchStep::LockAndMeasure, PunchEvent::Locked { locked, file_end }) => {
                if !locked {
                    let end = floored_multiple(opts.offset + opts.length, opts.block_size);
                    Ok((start, PunchStep::Done(hole(start, end, opts.block_size, opts.check_hole))))
                } else if start == 0 && opts.allow_remove {
                    Ok((start, PunchStep::Done(PunchOutcome::Remove)))
                } else if opts.allow_truncate {
                    Ok((start, PunchStep::Done(PunchOutcome::Truncate { len: start })))
                } else if file_end <= MAX_FILE_OFFSET {
                    Ok(
                        (
                            start,
                            PunchStep::Done(
                                hole(start, file_end, opts.block_size, opts.check_hole),
                            ),
                        ),
                    )
                } else {
                    Err(Error::Conversion)
                }
            },
            _ => Err(Error::UnexpectedEvent),
        };
        match moved {
            Ok((new_start, pending)) => {
                *self = Puncher { opts, start: new_start, pending };
                Ok(pending)
            },
            Err(error) => Err(error),
        }
    }
}

/// The hole from `start` to `end`, if it can be punched.
fn hole(start: u64, end: u64, block_size: u64, check_hole: bool) -> (outcome: PunchOutcome)
    requires
        block_size > 0,
    ensures
        outcome == hole_spec(start as int, end as int, block_size as int, check_hole),
{
    if start < end && start % block_size == 0 && (end - start) % block_size == 0 {
        PunchOutcome::Punch { offset: start, length: end - start, check_hole }
    } else {
        PunchOutcome::Nothing
    }
}

/// The step that follows once the hole's start is known.
fn after_start(opts: &PunchValueOptions, start: u64) -> (step: PunchStep)
    requires
        opts.block_size > 0,
        opts.in_range(),
    ensures
        step == step_after_start(*opts, start as int),
{
    let requested_end = opts.offset + opts.length;
    if opts.greedy_end {
        PunchStep::QueryNextValueOffset { offset: requested_end }
    } else {
        let end = floored_multiple(requested_end, opts.block_size);
        PunchStep::Done(hole(start, end, opts.block_size, opts.check_hole))
    }
}

/// The event that answers `step` out of `facts`.
fn answer(step: PunchStep, facts: &PunchFacts) -> (event: PunchEvent)
    ensures
        event == answer_spec(step, *facts),
{
    match step {
        PunchStep::Open | PunchStep::Done(_) => match facts.open_error {
            None => PunchEvent::Opened,
            Some(kind) => PunchEvent::OpenFailed(kind),
        },
        PunchStep::QueryLastEndOffset { .. } => PunchEvent::LastEndOffset(facts.last_end_offset),
        PunchStep::QueryNextValueOffset { .. } => PunchEvent::NextValueOffset(
            facts.next_value_offset,
        ),
        PunchStep::LockAndMeasure => PunchEvent::Locked {
            locked: facts.locked,
            file_end: facts.file_end,
        },
    }
}

/// Decides what becomes of a value file in which the range of `opts` is
/// free, from answers that were collected beforehand. An answer that the
/// rules do not ask for is not read.
pub fn punch_value(opts: PunchValueOptions, facts: &PunchFacts) -> (outcome: Result<
    PunchOutcome,
    Error,
>)
    requires
        opts.block_size > 0,
    ensures
        outcome == punch_plan(opts, *facts),
{
    let mut puncher = Puncher::new(opts);
    proof {
        lemma_steps_follow_plan(opts, *facts);
    }
    let mut pending = puncher.pending();
    loop
        invariant
            puncher.options() == opts,
            puncher.pending_step() == pending,
            run_spec(opts, puncher.start(), pending, *facts) == punch_plan(opts, *facts),
        decreases steps_left(pending),
    {
        if let PunchStep::Done(outcome) = pending {
            return Ok(outcome);
        }
        let event = answer(pending, facts);
        proof {
            lemma_step_makes_progress(opts, puncher.start(), pending, event);
        }
        match puncher.step(event) {
            Ok(next) => {
                pending = next;
            },
            Err(error) => {
                return Err(error);
            },
        }
    }
}

/// Looks at what a search for data found after a hole was punched. The
/// search started at `offset`; `data_offset` is where it found data, if it
/// found any. The hole is there if no data lies before its end.
pub fn check_hole(data_offset: Option<u64>, offset: u64, length: u64) -> (checked: Result<
    (),
    Error,
>)
    ensures
        checked is Ok <==> (data_offset matches Some(found) ==> found >= offset + length),
        checked is Err ==> checked == Err::<(), Error>(Error::HoleNotPunched),
{
    match data_offset {
        None => Ok(()),
        Some(found) => {
            if found >= offset && found - offset >= length {
                Ok(())
            } else {
                Err(Error::HoleNotPunched)
            }
        },
    }
}

} // verus!
