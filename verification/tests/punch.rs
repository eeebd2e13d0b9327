use possum::error::{Error, IoErrorKind};
use possum::file_id::FileId;
use possum::punch::{
    check_hole, punch_value, PunchEvent, PunchFacts, PunchOutcome, PunchStep, PunchValueOptions,
    Puncher,
};

const BLOCK: u64 = 4096;

fn options(offset: u64, length: u64) -> PunchValueOptions {
    PunchValueOptions {
        offset,
        length,
        block_size: BLOCK,
        greedy_start: false,
        check_hole: false,
        greedy_end: false,
        allow_truncate: false,
        allow_remove: false,
    }
}

fn facts() -> PunchFacts {
    PunchFacts {
        open_error: None,
        last_end_offset: 0,
        next_value_offset: None,
        locked: false,
        file_end: 0,
    }
}

fn punch(offset: u64, length: u64, check_hole: bool) -> Result<PunchOutcome, Error> {
    Ok(PunchOutcome::Punch { offset, length, check_hole })
}

#[test]
fn aligned_range_is_punched_as_it_is() {
    let opts = options(2 * BLOCK, 3 * BLOCK);
    assert_eq!(punch_value(opts, &facts()), punch(2 * BLOCK, 3 * BLOCK, false));
}

#[test]
fn end_is_rounded_down_to_a_block() {
    let opts = options(BLOCK, 2 * BLOCK + 100);
    assert_eq!(punch_value(opts, &facts()), punch(BLOCK, 2 * BLOCK, false));
}

#[test]
fn range_within_one_block_frees_nothing() {
    let opts = options(BLOCK, 100);
    assert_eq!(punch_value(opts, &facts()), Ok(PunchOutcome::Nothing));
}

#[test]
fn empty_range_frees_nothing() {
    let opts = options(BLOCK, 0);
    assert_eq!(punch_value(opts, &facts()), Ok(PunchOutcome::Nothing));
}

#[test]
fn unaligned_start_moves_behind_the_value_before() {
    // The value before ends at 5000: the hole starts at the next block boundary.
    let opts = options(5000, 4 * BLOCK);
    let facts = PunchFacts { last_end_offset: 5000, ..facts() };
    // The requested end is 5000 + 16384 = 21384, which rounds down to 20480.
    assert_eq!(punch_value(opts, &facts), punch(2 * BLOCK, 3 * BLOCK, false));
}

#[test]
fn unaligned_start_may_move_backwards_over_free_bytes() {
    // Nothing lives before 5000 but a value that ends at 100.
    let opts = options(5000, 2 * BLOCK);
    let facts = PunchFacts { last_end_offset: 100, ..facts() };
    // Start 4096, end floor(13192) = 12288.
    assert_eq!(punch_value(opts, &facts), punch(BLOCK, 2 * BLOCK, false));
}

#[test]
fn greedy_start_reaches_back_to_the_value_before() {
    let opts = PunchValueOptions { greedy_start: true, ..options(3 * BLOCK, BLOCK) };
    let facts = PunchFacts { last_end_offset: 10, ..facts() };
    assert_eq!(punch_value(opts, &facts), punch(BLOCK, 3 * BLOCK, false));
}

#[test]
fn greedy_start_on_an_empty_file_starts_at_zero() {
    let opts = PunchValueOptions { greedy_start: true, ..options(3 * BLOCK, BLOCK) };
    assert_eq!(punch_value(opts, &facts()), punch(0, 4 * BLOCK, false));
}

#[test]
fn small_value_behind_another_in_one_block_frees_nothing() {
    // A value of five bytes lives at 0; the value of one byte at 5 is freed.
    let opts = options(5, 1);
    let facts = PunchFacts { last_end_offset: 5, ..facts() };
    assert_eq!(punch_value(opts, &facts), Ok(PunchOutcome::Nothing));
}

#[test]
fn greedy_end_stops_before_the_next_value() {
    let opts = PunchValueOptions { greedy_end: true, check_hole: true, ..options(BLOCK, BLOCK) };
    let facts = PunchFacts { next_value_offset: Some(5 * BLOCK + 17), ..facts() };
    assert_eq!(punch_value(opts, &facts), punch(BLOCK, 4 * BLOCK, true));
}

#[test]
fn greedy_end_with_next_value_in_the_same_block_frees_nothing() {
    let opts = PunchValueOptions { greedy_start: true, greedy_end: true, ..options(0, 5) };
    let facts = PunchFacts { next_value_offset: Some(5), ..facts() };
    assert_eq!(punch_value(opts, &facts), Ok(PunchOutcome::Nothing));
}

#[test]
fn only_value_in_file_removes_the_file() {
    let opts = PunchValueOptions {
        greedy_start: true,
        greedy_end: true,
        allow_truncate: true,
        allow_remove: true,
        ..options(0, 5)
    };
    let facts = PunchFacts { locked: true, file_end: 5, ..facts() };
    assert_eq!(punch_value(opts, &facts), Ok(PunchOutcome::Remove));
}

#[test]
fn only_value_in_file_is_removed_step_by_step() {
    let opts = PunchValueOptions {
        greedy_start: true,
        greedy_end: true,
        allow_truncate: false,
        allow_remove: true,
        ..options(0, 5)
    };
    let mut puncher = Puncher::new(opts);
    assert_eq!(puncher.pending(), PunchStep::Open);
    assert_eq!(
        puncher.step(PunchEvent::Opened),
        Ok(PunchStep::QueryLastEndOffset { offset: 0 })
    );
    assert_eq!(
        puncher.step(PunchEvent::LastEndOffset(0)),
        Ok(PunchStep::QueryNextValueOffset { offset: 5 })
    );
    assert_eq!(puncher.step(PunchEvent::NextValueOffset(None)), Ok(PunchStep::LockAndMeasure));
    assert_eq!(
        puncher.step(PunchEvent::Locked { locked: true, file_end: 5 }),
        Ok(PunchStep::Done(PunchOutcome::Remove))
    );
    assert_eq!(puncher.pending(), PunchStep::Done(PunchOutcome::Remove));
}

#[test]
fn file_is_not_removed_without_the_lock() {
    let opts = PunchValueOptions {
        greedy_start: true,
        greedy_end: true,
        allow_truncate: true,
        allow_remove: true,
        ..options(0, 2 * BLOCK + 1)
    };
    let facts = PunchFacts { locked: false, file_end: 9 * BLOCK, ..facts() };
    // Without the lock the hole ends where the request ends, rounded down.
    assert_eq!(punch_value(opts, &facts), punch(0, 2 * BLOCK, false));
}

#[test]
fn file_is_not_removed_when_removal_is_not_allowed() {
    let opts = PunchValueOptions {
        greedy_start: true,
        greedy_end: true,
        allow_truncate: true,
        allow_remove: false,
        ..options(0, 5)
    };
    let facts = PunchFacts { locked: true, file_end: 5, ..facts() };
    assert_eq!(punch_value(opts, &facts), Ok(PunchOutcome::Truncate { len: 0 }));
}

#[test]
fn last_value_truncates_the_file_behind_the_value_before() {
    let opts = PunchValueOptions {
        greedy_start: true,
        greedy_end: true,
        allow_truncate: true,
        allow_remove: true,
        ..options(3 * BLOCK, 100)
    };
    let facts = PunchFacts { last_end_offset: BLOCK + 1, locked: true, file_end: 3 * BLOCK + 100, ..facts() };
    assert_eq!(punch_value(opts, &facts), Ok(PunchOutcome::Truncate { len: 2 * BLOCK }));
}

#[test]
fn hole_to_the_end_of_file_is_punched_when_it_is_whole_blocks() {
    let opts = PunchValueOptions { greedy_end: true, ..options(BLOCK, 10) };
    let facts = PunchFacts { locked: true, file_end: 4 * BLOCK, ..facts() };
    assert_eq!(punch_value(opts, &facts), punch(BLOCK, 3 * BLOCK, false));
}

#[test]
fn hole_to_the_end_of_file_is_skipped_when_it_is_not_whole_blocks() {
    let opts = PunchValueOptions { greedy_end: true, ..options(BLOCK, 10) };
    let facts = PunchFacts { locked: true, file_end: 4 * BLOCK + 1, ..facts() };
    assert_eq!(punch_value(opts, &facts), Ok(PunchOutcome::Nothing));
}

#[test]
fn missing_file_is_reclaimed_already_when_removal_is_allowed() {
    let opts = PunchValueOptions { allow_remove: true, ..options(0, BLOCK) };
    let facts = PunchFacts { open_error: Some(IoErrorKind::NotFound), ..facts() };
    assert_eq!(punch_value(opts, &facts), Ok(PunchOutcome::Nothing));
}

#[test]
fn missing_file_is_an_error_when_removal_is_not_allowed() {
    let opts = options(0, BLOCK);
    let facts = PunchFacts { open_error: Some(IoErrorKind::NotFound), ..facts() };
    assert_eq!(punch_value(opts, &facts), Err(Error::Io(IoErrorKind::NotFound)));
}

#[test]
fn other_open_failure_is_passed_on() {
    let opts = PunchValueOptions { allow_remove: true, ..options(0, BLOCK) };
    let facts = PunchFacts { open_error: Some(IoErrorKind::Other), ..facts() };
    assert_eq!(punch_value(opts, &facts), Err(Error::Io(IoErrorKind::Other)));
}

#[test]
fn range_beyond_file_offsets_is_a_conversion_error() {
    assert_eq!(punch_value(options(u64::MAX, 1), &facts()), Err(Error::Conversion));
    assert_eq!(punch_value(options(1, u64::MAX), &facts()), Err(Error::Conversion));
    assert_eq!(
        punch_value(options(i64::MAX as u64, 1), &facts()),
        Err(Error::Conversion)
    );
    let mut puncher = Puncher::new(options(u64::MAX, 0));
    assert_eq!(puncher.step(PunchEvent::Opened), Err(Error::Conversion));
    assert_eq!(puncher.pending(), PunchStep::Open);
    let big_block = PunchValueOptions { block_size: u64::MAX, ..options(0, 1) };
    assert_eq!(punch_value(big_block, &facts()), Err(Error::Conversion));
}

#[test]
fn answers_beyond_file_offsets_are_conversion_errors() {
    let greedy = PunchValueOptions { greedy_start: true, greedy_end: true, ..options(0, BLOCK) };
    let far_end = PunchFacts { last_end_offset: u64::MAX, ..facts() };
    assert_eq!(punch_value(greedy, &far_end), Err(Error::Conversion));
    let far_next = PunchFacts { next_value_offset: Some(u64::MAX), ..facts() };
    assert_eq!(punch_value(greedy, &far_next), Err(Error::Conversion));
    let far_file_end = PunchFacts { locked: true, file_end: u64::MAX, ..facts() };
    assert_eq!(punch_value(greedy, &far_file_end), Err(Error::Conversion));
}

#[test]
fn report_that_was_not_asked_for_is_refused_and_changes_nothing() {
    let mut puncher = Puncher::new(options(0, BLOCK));
    assert_eq!(puncher.step(PunchEvent::LastEndOffset(0)), Err(Error::UnexpectedEvent));
    assert_eq!(puncher.pending(), PunchStep::Open);
    assert_eq!(
        puncher.step(PunchEvent::Opened),
        Ok(PunchStep::Done(PunchOutcome::Punch { offset: 0, length: BLOCK, check_hole: false }))
    );
    assert_eq!(puncher.step(PunchEvent::Opened), Err(Error::UnexpectedEvent));
}

#[test]
fn aligned_start_does_not_ask_for_the_value_before() {
    let mut puncher = Puncher::new(PunchValueOptions { greedy_end: true, ..options(BLOCK, 1) });
    assert_eq!(
        puncher.step(PunchEvent::Opened),
        Ok(PunchStep::QueryNextValueOffset { offset: BLOCK + 1 })
    );
}

#[test]
fn punching_again_plans_the_same_hole() {
    let opts = PunchValueOptions { greedy_end: true, ..options(BLOCK, BLOCK) };
    let facts = PunchFacts { next_value_offset: Some(3 * BLOCK), ..facts() };
    let first = punch_value(opts, &facts);
    let second = punch_value(opts, &facts);
    assert_eq!(first, punch(BLOCK, 2 * BLOCK, false));
    assert_eq!(first, second);
}

#[test]
fn punching_again_after_removal_does_nothing() {
    let opts = PunchValueOptions {
        greedy_start: true,
        greedy_end: true,
        allow_remove: true,
        ..options(0, 5)
    };
    let found = PunchFacts { locked: true, file_end: 5, ..facts() };
    assert_eq!(punch_value(opts, &found), Ok(PunchOutcome::Remove));
    let gone = PunchFacts { open_error: Some(IoErrorKind::NotFound), ..found };
    assert_eq!(punch_value(opts, &gone), Ok(PunchOutcome::Nothing));
}

#[test]
fn hole_spares_the_neighbouring_values() {
    // Values live in [0, 5000) and from 30000 on; [5000, 30000) is freed.
    let opts = PunchValueOptions { greedy_start: true, greedy_end: true, ..options(5000, 25000) };
    let facts = PunchFacts { last_end_offset: 5000, next_value_offset: Some(30000), ..facts() };
    match punch_value(opts, &facts) {
        Ok(PunchOutcome::Punch { offset, length, .. }) => {
            assert_eq!(offset, 2 * BLOCK);
            assert_eq!(length, 5 * BLOCK);
            assert!(offset >= 5000);
            assert!(offset + length <= 30000);
        }
        other => panic!("expected a hole, got {:?}", other),
    }
}

#[test]
fn check_hole_accepts_data_behind_the_hole() {
    assert_eq!(check_hole(Some(2 * BLOCK), BLOCK, BLOCK), Ok(()));
    assert_eq!(check_hole(Some(3 * BLOCK), BLOCK, BLOCK), Ok(()));
    assert_eq!(check_hole(None, BLOCK, BLOCK), Ok(()));
}

#[test]
fn check_hole_rejects_data_inside_the_hole() {
    assert_eq!(check_hole(Some(BLOCK), BLOCK, BLOCK), Err(Error::HoleNotPunched));
    assert_eq!(check_hole(Some(2 * BLOCK - 1), BLOCK, BLOCK), Err(Error::HoleNotPunched));
    assert_eq!(check_hole(Some(0), BLOCK, BLOCK), Err(Error::HoleNotPunched));
}

#[test]
fn check_hole_does_not_overflow() {
    assert_eq!(check_hole(Some(u64::MAX), u64::MAX, u64::MAX), Err(Error::HoleNotPunched));
    assert_eq!(check_hole(Some(u64::MAX), 1, u64::MAX - 1), Ok(()));
}

#[test]
fn superseded_value_is_reclaimed_greedily() {
    let value = possum::value::Value::new(
        FileId::new(b"values-a".to_vec()),
        100,
        50,
        possum::timestamp::Timestamp::from_millis(0).unwrap(),
    );
    assert_eq!(
        PunchValueOptions::for_value(&value, 512),
        PunchValueOptions {
            offset: 100,
            length: 50,
            block_size: 512,
            greedy_start: true,
            check_hole: true,
            greedy_end: true,
            allow_truncate: true,
            allow_remove: true,
        }
    );
}

#[test]
fn missing_file_is_reclaimed_already_whatever_the_range() {
    let opts = PunchValueOptions { allow_remove: true, ..options(u64::MAX, u64::MAX) };
    let facts = PunchFacts { open_error: Some(IoErrorKind::NotFound), ..facts() };
    assert_eq!(punch_value(opts, &facts), Ok(PunchOutcome::Nothing));
    let mut puncher = Puncher::new(opts);
    assert_eq!(
        puncher.step(PunchEvent::OpenFailed(IoErrorKind::NotFound)),
        Ok(PunchStep::Done(PunchOutcome::Nothing))
    );
}
