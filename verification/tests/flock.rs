use possum::error::{Error, IoErrorKind};
use possum::flock::{
    lock_file_segment, seek_from_offset, seek_from_whence, try_lock_file, whole_file_lock,
    FileLock, FlockArg, LockType, SeekFrom, Whence, LOCK_COMMAND_NO_WAIT, LOCK_COMMAND_WAIT,
};

#[test]
fn lock_that_was_granted_is_held() {
    assert_eq!(try_lock_file(None), Ok(true));
}

#[test]
fn lock_that_another_holds_is_not_held_and_no_error() {
    assert_eq!(try_lock_file(Some(IoErrorKind::WouldBlock)), Ok(false));
}

#[test]
fn other_lock_failures_are_errors() {
    assert_eq!(try_lock_file(Some(IoErrorKind::Other)), Err(Error::Io(IoErrorKind::Other)));
    assert_eq!(
        try_lock_file(Some(IoErrorKind::InvalidInput)),
        Err(Error::Io(IoErrorKind::InvalidInput))
    );
    assert_eq!(try_lock_file(Some(IoErrorKind::NotFound)), Err(Error::Io(IoErrorKind::NotFound)));
}

#[test]
fn whole_file_lock_covers_the_file_from_its_start() {
    assert_eq!(
        whole_file_lock(FlockArg::LockExclusiveNonblock),
        FileLock {
            command: 90,
            lock_type: LockType::Write,
            whence: Whence::FromStart,
            start: 0,
            len: 0,
            pid: 0,
        }
    );
    assert_eq!(
        whole_file_lock(FlockArg::LockSharedNonblock),
        FileLock {
            command: 90,
            lock_type: LockType::Read,
            whence: Whence::FromStart,
            start: 0,
            len: 0,
            pid: 0,
        }
    );
}

#[test]
fn lock_kind_and_command_follow_the_argument() {
    let cases = [
        (FlockArg::LockShared, LockType::Read, LOCK_COMMAND_WAIT),
        (FlockArg::LockExclusive, LockType::Write, LOCK_COMMAND_WAIT),
        (FlockArg::Unlock, LockType::Unlock, LOCK_COMMAND_WAIT),
        (FlockArg::LockSharedNonblock, LockType::Read, LOCK_COMMAND_NO_WAIT),
        (FlockArg::LockExclusiveNonblock, LockType::Write, LOCK_COMMAND_NO_WAIT),
        (FlockArg::UnlockNonblock, LockType::Unlock, LOCK_COMMAND_NO_WAIT),
    ];
    for (arg, lock_type, command) in cases {
        let request = lock_file_segment(arg, None, SeekFrom::Start(0));
        assert_eq!(request.lock_type, lock_type);
        assert_eq!(request.command, command);
    }
    assert_eq!(LOCK_COMMAND_WAIT, 91);
    assert_eq!(LOCK_COMMAND_NO_WAIT, 90);
}

#[test]
fn segment_lock_carries_its_range() {
    assert_eq!(
        lock_file_segment(FlockArg::LockShared, Some(100), SeekFrom::Current(-5)),
        FileLock {
            command: 91,
            lock_type: LockType::Read,
            whence: Whence::FromCurrent,
            start: -5,
            len: 100,
            pid: 0,
        }
    );
    assert_eq!(
        lock_file_segment(FlockArg::Unlock, Some(-3), SeekFrom::End(7)),
        FileLock {
            command: 91,
            lock_type: LockType::Unlock,
            whence: Whence::FromEnd,
            start: 7,
            len: -3,
            pid: 0,
        }
    );
}

#[test]
fn seek_offsets_are_taken_as_they_are() {
    assert_eq!(seek_from_offset(SeekFrom::Start(0)), 0);
    assert_eq!(seek_from_offset(SeekFrom::Start(12345)), 12345);
    assert_eq!(seek_from_offset(SeekFrom::Start(i64::MAX as u64)), i64::MAX);
    assert_eq!(seek_from_offset(SeekFrom::End(-1)), -1);
    assert_eq!(seek_from_offset(SeekFrom::Current(i64::MIN)), i64::MIN);
}

#[test]
fn seek_offset_from_start_wraps_above_the_largest_offset() {
    assert_eq!(seek_from_offset(SeekFrom::Start(i64::MAX as u64 + 1)), i64::MIN);
    assert_eq!(seek_from_offset(SeekFrom::Start(u64::MAX)), -1);
    assert_eq!(seek_from_offset(SeekFrom::Start(u64::MAX)), u64::MAX as i64);
}

#[test]
fn seek_whence_follows_the_position() {
    assert_eq!(seek_from_whence(SeekFrom::Start(1)), Whence::FromStart);
    assert_eq!(seek_from_whence(SeekFrom::Current(1)), Whence::FromCurrent);
    assert_eq!(seek_from_whence(SeekFrom::End(1)), Whence::FromEnd);
}
