use dvida_kernel::drivers::fs::ext2::flow::{
    alloc_step, mkdir_check, rmdir_check, AllocAction, AllocState, read_step, write_step, ReadAction, ReadEvent, ReadPhase, ReadState, WriteAction, WriteEvent, WritePhase,
    WriteState,
};

fn read_state(is_dir: bool, head: usize, size: u32, room: usize) -> ReadState {
    ReadState { phase: ReadPhase::Start, is_dir, head, size, room, read: 0 }
}

#[test]
fn read_of_directory_refused() {
    let (s, a) = read_step(&read_state(true, 0, 100, 10), ReadEvent::Begin);
    assert_eq!((s.phase, a), (ReadPhase::Failed, ReadAction::FailIsDirectory));
}

#[test]
fn read_at_end_gives_nothing() {
    let (s, a) = read_step(&read_state(false, 100, 100, 10), ReadEvent::Begin);
    assert_eq!((s.phase, a), (ReadPhase::Done { bytes: 0 }, ReadAction::Finish { bytes: 0 }));
    let (_, a) = read_step(&read_state(false, 0, 100, 0), ReadEvent::Begin);
    assert_eq!(a, ReadAction::Finish { bytes: 0 });
}

#[test]
fn read_runs_block_by_block() {
    let (s, a) = read_step(&read_state(false, 0, 3000, 5000), ReadEvent::Begin);
    assert_eq!((s.phase, a), (ReadPhase::Skip, ReadAction::SkipToHead));
    let (s, a) = read_step(&s, ReadEvent::Skipped);
    assert_eq!((s.phase, a), (ReadPhase::Fetch, ReadAction::NextBlock));
    let (s, a) = read_step(&s, ReadEvent::Block { terminated: false });
    assert_eq!((s.phase, a), (ReadPhase::Copy, ReadAction::CopyBlock));
    let (s, a) = read_step(&s, ReadEvent::Copied { head: 1024, read: 1024 });
    assert_eq!((s.phase, a), (ReadPhase::Fetch, ReadAction::NextBlock));
    let (s, _) = read_step(&s, ReadEvent::Block { terminated: false });
    let (s, _) = read_step(&s, ReadEvent::Copied { head: 2048, read: 2048 });
    let (s, _) = read_step(&s, ReadEvent::Block { terminated: false });
    let (s, a) = read_step(&s, ReadEvent::Copied { head: 3000, read: 3000 });
    assert_eq!((s.phase, a), (ReadPhase::Done { bytes: 3000 }, ReadAction::Finish { bytes: 3000 }));
}

#[test]
fn read_ends_when_walk_runs_out() {
    let (s, _) = read_step(&read_state(false, 0, 3000, 5000), ReadEvent::Begin);
    let (s, _) = read_step(&s, ReadEvent::Skipped);
    let (s, a) = read_step(&s, ReadEvent::Block { terminated: true });
    assert_eq!((s.phase, a), (ReadPhase::Done { bytes: 0 }, ReadAction::Finish { bytes: 0 }));
}

#[test]
fn write_runs_and_records_blocks() {
    let s = WriteState { phase: WritePhase::Start, is_dir: false, len: 1500, written: 0, allocated: 0, block_size: 1024, offset: 0 };
    let (s, a) = write_step(&s, WriteEvent::Begin);
    assert_eq!(a, WriteAction::SkipToHead);
    let (s, a) = write_step(&s, WriteEvent::Stored);
    assert_eq!(a, WriteAction::SetBlock);
    let (s, a) = write_step(&s, WriteEvent::BlockSet { allocated: 1 });
    assert_eq!((s.allocated, a), (1, WriteAction::CopyBlock));
    let (s, a) = write_step(&s, WriteEvent::Copied { written: 1024 });
    assert_eq!(a, WriteAction::SetBlock);
    let (s, _) = write_step(&s, WriteEvent::BlockSet { allocated: 2 });
    let (s, a) = write_step(&s, WriteEvent::Copied { written: 1500 });
    // three 1 KiB blocks are six 512-byte sectors
    assert_eq!(a, WriteAction::UpdateInode { i_blocks_added: 6 });
    let (s, a) = write_step(&s, WriteEvent::Stored);
    assert_eq!((s.phase, a), (WritePhase::Done { bytes: 1500 }, WriteAction::RecordAllocated));
    let (_, a) = write_step(&s, WriteEvent::Stored);
    assert_eq!(a, WriteAction::Finish { bytes: 1500 });
}

#[test]
fn write_of_nothing_and_of_directory() {
    let s = WriteState { phase: WritePhase::Start, is_dir: true, len: 10, written: 0, allocated: 0, block_size: 1024, offset: 0 };
    assert_eq!(write_step(&s, WriteEvent::Begin).1, WriteAction::FailIsDirectory);
    let s = WriteState { is_dir: false, len: 0, ..s };
    let (s, _) = write_step(&s, WriteEvent::Begin);
    let (_, a) = write_step(&s, WriteEvent::Stored);
    assert_eq!(a, WriteAction::UpdateInode { i_blocks_added: 0 });
}

#[test]
fn allocation_spans_groups_skipping_excluded() {
    let s = AllocState { group: 0, exclude: 0, group_count: 3, remaining: 5, awaiting: false, done: false };
    let (s, a) = alloc_step(&s, 0);
    assert_eq!(a, AllocAction::TakeFromGroup { group: 1 });
    let (s, a) = alloc_step(&s, 2);
    assert_eq!((s.remaining, a), (3, AllocAction::TakeFromGroup { group: 2 }));
    let (s, a) = alloc_step(&s, 1);
    assert_eq!((s.remaining, a), (2, AllocAction::Finish { ok: false }));
    let s = AllocState { group: 0, exclude: -1, group_count: 3, remaining: 2, awaiting: false, done: false };
    let (s, a) = alloc_step(&s, 0);
    assert_eq!(a, AllocAction::TakeFromGroup { group: 0 });
    let (_, a) = alloc_step(&s, 7);
    assert_eq!(a, AllocAction::Finish { ok: true });
}

#[test]
fn directory_checks() {
    use_checks();
}

fn use_checks() {
    assert!(matches!(mkdir_check(true, true), Err(dvida_kernel::hal::fs::HalFsIOErr::FileExists)));
    assert!(matches!(mkdir_check(false, false), Err(dvida_kernel::hal::fs::HalFsIOErr::BadPath)));
    assert!(mkdir_check(false, true).is_ok());
    assert!(matches!(rmdir_check(false, true, None), Err(dvida_kernel::hal::fs::HalFsIOErr::NoSuchFileOrDirectory)));
    assert!(matches!(rmdir_check(true, false, None), Err(dvida_kernel::hal::fs::HalFsIOErr::NotADirectory)));
    assert!(matches!(rmdir_check(true, true, None), Ok(false)));
    assert!(matches!(rmdir_check(true, true, Some(false)), Err(dvida_kernel::hal::fs::HalFsIOErr::DirectoryNotEmpty)));
    assert!(matches!(rmdir_check(true, true, Some(true)), Ok(true)));
}

#[test]
fn write_from_inside_block_loads_it_first() {
    let s = WriteState { phase: WritePhase::Start, is_dir: false, len: 2000, written: 0, allocated: 0, block_size: 4096, offset: 100 };
    let (s, _) = write_step(&s, WriteEvent::Begin);
    let (s, _) = write_step(&s, WriteEvent::Stored);
    let (s, a) = write_step(&s, WriteEvent::BlockSet { allocated: 0 });
    assert_eq!((s.phase, a), (WritePhase::LoadBlock, WriteAction::LoadBlock));
    let (s, a) = write_step(&s, WriteEvent::Stored);
    assert_eq!(a, WriteAction::CopyBlock);
    let (_, a) = write_step(&s, WriteEvent::Copied { written: 2000 });
    assert_eq!(a, WriteAction::UpdateInode { i_blocks_added: 0 });
    let s = WriteState { phase: WritePhase::SetBlock, is_dir: false, len: 9000, written: 3996, allocated: 1, block_size: 4096, offset: 0 };
    let (s, a) = write_step(&s, WriteEvent::BlockSet { allocated: 1 });
    assert_eq!((s.allocated, a), (2, WriteAction::CopyBlock));
    let s = WriteState { written: 9000, ..s };
    let (_, a) = write_step(&WriteState { phase: WritePhase::SetBlock, ..s }, WriteEvent::Stored);
    assert_eq!(a, WriteAction::UpdateInode { i_blocks_added: 16 });
}
