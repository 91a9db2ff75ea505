use dvida_kernel::drivers::fs::ext2::fs::InodePlus;
use dvida_kernel::ejcineque::executor::{Executor, ExecutorContext, Task, TaskID, TaskWaker};
use dvida_kernel::ejcineque::race::{race_poll, Either};
use dvida_kernel::hal::fs::HalInode;
use dvida_kernel::hal::path::Path;
use dvida_kernel::hal::vfs::{starts_with, trim_start_matches, ErrNo, MountPointArray, VfsState, Whence};

fn path(s: &str) -> Path {
    Path::from_str(s).unwrap()
}

fn inode() -> HalInode {
    HalInode::Ext2(InodePlus::default())
}

#[test]
fn prefix_helpers() {
    assert!(starts_with("/mnt/disk/file", "/mnt"));
    assert!(starts_with("/mnt", ""));
    assert!(!starts_with("/mn", "/mnt"));
    assert_eq!(trim_start_matches("/mnt/mnt/x", "/mnt"), "/x");
    assert_eq!(trim_start_matches("abc", ""), "abc");
    assert_eq!(trim_start_matches("/a/b", "/b"), "/a/b");
}

#[test]
fn mount_points_resolve_shortest_prefix() {
    let mut m: MountPointArray<u32> = MountPointArray::new();
    m.insert(path("/"), 10);
    m.insert(path("/mnt"), 20);
    assert_eq!(m.counter, 2);
    assert_eq!(m.resolve(&path("/mnt/file")), Some(0));
    assert_eq!(m.resolve(&path("/etc")), Some(0));
    assert_eq!(m.get_mount_point_by_id(1), Some(1));
    assert_eq!(m.get_mount_point_by_id(7), None);
    assert!(m.contains_path(&path("/mnt")));
    assert!(!m.contains_path(&path("/tmp")));
}

#[test]
fn mount_points_remount_replaces_id() {
    let mut m: MountPointArray<u32> = MountPointArray::new();
    m.insert(path("/mnt"), 1);
    m.insert(path("/mnt"), 2);
    assert_eq!(m.path_to_id_map.len(), 1);
    assert_eq!(m.resolve(&path("/mnt/a")), Some(1));
    assert_eq!(m.resolve(&path("/other")), None);
}

#[test]
fn vfs_open_and_seek() {
    let mut v = VfsState::new();
    let fd0 = v.register_open(inode(), 0);
    let fd1 = v.register_open(inode(), 0);
    assert_eq!((fd0, fd1), (0, 1));
    assert_eq!(v.find(1), Some(1));
    assert_eq!(v.find(5), None);
    assert!(matches!(v.lseek(1, Whence::SeekSet, 100), Some(Ok(100))));
    assert!(matches!(v.lseek(1, Whence::SeekCur, 20), Some(Ok(120))));
    assert!(matches!(v.lseek(1, Whence::SeekCur, -50), Some(Ok(70))));
    assert!(matches!(v.lseek(1, Whence::SeekEnd, 0), None));
    assert_eq!(v.opened_inodes[1].1.ctx.head, 70);
    assert_eq!(v.opened_inodes[0].1.ctx.head, 0);
    assert!(matches!(v.lseek(9, Whence::SeekSet, 0), Some(Err(ErrNo::BadFd))));
}

#[test]
fn context_queue_order() {
    let mut c = ExecutorContext::new();
    c.tasks_map.push(Task { id: TaskID(1), queue_id: 0 });
    c.tasks_map.push(Task { id: TaskID(2), queue_id: 0 });
    c.wake(TaskWaker { id: TaskID(2) });
    c.wake(TaskWaker { id: TaskID(9) });
    c.wake(TaskWaker { id: TaskID(1) });
    assert_eq!(c.next_task(), Some(Task { id: TaskID(2), queue_id: 0 }));
    assert_eq!(c.next_task(), None);
    c.finish(TaskID(1));
    assert_eq!(c.tasks_map, vec![Task { id: TaskID(2), queue_id: 0 }]);
    assert_eq!(c.next_task(), None);
    assert_eq!(c.next_task(), None);
}

#[test]
fn spawner_balances_queues() {
    let mut e = Executor::new(&vec![0, 1]);
    let s = e.spawner();
    let t0 = s.spawn(&mut e).unwrap();
    let t1 = s.spawn(&mut e).unwrap();
    let t2 = s.spawn(&mut e).unwrap();
    assert_eq!((t0.id, t0.queue_id), (TaskID(0), 0));
    assert_eq!((t1.id, t1.queue_id), (TaskID(1), 1));
    assert_eq!((t2.id, t2.queue_id), (TaskID(2), 0));
    assert_eq!(e.contexts[0].1.tasks, vec![TaskID(0), TaskID(2)]);
    assert_eq!(e.counter, 3);
}

#[test]
fn spawners_share_counter_and_queues() {
    let mut e = Executor::new(&vec![0, 1]);
    let a = e.spawner();
    let b = e.spawner();
    let t0 = a.spawn(&mut e).unwrap();
    let t1 = b.spawn(&mut e).unwrap();
    assert_ne!(t0.id, t1.id);
    assert_eq!((t0.id, t1.id), (TaskID(0), TaskID(1)));
    // The task spawned through `a` is seen by `b`: `b` places its task on the other queue.
    assert_eq!((t0.queue_id, t1.queue_id), (0, 1));
    assert_eq!(e.counter, 2);
}

#[test]
fn spawner_without_queues() {
    let mut e = Executor::new(&vec![]);
    let s = e.spawner();
    assert_eq!(s.spawn(&mut e), None);
    assert_eq!(e.counter, 1);
}

#[test]
fn spawner_counter_wraps() {
    let mut e = Executor::new(&vec![3]);
    let s = e.spawner();
    e.counter = u64::MAX;
    assert_eq!(s.spawn(&mut e).unwrap().id, TaskID(u64::MAX));
    assert_eq!(e.counter, 0);
}

#[test]
fn race_left_wins() {
    assert_eq!(race_poll::<u8, u16>(Some(1), Some(2)), Some(Either::Left(1)));
    assert_eq!(race_poll::<u8, u16>(None, Some(2)), Some(Either::Right(2)));
    assert_eq!(race_poll::<u8, u16>(None, None), None);
}

#[test]
fn executor_queues_by_core_id() {
    let mut e = Executor::new(&vec![3, 1, 3, 2]);
    let ids: Vec<u32> = e.contexts.iter().map(|c| c.0).collect();
    assert_eq!(ids, vec![1, 2, 3]);
    assert_eq!(e.counter, 0);
    let s = e.spawner();
    // All queues empty: the lowest core id gets the task.
    assert_eq!(s.spawn(&mut e).unwrap().queue_id, 1);
    assert_eq!(s.spawn(&mut e).unwrap().queue_id, 2);
}

#[test]
fn plan_open_hands_inner_path() {
    let mut m: MountPointArray<u32> = MountPointArray::new();
    m.insert(path("/mnt"), 20);
    m.insert(path("/"), 10);
    let (id, k, inner) = m.plan_open(&path("/mnt/./dir/../file")).unwrap();
    assert_eq!((id, k), (1, 1));
    // "/" is the shortest mount path that starts "/mnt/file"; its repetitions are trimmed.
    assert_eq!(inner.as_str(), "/mnt/file");
    let mut only: MountPointArray<u32> = MountPointArray::new();
    only.insert(path("/mnt"), 20);
    let (id, k, inner) = only.plan_open(&path("/mnt/a/b")).unwrap();
    assert_eq!((id, k, inner.as_str()), (0, 0, "/a/b"));
    let (_, _, inner) = only.plan_open(&path("/mntx")).unwrap();
    assert_eq!(inner.as_str(), "/x");
    assert!(matches!(only.plan_open(&path("/other")), Err(ErrNo::NoSuchFileOrDirectory)));
}
