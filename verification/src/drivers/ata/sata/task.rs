//! The port task: which command slots hold operations, what an interrupt finishes, and the
//! recovery it calls for.  Operations are held by a ticket that the caller maps back to
//! the request it came from.
use vstd::prelude::*;

verus! {

/// Why an operation failed.
#[derive(Debug, Clone, Copy, PartialEq, Eq, Structural)]
pub enum AhciErr {
    /// The drive's ATA error register.
    ATA(u8),
    /// Internal drive error
    Internal,
}

/// What the port's interrupt handler read when the port interrupted.
impl AhciErr {
    /// The text that the error reads as: an ATA error shows as `0`, whatever its code.
    pub fn message(&self) -> (m: String)
        ensures
            self is ATA ==> m@ == "0"@,
            self is Internal ==> m@ == "Internal drive error"@,
    {
        match self {
            AhciErr::ATA(_) => String::from_str("0"),
            AhciErr::Internal => String::from_str("Internal drive error"),
        }
    }
}

#[derive(Debug, Default, Clone, Copy, PartialEq, Eq, Structural)]
pub struct AhciSataInterruptData {
    pub command_issue: u32,
    pub cmd_and_status: u32,
    pub interrupt_status: u32,
    pub task_file_data: u32,
    pub sata_error: u32,
}

/// Interrupt status bit 27: interface fatal error.
pub const IFS: u32 = 0x0800_0000;
/// Interrupt status bit 29: host bus fatal error.
pub const HBFS: u32 = 0x2000_0000;
/// Interrupt status bit 26: interface non-fatal error.
pub const INFS: u32 = 0x0400_0000;
/// Interrupt status bit 28: host bus data error.
pub const HBDS: u32 = 0x1000_0000;
/// Interrupt status bit 30: task file error.
pub const TFES: u32 = 0x4000_0000;

/// The command slot the port is working on: bits 8-12 of command and status.
pub open spec fn spec_cur_cmd_slot(cmd_and_status: u32) -> u32 {
    (cmd_and_status >> 8u32) & 0x1F
}

/// The ATA error code: bits 8-15 of the task file data.
pub open spec fn spec_error_code(tfd: u32) -> u32 {
    (tfd >> 8u32) & 0xFF
}

/// What the task does to bring the port back after an interrupt.
#[derive(Debug, Clone, Copy, PartialEq, Eq, Structural)]
pub enum AhciRecovery {
    /// Reset the port after a fatal error.
    FailureReset,
    /// Reset the link.
    ComReset,
    /// Restart the command list after a task file error and issue these slots again.
    TaskFileRestart { command_issue: u32 },
}

/// The tickets of the occupied slots, in slot order.
pub open spec fn present(ops: Seq<Option<u64>>) -> Seq<u64>
    decreases ops.len(),
{
    if ops.len() == 0 {
        Seq::empty()
    } else {
        let rest = present(ops.drop_last());
        match ops.last() {
            Some(t) => rest.push(t),
            None => rest,
        }
    }
}

/// The tickets of the occupied slots whose bit in `issue` is clear, in slot order.
pub open spec fn completed(ops: Seq<Option<u64>>, issue: u32) -> Seq<u64>
    decreases ops.len(),
{
    if ops.len() == 0 {
        Seq::empty()
    } else {
        let rest = completed(ops.drop_last(), issue);
        let i = ops.len() - 1;
        match ops.last() {
            Some(t) => if issue & (1u32 << (i as u32)) == 0 { rest.push(t) } else { rest },
            None => rest,
        }
    }
}

/// The slots with the completed ones emptied.
pub open spec fn without_completed(ops: Seq<Option<u64>>, issue: u32) -> Seq<Option<u64>> {
    Seq::new(ops.len(), |i: int| if issue & (1u32 << (i as u32)) == 0 { None } else { ops[i] })
}

/// Every slot empty.
pub open spec fn all_empty(n: nat) -> Seq<Option<u64>> {
    Seq::new(n, |i: int| None::<u64>)
}

/// The operations of the port's command slots and how many more it may take.
#[derive(Debug)]
pub struct AhciTaskState {
    pub operations: Vec<Option<u64>>,
    pub remaining_operations: u64,
}

/// What the port's task waits for next.
#[derive(Debug, Clone, Copy, PartialEq, Eq, Structural)]
pub enum TaskWait {
    /// A new request or an interrupt, whichever comes first.
    RequestOrInterrupt,
    /// An interrupt only: no slot is free for a new request.
    InterruptOnly,
}

impl AhciTaskState {
    /// What the task's loop waits for: new requests are taken only while a slot is free.
    pub fn next_wait(&self) -> (w: TaskWait)
        ensures
            w == (if self.remaining_operations > 0 { TaskWait::RequestOrInterrupt } else { TaskWait::InterruptOnly }),
    {
        if self.remaining_operations > 0 {
            TaskWait::RequestOrInterrupt
        } else {
            TaskWait::InterruptOnly
        }
    }

    /// A state with 32 empty slots and room for `max_cmd_slots + 1` operations.
    pub fn new(max_cmd_slots: u64) -> (s: Self)
        requires
            max_cmd_slots < u64::MAX,
        ensures
            s.operations@ == all_empty(32),
            s.remaining_operations == max_cmd_slots + 1,
    {
        let mut operations: Vec<Option<u64>> = Vec::new();
        let mut i: usize = 0;
        while i < 32
            invariant
                i <= 32,
                operations@ == all_empty(i as nat),
            decreases 32 - i,
        {
            operations.push(None);
            i = i + 1;
            assert(operations@ =~= all_empty(i as nat));
        }
        AhciTaskState { operations, remaining_operations: max_cmd_slots + 1 }
    }

    /// Takes every operation out of its slot, each finished with `err`.
    fn finish_all(&mut self, err: Option<AhciErr>, finished: &mut Vec<(u64, Option<AhciErr>)>)
        requires
            old(self).remaining_operations + present(old(self).operations@).len() <= u64::MAX,
        ensures
            final(self).operations@ == all_empty(old(self).operations@.len()),
            final(self).remaining_operations == old(self).remaining_operations + present(old(self).operations@).len(),
            final(finished)@.len() == old(finished)@.len() + present(old(self).operations@).len(),
            forall|k: int| 0 <= k < old(finished)@.len() ==> final(finished)@[k] == old(finished)@[k],
            forall|k: int| 0 <= k < present(old(self).operations@).len() ==> final(finished)@[old(finished)@.len() + k]
                == (present(old(self).operations@)[k], err),
    {
        let ghost ops0 = self.operations@;
        let ghost f0 = finished@;
        let mut i: usize = 0;
        while i < self.operations.len()
            invariant
                self.operations@.len() == ops0.len(),
                i <= ops0.len(),
                forall|k: int| 0 <= k < i ==> self.operations@[k] is None,
                forall|k: int| i <= k < ops0.len() ==> self.operations@[k] == ops0[k],
                self.remaining_operations == old(self).remaining_operations + present(ops0.take(i as int)).len(),
                old(self).remaining_operations + present(ops0).len() <= u64::MAX,
                present(ops0.take(i as int)).len() <= present(ops0).len(),
                finished@.len() == f0.len() + present(ops0.take(i as int)).len(),
                forall|k: int| 0 <= k < f0.len() ==> finished@[k] == f0[k],
                forall|k: int| 0 <= k < present(ops0.take(i as int)).len() ==> finished@[f0.len() + k]
                    == (present(ops0.take(i as int))[k], err),
            decreases ops0.len() - i,
        {
            proof {
                assert(ops0.take(i + 1).drop_last() =~= ops0.take(i as int));
                lemma_present_prefix_mono(ops0, i as int + 1);
            }
            match self.operations[i] {
                Some(t) => {
                    self.operations.set(i, None);
                    finished.push((t, err));
                    self.remaining_operations = self.remaining_operations + 1;
                },
                None => {},
            }
            i = i + 1;
        }
        proof {
            assert(ops0.take(ops0.len() as int) =~= ops0);
            assert(self.operations@ =~= all_empty(ops0.len()));
        }
    }

    /// Handles an interrupt whose handler read `data`, the command issue register being
    /// `cmd_issue` now.  A fatal error finishes every operation as failed and resets the
    /// port; a non-fatal interface error or a host bus data error does the same with a
    /// link reset, each; a task file error then finishes the operation of the current slot
    /// with the drive's error and restarts the other issued slots.  Without a task file
    /// error, every operation whose slot bit is clear in `cmd_issue` is finished
    /// successfully.  Each finished operation frees room for another.
    pub fn handle_interrupt(&mut self, data: AhciSataInterruptData, cmd_issue: u32) -> (r: (Vec<(u64, Option<AhciErr>)>, Vec<AhciRecovery>))
        requires
            old(self).operations@.len() == 32,
            old(self).remaining_operations + 32 <= u64::MAX,
        ensures
            final(self).operations@.len() == 32,
            final(self).remaining_operations == old(self).remaining_operations + r.0@.len(),
            ({
                let st = data.interrupt_status;
                let ops = old(self).operations@;
                if st & IFS != 0 || st & HBFS != 0 {
                    &&& r.1@ == seq![AhciRecovery::FailureReset]
                    &&& final(self).operations@ == all_empty(32)
                    &&& r.0@.len() == present(ops).len()
                    &&& forall|k: int| 0 <= k < r.0@.len() ==> r.0@[k] == (present(ops)[k], Some(AhciErr::Internal))
                } else if st & INFS != 0 || st & HBDS != 0 {
                    let resets: Seq<AhciRecovery> = if st & INFS != 0 && st & HBDS != 0 {
                        seq![AhciRecovery::ComReset, AhciRecovery::ComReset]
                    } else {
                        seq![AhciRecovery::ComReset]
                    };
                    &&& final(self).operations@ == all_empty(32)
                    &&& r.0@.len() == present(ops).len()
                    &&& forall|k: int| 0 <= k < r.0@.len() ==> r.0@[k] == (present(ops)[k], Some(AhciErr::Internal))
                    &&& r.1@ == if st & TFES != 0 {
                        resets.push(AhciRecovery::TaskFileRestart {
                            command_issue: data.command_issue & !(1u32 << spec_cur_cmd_slot(data.cmd_and_status)),
                        })
                    } else {
                        resets
                    }
                } else if st & TFES != 0 {
                    let slot = spec_cur_cmd_slot(data.cmd_and_status) as int;
                    &&& final(self).operations@ == ops.update(slot, None)
                    &&& r.0@ == match ops[slot] {
                        Some(t) => seq![(t, Some(AhciErr::ATA(spec_error_code(data.task_file_data) as u8)))],
                        None => Seq::empty(),
                    }
                    &&& r.1@ == seq![AhciRecovery::TaskFileRestart {
                        command_issue: data.command_issue & !(1u32 << (slot as u32)),
                    }]
                } else {
                    &&& r.1@.len() == 0
                    &&& final(self).operations@ == without_completed(ops, cmd_issue)
                    &&& r.0@.len() == completed(ops, cmd_issue).len()
                    &&& forall|k: int| 0 <= k < r.0@.len() ==> r.0@[k] == (completed(ops, cmd_issue)[k], None::<AhciErr>)
                }
            }),
    {
        let ghost ops = self.operations@;
        proof {
            lemma_present_prefix_le(ops, 32);
            assert(ops.take(32) =~= ops);
        }
        let st = data.interrupt_status;
        let mut finished: Vec<(u64, Option<AhciErr>)> = Vec::new();
        let mut actions: Vec<AhciRecovery> = Vec::new();
        if st & IFS != 0 || st & HBFS != 0 {
            self.finish_all(Some(AhciErr::Internal), &mut finished);
            actions.push(AhciRecovery::FailureReset);
            return (finished, actions);
        }
        let mut reset = false;
        if st & INFS != 0 {
            self.finish_all(Some(AhciErr::Internal), &mut finished);
            actions.push(AhciRecovery::ComReset);
            reset = true;
        }
        if st & HBDS != 0 {
            proof {
                if reset {
                    lemma_present_empty(32);
                }
            }
            self.finish_all(Some(AhciErr::Internal), &mut finished);
            actions.push(AhciRecovery::ComReset);
        }
        if st & TFES != 0 {
            let cs = data.cmd_and_status;
            let slot = (cs >> 8u32) & 0x1F;
            assert(slot < 32) by (bit_vector)
                requires
                    slot == (cs >> 8u32) & 0x1F,
            ;
            let err = ((data.task_file_data >> 8u32) & 0xFF) as u8;
            match self.operations[slot as usize] {
                Some(t) => {
                    self.operations.set(slot as usize, None);
                    finished.push((t, Some(AhciErr::ATA(err))));
                    self.remaining_operations = self.remaining_operations + 1;
                },
                None => {},
            }
            actions.push(AhciRecovery::TaskFileRestart { command_issue: data.command_issue & !(1u32 << slot) });
            proof {
                if st & INFS != 0 || st & HBDS != 0 {
                    assert(self.operations@ =~= all_empty(32));
                }
            }
            return (finished, actions);
        }
        let mut i: usize = 0;
        while i < 32
            invariant
                self.operations@.len() == 32,
                ops.len() == 32,
                i <= 32,
                st == data.interrupt_status,
                st & IFS == 0 && st & HBFS == 0,
                st & TFES == 0,
                (st & INFS != 0 || st & HBDS != 0) ==> self.operations@ == all_empty(32) && finished@.len() == present(ops).len()
                    && (forall|k: int| 0 <= k < finished@.len() ==> finished@[k] == (present(ops)[k], Some(AhciErr::Internal)))
                    && actions@ == if st & INFS != 0 && st & HBDS != 0 {
                        seq![AhciRecovery::ComReset, AhciRecovery::ComReset]
                    } else {
                        seq![AhciRecovery::ComReset]
                    }
                    && self.remaining_operations == old(self).remaining_operations + finished@.len(),
                !(st & INFS != 0 || st & HBDS != 0) ==> {
                    &&& actions@.len() == 0
                    &&& forall|k: int| 0 <= k < i ==> self.operations@[k] == without_completed(ops, cmd_issue)[k]
                    &&& forall|k: int| i <= k < 32 ==> self.operations@[k] == ops[k]
                    &&& finished@.len() == completed(ops.take(i as int), cmd_issue).len()
                    &&& forall|k: int| 0 <= k < finished@.len() ==> finished@[k] == (completed(ops.take(i as int), cmd_issue)[k], None::<AhciErr>)
                    &&& self.remaining_operations == old(self).remaining_operations + finished@.len()
                    &&& finished@.len() <= i
                },
                old(self).remaining_operations + 32 <= u64::MAX,
            decreases 32 - i,
        {
            proof {
                assert(ops.take(i + 1).drop_last() =~= ops.take(i as int));
            }
            let done = cmd_issue & (1u32 << (i as u32)) == 0;
            match self.operations[i] {
                Some(t) => {
                    if done {
                        self.operations.set(i, None);
                        finished.push((t, None));
                        self.remaining_operations = self.remaining_operations + 1;
                    }
                },
                None => {},
            }
            i = i + 1;
        }
        proof {
            assert(ops.take(32) =~= ops);
            if !(st & INFS != 0 || st & HBDS != 0) {
                assert(self.operations@ =~= without_completed(ops, cmd_issue));
            }
        }
        (finished, actions)
    }

    /// Puts the operation `ticket` in the first empty slot among the first
    /// `max_cmd_slots + 1`, taking one from the room for operations; the slot comes back,
    /// or `None` where all those slots are taken.
    pub fn start_operation(&mut self, ticket: u64, max_cmd_slots: u64) -> (r: Option<usize>)
        requires
            old(self).operations@.len() == 32,
            old(self).remaining_operations > 0,
            max_cmd_slots < 32,
        ensures
            final(self).remaining_operations == old(self).remaining_operations - 1,
            final(self).operations@.len() == 32,
            match r {
                Some(i) => {
                    &&& i <= max_cmd_slots
                    &&& old(self).operations@[i as int] is None
                    &&& forall|k: int| 0 <= k < i ==> old(self).operations@[k] is Some
                    &&& final(self).operations@ == old(self).operations@.update(i as int, Some(ticket))
                },
                None => {
                    &&& forall|k: int| 0 <= k <= max_cmd_slots ==> old(self).operations@[k] is Some
                    &&& final(self).operations@ == old(self).operations@
                },
            },
    {
        self.remaining_operations = self.remaining_operations - 1;
        let mut i: usize = 0;
        while i <= max_cmd_slots as usize
            invariant
                self.operations@ == old(self).operations@,
                self.operations@.len() == 32,
                max_cmd_slots < 32,
                i <= max_cmd_slots + 1,
                forall|k: int| 0 <= k < i ==> old(self).operations@[k] is Some,
                self.remaining_operations == old(self).remaining_operations - 1,
            decreases max_cmd_slots + 1 - i,
        {
            if self.operations[i].is_none() {
                self.operations.set(i, Some(ticket));
                return Some(i);
            }
            i = i + 1;
        }
        None
    }
}

/// The tickets of the occupied slots among the first `n` are no more than `n`.
proof fn lemma_present_prefix_le(ops: Seq<Option<u64>>, n: int)
    requires
        0 <= n <= ops.len(),
    ensures
        present(ops.take(n)).len() <= n,
    decreases n,
{
    if n > 0 {
        assert(ops.take(n).drop_last() =~= ops.take(n - 1));
        lemma_present_prefix_le(ops, n - 1);
    }
}

/// A prefix holds no more tickets than the whole.
proof fn lemma_present_prefix_mono(ops: Seq<Option<u64>>, n: int)
    requires
        0 <= n <= ops.len(),
    ensures
        present(ops.take(n)).len() <= present(ops).len(),
    decreases ops.len() - n,
{
    if n < ops.len() {
        lemma_present_prefix_mono(ops, n + 1);
        assert(ops.take(n + 1).drop_last() =~= ops.take(n));
    } else {
        assert(ops.take(n) =~= ops);
    }
}

/// Empty slots hold no tickets.
proof fn lemma_present_empty(n: nat)
    ensures
        present(all_empty(n)) == Seq::<u64>::empty(),
    decreases n,
{
    if n > 0 {
        assert(all_empty(n).drop_last() =~= all_empty((n - 1) as nat));
        lemma_present_empty((n - 1) as nat);
    }
}

/// The future that waits for a port's interrupt: the first poll registers it and waits,
/// the next one is ready.
pub struct AhciSataPortFuture {
    pub hba_idx: usize,
    pub port_idx: usize,
    pub awaken: bool,
}

impl AhciSataPortFuture {
    /// A future for port `port_idx` of controller `hba_idx` that has not been polled.
    pub fn new(hba_idx: usize, port_idx: usize) -> (f: Self)
        ensures
            f.hba_idx == hba_idx,
            f.port_idx == port_idx,
            !f.awaken,
    {
        AhciSataPortFuture { hba_idx, port_idx, awaken: false }
    }

    /// One poll: ready once it has been polled before; the first poll marks it polled and
    /// waits (the caller registers its waker then).
    pub fn poll_step(&mut self) -> (ready: bool)
        ensures
            ready == old(self).awaken,
            final(self).awaken,
            final(self).hba_idx == old(self).hba_idx,
            final(self).port_idx == old(self).port_idx,
    {
        if self.awaken {
            true
        } else {
            self.awaken = true;
            false
        }
    }
}

/// Whether port `i` is named in a controller's interrupt status: its bit is set.
pub open spec fn port_pending(interrupt_status: u32, i: int) -> bool {
    interrupt_status & (1u32 << (i as u32)) != 0
}

/// The ports that a controller's interrupt status names: each set bit, in order.
pub fn ahci_interrupt_handler_by_idx(interrupt_status: u32) -> (ports: Vec<usize>)
    ensures
        forall|k: int| 0 <= k < ports@.len() ==> ports@[k] < 32 && port_pending(interrupt_status, ports@[k] as int),
        forall|i: int| 0 <= i < 32 && #[trigger] port_pending(interrupt_status, i) ==> ports@.contains(i as usize),
        forall|k: int, l: int| 0 <= k < l < ports@.len() ==> ports@[k] < ports@[l],
{
    let mut ports: Vec<usize> = Vec::new();
    let mut i: usize = 0;
    while i < 32
        invariant
            i <= 32,
            forall|k: int| 0 <= k < ports@.len() ==> ports@[k] < i && port_pending(interrupt_status, ports@[k] as int),
            forall|j: int| 0 <= j < i && #[trigger] port_pending(interrupt_status, j) ==> ports@.contains(j as usize),
            forall|k: int, l: int| 0 <= k < l < ports@.len() ==> ports@[k] < ports@[l],
        decreases 32 - i,
    {
        let ghost prev = ports@;
        if interrupt_status & (1u32 << (i as u32)) != 0 {
            ports.push(i);
            assert(ports@[ports@.len() - 1] == i);
        }
        proof {
            assert forall|j: int| 0 <= j < i + 1 && #[trigger] port_pending(interrupt_status, j) implies ports@.contains(j as usize) by {
                if j == i {
                    assert(ports@[ports@.len() - 1] == i);
                } else {
                    assert(prev.contains(j as usize));
                    let k = choose|k: int| 0 <= k < prev.len() && prev[k] == j as usize;
                    assert(ports@[k] == prev[k]);
                }
            }
        }
        i = i + 1;
    }
    ports
}

/// What the port's interrupt handler writes to command and status: on a task file error,
/// the value read with start cleared, stopping the command engine; otherwise nothing.
pub fn stop_on_task_file_error(interrupt_status: u32, cmd_and_status: u32) -> (r: Option<u32>)
    ensures
        interrupt_status & TFES != 0 ==> r == Some(cmd_and_status & !1u32),
        interrupt_status & TFES == 0 ==> r is None,
{
    if interrupt_status & TFES != 0 {
        Some(cmd_and_status & !1u32)
    } else {
        None
    }
}

/// Finishing the completed operations moves each of them out of the slots: the slots
/// left occupied and the operations finished together are the operations there were.  So
/// the room of the task, grown by the number finished, plus the occupied slots stays
/// what it was.
pub proof fn lemma_completion_keeps_count(ops: Seq<Option<u64>>, issue: u32)
    requires
        ops.len() <= 32,
    ensures
        present(without_completed(ops, issue)).len() + completed(ops, issue).len() == present(ops).len(),
    decreases ops.len(),
{
    if ops.len() > 0 {
        let init = ops.drop_last();
        lemma_completion_keeps_count(init, issue);
        let w = without_completed(ops, issue);
        assert(w.drop_last() =~= without_completed(init, issue));
        let i = ops.len() - 1;
        assert(w.last() == w[i]);
    }
}

/// No slot of an emptied set of slots is occupied.
pub proof fn lemma_all_empty_present(n: nat)
    ensures
        present(all_empty(n)).len() == 0,
    decreases n,
{
    if n > 0 {
        assert(all_empty(n).drop_last() =~= all_empty((n - 1) as nat));
        lemma_all_empty_present((n - 1) as nat);
    }
}

} // verus!
