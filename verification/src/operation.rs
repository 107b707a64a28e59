//! One operation of the driver as a sequence of bus calls.
//!
//! An [`Operation`] is a state machine. It hands out one bus call at a time; the host
//! makes the call and resumes the machine with the answer, until the machine hands out
//! the result. The machine decides everything that the protocol fixes: which commands
//! are sent and in what order, when writing is enabled, how long the status register is
//! read, and how a failure ends the work.

use vstd::prelude::*;
use crate::bus::{BusCall, Call, Ending, Reply, Step};
use crate::command::{Command, Frame};
use crate::error::Error;
use crate::status::{judge, verdict, Verdict};
use crate::task::{Job, Outcome, Task};
use crate::transaction::{lemma_transaction_resumed, Transaction, TransactionView};

verus! {

/// The step of its work at which an operation stands, or at which it ended.
#[derive(Clone, Copy, Debug, PartialEq, Eq, Structural)]
pub enum Stage {
    /// Nothing was handed out yet.
    Fresh,
    /// The chip is being deselected before the first command.
    Parking,
    /// The command that enables writing is on the bus; or, in an operation that has
    /// completed, no cycle is left to begin.
    Enable,
    /// A program or erase command is on the bus.
    Change,
    /// The status register is being read to learn whether the chip is still busy.
    Poll,
    /// The single command of an operation that neither programs nor erases is on the bus.
    Query,
}

/// What the calls handed out so far have made of the chip.
#[derive(Clone, Copy, Debug, PartialEq, Eq, Structural)]
pub enum ChipState {
    /// The chip is deselected and no program or erase command waits to be finished.
    Idle,
    /// The chip is selected: a command is on the bus.
    InTransaction,
    /// The chip is deselected after a program or erase command, and no status read has
    /// found it idle since.
    AwaitingCompletion,
}

/// A command that went through without a failure, with the bytes that came back with
/// its first SPI call.
pub struct Record {
    /// The command.
    pub frame: Frame,
    /// The bytes that came back while the head of the command was sent; none for a
    /// command without an answer.
    pub received: Seq<u8>,
}

impl Record {
    /// Whether the record is that of a status read which found the chip idle and healthy.
    pub open spec fn found_idle(self) -> bool {
        self.frame is ReadStatus && verdict(self.received[1]) == Verdict::Idle
    }

    /// Whether the record is that of a status read which found the chip busy.
    pub open spec fn found_busy(self) -> bool {
        self.frame is ReadStatus && verdict(self.received[1]) == Verdict::Busy
    }
}

/// The bus calls of a sequence of commands that all went through: their scripts, one
/// after the other.
pub open spec fn wire(records: Seq<Record>) -> Seq<Call>
    decreases records.len(),
{
    if records.len() == 0 {
        Seq::empty()
    } else {
        wire(records.drop_last()) + records.last().frame.script()
    }
}

/// The calls of one more command follow those of the commands before it.
pub proof fn lemma_wire_push(records: Seq<Record>, record: Record)
    ensures
        wire(records.push(record)) == wire(records) + record.frame.script(),
{
    assert(records.push(record).drop_last() =~= records);
}

/// The program and erase commands among `records`, in order.
pub open spec fn changed(records: Seq<Record>) -> Seq<Frame>
    decreases records.len(),
{
    if records.len() == 0 {
        Seq::empty()
    } else if records.last().frame.changes_state() {
        changed(records.drop_last()).push(records.last().frame)
    } else {
        changed(records.drop_last())
    }
}

/// One more command adds itself to the program and erase commands if it is one.
pub proof fn lemma_changed_push(records: Seq<Record>, record: Record)
    ensures
        changed(records.push(record)) == (if record.frame.changes_state() {
            changed(records).push(record.frame)
        } else {
            changed(records)
        }),
{
    assert(records.push(record).drop_last() =~= records);
}

/// The program or erase commands that `job` still has to send when `from` of its work
/// is done: one for each cycle, each starting where the one before it ended.
pub open spec fn cycles(job: Job, from: nat) -> Seq<Frame>
    decreases job.total() - from,
{
    if from >= job.total() {
        Seq::empty()
    } else {
        seq![job.change(from)] + cycles(job, from + job.stride(from))
    }
}

/// An operation in progress, for a host whose SPI bus fails with an `S` and whose
/// chip-select pin fails with a `G`.
pub struct Operation<S, G> {
    task: Task,
    stage: Stage,
    ending: Option<Ending>,
    offset: usize,
    txn: Option<Transaction<S, G>>,
    completed: Ghost<Seq<Record>>,
}

/// An operation in progress as a mathematical value.
pub struct OperationView<S> {
    /// What is to be done.
    pub job: Job,
    /// The step at which the operation stands, or at which it ended.
    pub stage: Stage,
    /// How the operation ended, once it has.
    pub ending: Option<Ending>,
    /// How much of the work of a program or erase operation is done.
    pub offset: nat,
    /// The command that is on the bus, or that failed there.
    pub txn: Option<TransactionView<S>>,
    /// The commands that went through, in order.
    pub completed: Seq<Record>,
}

impl<S> OperationView<S> {
    /// The operation `job` before anything was handed out.
    pub open spec fn fresh(job: Job) -> Self {
        OperationView {
            job,
            stage: Stage::Fresh,
            ending: None,
            offset: 0,
            txn: None,
            completed: Seq::empty(),
        }
    }

    /// Whether the host owes an answer to a call.
    pub open spec fn awaiting(self) -> bool {
        self.ending is None && !(self.stage is Fresh)
    }

    /// The call that the host was handed last.
    pub open spec fn pending(self) -> Call {
        if self.stage is Parking {
            Call::Deselect
        } else {
            self.txn->0.pending()
        }
    }

    /// What the calls handed out so far have made of the chip.
    ///
    /// The chip takes a program or erase command when it is deselected at the end of
    /// it, and is taken to be at work on it until a status read has found it idle.
    pub open spec fn chip_state(self) -> ChipState {
        if self.txn matches Some(txn) && txn.selected() {
            ChipState::InTransaction
        } else if self.stage is Poll || (self.stage is Change && self.txn is Some) {
            ChipState::AwaitingCompletion
        } else {
            ChipState::Idle
        }
    }

    /// The command that is sent at `stage`.
    pub open spec fn frame_at(self, stage: Stage) -> Frame {
        match stage {
            Stage::Enable => Frame::WriteEnable,
            Stage::Change => self.job.change(self.offset),
            Stage::Poll => Frame::ReadStatus,
            _ => self.job.query(),
        }
    }

    /// The calls made before the first command: an operation that takes charge of the
    /// chip deselects it first, the others make none.
    pub open spec fn preamble(self) -> Seq<Call> {
        if self.job is Init && !(self.stage is Fresh) {
            seq![Call::Deselect]
        } else {
            Seq::empty()
        }
    }

    /// The calls of the command that is on the bus, or that failed there.
    pub open spec fn open_calls(self) -> Seq<Call> {
        match self.txn {
            Some(txn) => txn.issued(),
            None => Seq::empty(),
        }
    }

    /// Every call handed out so far, in order.
    pub open spec fn trace(self) -> Seq<Call> {
        self.preamble() + wire(self.completed) + self.open_calls()
    }

    /// Every command begun so far, in order: those that went through, then the one that
    /// is on the bus or failed there.
    pub open spec fn frames(self) -> Seq<Frame> {
        let done = Seq::new(self.completed.len(), |i: int| self.completed[i].frame);
        match self.txn {
            Some(txn) => done.push(txn.frame),
            None => done,
        }
    }

    /// The operation with the command of `stage` begun: the chip is being selected.
    pub open spec fn launched(self, stage: Stage) -> Self {
        OperationView {
            stage,
            txn: Some(
                TransactionView { begun: true, ..TransactionView::fresh(self.frame_at(stage)) },
            ),
            ..self
        }
    }

    /// The operation after its first call was handed out, or ended where there is
    /// nothing to do.
    pub open spec fn started(self) -> Self {
        if self.job is Init {
            OperationView { stage: Stage::Parking, ..self }
        } else if !self.job.changes_state() {
            self.launched(Stage::Query)
        } else if self.job.total() == 0 {
            OperationView { stage: Stage::Enable, ending: Some(Ending::Completed), ..self }
        } else {
            self.launched(Stage::Enable)
        }
    }

    /// The operation after the command on the bus went through and brought `received`.
    ///
    /// After the enabling command comes the program or erase command, and after that the
    /// status is read. A status with the reserved bit set ends the operation; a busy one
    /// is followed by another read; an idle one ends the cycle, and the next cycle
    /// begins if work is left.
    pub open spec fn settled(self, received: Seq<u8>) -> Self {
        let done = OperationView {
            completed: self.completed.push(Record { frame: self.txn->0.frame, received }),
            txn: None,
            ..self
        };
        match self.stage {
            Stage::Enable => done.launched(Stage::Change),
            Stage::Change => done.launched(Stage::Poll),
            Stage::Poll => match verdict(received[1]) {
                Verdict::Faulty => OperationView { ending: Some(Ending::Rejected), ..done },
                Verdict::Busy => done.launched(Stage::Poll),
                Verdict::Idle => {
                    let moved = OperationView {
                        stage: Stage::Enable,
                        offset: self.offset + self.job.stride(self.offset),
                        ..done
                    };
                    if moved.offset < self.job.total() {
                        moved.launched(Stage::Enable)
                    } else {
                        OperationView { ending: Some(Ending::Completed), ..moved }
                    }
                },
            },
            _ => OperationView {
                ending: Some(
                    if self.job.answer(received) is Some {
                        Ending::Completed
                    } else {
                        Ending::Rejected
                    },
                ),
                ..done
            },
        }
    }

    /// The operation after the host answered the pending call with `reply`.
    ///
    /// A failure ends the operation where it stands: nothing is tried again and no
    /// further command is sent.
    pub open spec fn resumed<G>(self, reply: Reply<S, G>) -> Self {
        if self.stage is Parking {
            if reply is PinFault {
                OperationView { ending: Some(Ending::PinFailed), ..self }
            } else {
                self.launched(Stage::Query)
            }
        } else {
            let txn = self.txn->0;
            if !txn.closes(reply) {
                OperationView { txn: Some(txn.resumed(reply)), ..self }
            } else {
                match txn.outcome(reply) {
                    Ok(received) => self.settled(received),
                    Err(Error::Gpio(_)) => OperationView {
                        ending: Some(Ending::PinFailed),
                        txn: Some(txn.resumed(reply)),
                        ..self
                    },
                    Err(_) => OperationView {
                        ending: Some(Ending::BusFailed),
                        txn: Some(txn.resumed(reply)),
                        ..self
                    },
                }
            }
        }
    }

    /// The result of the operation when its last command went through and brought
    /// `received`.
    ///
    /// A status with the reserved bit set gives `UnexpectedStatus`, and so does, for the
    /// operations that take charge of the chip or give it up, a status that shows the
    /// chip busy.
    pub open spec fn judged<G>(self, received: Seq<u8>) -> Result<Outcome, Error<S, G>> {
        if self.stage is Query {
            match self.job.answer(received) {
                Some(outcome) => Ok(outcome),
                None => Err(Error::UnexpectedStatus),
            }
        } else if verdict(received[1]) == Verdict::Faulty {
            Err(Error::UnexpectedStatus)
        } else {
            Ok(Outcome::Done)
        }
    }

    /// The result of the operation if the answer `reply` ends it: a failure of the pin
    /// or of the bus is handed on as it came, and a command that went through is judged
    /// by what it brought.
    pub open spec fn result<G>(self, reply: Reply<S, G>) -> Result<Outcome, Error<S, G>> {
        if self.stage is Parking {
            match reply {
                Reply::PinFault(g) => Err(Error::Gpio(g)),
                _ => Ok(Outcome::Done),
            }
        } else {
            match self.txn->0.outcome(reply) {
                Err(e) => Err(e),
                Ok(received) => self.judged(received),
            }
        }
    }

    /// How the parts of an operation fit together at every moment.
    ///
    /// While the operation runs, a command is on the bus, and it is the command of the
    /// stage. After a failure that command is kept as it failed. An operation that
    /// programs or erases completes when all its work is done, and not before.
    pub open spec fn legal(self) -> bool {
        &&& self.offset <= self.job.total()
        &&& match self.stage {
            Stage::Fresh => self.ending is None && self.txn is None && self.completed.len() == 0
                && self.offset == 0,
            Stage::Parking => self.job is Init && self.txn is None && self.completed.len() == 0
                && (self.ending is None || self.ending == Some(Ending::PinFailed)),
            _ => {
                &&& self.stage is Query <==> !self.job.changes_state()
                &&& match self.ending {
                    Some(Ending::Completed) => self.txn is None && (self.stage is Query || (
                    self.stage is Enable && self.offset == self.job.total())),
                    Some(Ending::Rejected) => self.txn is None && (self.stage is Query
                        || self.stage is Poll),
                    _ => {
                        &&& self.txn matches Some(txn) && txn.legal() && txn.begun
                            && txn.ending == self.ending && txn.frame == self.frame_at(
                            self.stage,
                        )
                        &&& self.job.changes_state() ==> self.offset < self.job.total()
                    },
                }
            },
        }
        &&& forall|i: int|
            0 <= i < self.completed.len() ==> (#[trigger] self.completed[i]).received.len() == (
            if self.completed[i].frame.answer_len() > 0 {
                self.completed[i].frame.head().len()
            } else {
                0
            })
    }

    /// The order that the commands of an operation keep.
    ///
    /// A program or erase command comes directly after a command that enabled writing.
    /// Writing is enabled at the very beginning or directly after a status read that
    /// found the chip idle. The status is read directly after a program or erase
    /// command, or after a status read that found the chip busy. An operation that
    /// programs or erases sends no other commands than these. No program command
    /// leaves its page, and no address leaves the address space. An operation that
    /// neither programs nor erases sends its one command and no other.
    pub open spec fn ordered(self) -> bool {
        &&& forall|i: int|
            0 <= i < self.completed.len() && (#[trigger] self.completed[i]).frame.changes_state()
                ==> i >= 1
        &&& forall|i: int, j: int|
            0 <= i && j == i + 1 && j < self.completed.len() && (
            #[trigger] self.completed[j]).frame.changes_state() ==> (
            #[trigger] self.completed[i]).frame is WriteEnable
        &&& forall|i: int, j: int|
            0 <= i && j == i + 1 && j < self.completed.len() && (
            #[trigger] self.completed[j]).frame is WriteEnable ==> (
            #[trigger] self.completed[i]).found_idle()
        &&& forall|i: int, j: int|
            0 <= i && j == i + 1 && j < self.completed.len() && self.job.changes_state() && (
            #[trigger] self.completed[j]).frame is ReadStatus ==> (
            #[trigger] self.completed[i]).frame.changes_state() || self.completed[i].found_busy()
        &&& forall|i: int|
            0 <= i < self.completed.len() && self.job.changes_state() ==> (
            #[trigger] self.completed[i]).frame.in_cycle()
        &&& self.completed.len() > 0 && self.job.changes_state() ==> self.completed[0].frame
            is WriteEnable
        &&& forall|i: int|
            0 <= i < self.completed.len() ==> (#[trigger] self.completed[i]).frame.fits_page()
        &&& forall|i: int|
            0 <= i < self.completed.len() ==> (#[trigger] self.completed[i]).frame.in_range()
        &&& forall|i: int|
            0 <= i < self.completed.len() && !self.job.changes_state() ==> i == 0 && (
            #[trigger] self.completed[i]).frame == self.job.query()
        &&& match self.stage {
            Stage::Enable => if self.offset == 0 {
                self.completed.len() == 0
            } else {
                self.completed.len() >= 1 && self.completed.last().found_idle()
            },
            Stage::Change => self.completed.len() >= 1 && self.completed.last().frame
                is WriteEnable,
            Stage::Poll => self.completed.len() >= 1 && (self.txn is Some ==> (
            self.completed.last().frame.changes_state() || self.completed.last().found_busy())),
            Stage::Query => if self.txn is Some {
                self.completed.len() == 0
            } else {
                self.completed.len() == 1 && (self.ending == Some(Ending::Completed)
                    <==> self.job.answer(self.completed[0].received) is Some)
            },
            _ => true,
        }
    }

    /// That the program and erase commands which went through are the first of those
    /// that the operation has to send, in their order: together with the ones that are
    /// left they are the commands of all its cycles.
    pub open spec fn planned(self) -> bool {
        changed(self.completed) + cycles(
            self.job,
            if self.stage is Poll {
                self.offset + self.job.stride(self.offset)
            } else {
                self.offset
            },
        ) == cycles(self.job, 0)
    }

    /// What holds of every operation at every moment.
    pub open spec fn valid(self) -> bool {
        self.legal() && self.ordered() && self.planned()
    }
}

impl<S, G> View for Operation<S, G> {
    type V = OperationView<S>;

    closed spec fn view(&self) -> OperationView<S> {
        OperationView {
            job: self.task@,
            stage: self.stage,
            ending: self.ending,
            offset: self.offset as nat,
            txn: match self.txn {
                Some(txn) => Some(txn@),
                None => None,
            },
            completed: self.completed@,
        }
    }
}

impl<S, G> Operation<S, G> {
    /// Whether the command on the bus holds the calls that are still to be handed out.
    pub closed spec fn kept(&self) -> bool {
        self.txn matches Some(txn) ==> txn.stocked()
    }

    /// Whether the value is one that this module builds.
    pub open spec fn wf(&self) -> bool {
        self.kept() && self@.valid()
    }

    /// The operation that carries out `task`. No call is made yet.
    pub fn new(task: Task) -> (op: Self)
        ensures
            op.wf(),
            op@ == OperationView::<S>::fresh(task@),
    {
        proof {
            assert(changed(Seq::<Record>::empty()) + cycles(task@, 0) =~= cycles(task@, 0));
        }
        Operation {
            task,
            stage: Stage::Fresh,
            ending: None,
            offset: 0,
            txn: None,
            completed: Ghost(Seq::empty()),
        }
    }

    /// The operation that takes charge of the chip: it deselects the chip, reads the
    /// status register once and succeeds if the chip is idle and healthy.
    pub fn init() -> (op: Self)
        ensures
            op.wf(),
            op@ == OperationView::<S>::fresh(Job::Init),
    {
        Self::new(Task::Init)
    }

    /// The operation that gives the chip up: it reads the status register once and
    /// succeeds if the chip is idle and healthy.
    pub fn free() -> (op: Self)
        ensures
            op.wf(),
            op@ == OperationView::<S>::fresh(Job::Free),
    {
        Self::new(Task::Free)
    }

    /// The operation that reads the JEDEC identifier.
    pub fn read_jedec_id() -> (op: Self)
        ensures
            op.wf(),
            op@ == OperationView::<S>::fresh(Job::ReadJedecId),
    {
        Self::new(Task::ReadJedecId)
    }

    /// The operation that reads the status register and hands it on as it came.
    pub fn read_status() -> (op: Self)
        ensures
            op.wf(),
            op@ == OperationView::<S>::fresh(Job::ReadStatus),
    {
        Self::new(Task::ReadStatus)
    }

    /// The operation that reads `len` bytes from `addr` on.
    pub fn read(addr: u32, len: usize) -> (op: Self)
        ensures
            op.wf(),
            op@ == OperationView::<S>::fresh(Job::Read { addr, len: len as nat }),
    {
        Self::new(Task::Read { addr, len })
    }

    /// The operation that programs `data` from `addr` on, page by page.
    pub fn write_bytes(addr: u32, data: Vec<u8>) -> (op: Self)
        ensures
            op.wf(),
            op@ == OperationView::<S>::fresh(Job::WriteBytes { addr, data: data@ }),
    {
        Self::new(Task::WriteBytes { addr, data })
    }

    /// The operation that erases `count` sectors, the first being the one that holds
    /// `addr`.
    pub fn erase_sectors(addr: u32, count: usize) -> (op: Self)
        ensures
            op.wf(),
            op@ == OperationView::<S>::fresh(Job::EraseSectors { addr, count: count as nat }),
    {
        Self::new(Task::EraseSectors { addr, count })
    }

    /// The operation that erases the block that holds `addr`.
    pub fn erase_block(addr: u32) -> (op: Self)
        ensures
            op.wf(),
            op@ == OperationView::<S>::fresh(Job::EraseBlock { addr }),
    {
        Self::new(Task::EraseBlock { addr })
    }

    /// The operation that erases the whole chip.
    pub fn erase_all() -> (op: Self)
        ensures
            op.wf(),
            op@ == OperationView::<S>::fresh(Job::EraseAll),
    {
        Self::new(Task::EraseAll)
    }

    /// The step at which the operation stands, or at which it ended.
    pub fn stage(&self) -> (stage: Stage)
        ensures
            stage == self@.stage,
    {
        self.stage
    }

    /// How much of the work of a program or erase operation is done: the bytes
    /// programmed or the sectors erased so far.
    pub fn progress(&self) -> (offset: usize)
        ensures
            offset == self@.offset,
    {
        self.offset
    }

    /// Tells whether the operation waits for the chip to finish a program or erase
    /// command. The calls that it hands out meanwhile only read the status, so the host
    /// may let time pass before it makes them.
    pub fn is_polling(&self) -> (polling: bool)
        ensures
            polling == (self@.awaiting() && self@.stage is Poll),
    {
        self.ending.is_none() && match self.stage {
            Stage::Poll => true,
            _ => false,
        }
    }

    /// What the calls handed out so far have made of the chip.
    pub fn chip_state(&self) -> (state: ChipState)
        ensures
            state == self@.chip_state(),
    {
        let selected = match &self.txn {
            Some(txn) => txn.is_selected(),
            None => false,
        };
        if selected {
            ChipState::InTransaction
        } else {
            match self.stage {
                Stage::Poll => ChipState::AwaitingCompletion,
                Stage::Change => if self.txn.is_some() {
                    ChipState::AwaitingCompletion
                } else {
                    ChipState::Idle
                },
                _ => ChipState::Idle,
            }
        }
    }

    /// How the operation ended, if it has.
    pub fn ending(&self) -> (ending: Option<Ending>)
        ensures
            ending == self@.ending,
    {
        self.ending
    }

    /// Tells whether the host owes an answer to a call.
    pub fn is_awaiting(&self) -> (awaiting: bool)
        ensures
            awaiting == self@.awaiting(),
    {
        self.ending.is_none() && match self.stage {
            Stage::Fresh => false,
            _ => true,
        }
    }

    /// Tells whether `reply` can be the answer to the call that is pending.
    pub fn expects(&self, reply: &Reply<S, G>) -> (fits: bool)
        requires
            self.wf(),
            self@.awaiting(),
        ensures
            fits == self@.pending().answered_by(*reply),
    {
        match &self.txn {
            Some(txn) => txn.expects(reply),
            None => match reply {
                Reply::Done => true,
                Reply::PinFault(_) => true,
                _ => false,
            },
        }
    }

    /// Begins the command of `stage`.
    fn launch(&mut self, stage: Stage) -> (call: BusCall)
        requires
            old(self).kept(),
            old(self).txn is None,
            !(stage is Fresh) && !(stage is Parking),
            stage is Change ==> old(self)@.job.changes_state() && old(self)@.offset
                < old(self)@.job.total(),
        ensures
            final(self).kept(),
            final(self)@ == old(self)@.launched(stage),
            call@ == Call::Select,
    {
        let command = match stage {
            Stage::Enable => Command::WriteEnable,
            Stage::Change => self.task.change(self.offset),
            Stage::Poll => Command::ReadStatus,
            _ => self.task.query(),
        };
        let mut txn: Transaction<S, G> = Transaction::new(command);
        let call = txn.begin();
        self.txn = Some(txn);
        self.stage = stage;
        call
    }

    /// Hands out the first call of the operation, or its result where there is nothing
    /// to do: a write of no bytes and an erase of no sectors make no call.
    pub fn start(&mut self) -> (step: Step<Outcome, S, G>)
        requires
            old(self).wf(),
            old(self)@.stage is Fresh,
        ensures
            final(self).wf(),
            final(self)@ == old(self)@.started(),
            final(self)@.trace() == step.calls(),
            final(self)@.ending == step.ending(),
            (match step {
                Step::Call(call) => final(self)@.awaiting() && call@ == final(self)@.pending(),
                Step::Finished(result) => result == Ok::<Outcome, Error<S, G>>(Outcome::Done),
            }),
    {
        proof {
            lemma_started(self@);
        }
        match &self.task {
            Task::Init => {
                self.stage = Stage::Parking;
                Step::Call(BusCall::Deselect)
            },
            _ => {
                if !self.task.changes_state() {
                    Step::Call(self.launch(Stage::Query))
                } else if self.task.total() == 0 {
                    self.stage = Stage::Enable;
                    self.ending = Some(Ending::Completed);
                    Step::Finished(Ok(Outcome::Done))
                } else {
                    Step::Call(self.launch(Stage::Enable))
                }
            },
        }
    }

    /// Books the command that went through and decides what follows it.
    fn settle(&mut self, received: Vec<u8>, Ghost(before): Ghost<OperationView<S>>) -> (step:
        Step<Outcome, S, G>)
        requires
            old(self).kept(),
            old(self).txn is None,
            old(self)@ == (OperationView { txn: None, ..before }),
            before.valid(),
            before.awaiting(),
            !(before.stage is Parking),
            before.txn->0.released,
            before.txn->0.fault is None,
            before.txn->0.received == received@,
        ensures
            final(self).kept(),
            final(self)@ == before.settled(received@),
            final(self)@.ending == step.ending(),
            (match step {
                Step::Call(call) => call@ == Call::Select,
                Step::Finished(result) => result == before.judged::<G>(received@),
            }),
    {
        let ghost record = Record { frame: before.txn->0.frame, received: received@ };
        proof {
            lemma_settled(before, received@);
        }
        self.completed = Ghost(before.completed.push(record));
        match self.stage {
            Stage::Enable => Step::Call(self.launch(Stage::Change)),
            Stage::Change => Step::Call(self.launch(Stage::Poll)),
            Stage::Poll => match judge(received[1]) {
                Verdict::Faulty => {
                    self.ending = Some(Ending::Rejected);
                    Step::Finished(Err(Error::UnexpectedStatus))
                },
                Verdict::Busy => Step::Call(self.launch(Stage::Poll)),
                Verdict::Idle => {
                    let total = self.task.total();
                    let stride = self.task.stride(self.offset);
                    self.offset = self.offset + stride;
                    self.stage = Stage::Enable;
                    if self.offset < total {
                        Step::Call(self.launch(Stage::Enable))
                    } else {
                        self.ending = Some(Ending::Completed);
                        Step::Finished(Ok(Outcome::Done))
                    }
                },
            },
            _ => match self.task.answer(&received) {
                Some(outcome) => {
                    self.ending = Some(Ending::Completed);
                    Step::Finished(Ok(outcome))
                },
                None => {
                    self.ending = Some(Ending::Rejected);
                    Step::Finished(Err(Error::UnexpectedStatus))
                },
            },
        }
    }

    /// Takes the host's answer to the pending call and hands out the next call, or the
    /// result when the operation has ended.
    ///
    /// The calls handed out are those of the commands of the operation, each in the
    /// order select, SPI calls, deselect. A failure of the bus is reported only after
    /// the chip was deselected; a failure of the pin is reported at once.
    pub fn resume(&mut self, reply: Reply<S, G>) -> (step: Step<Outcome, S, G>)
        requires
            old(self).wf(),
            old(self)@.awaiting(),
            old(self)@.pending().answered_by(reply),
        ensures
            final(self).wf(),
            final(self)@ == old(self)@.resumed(reply),
            final(self)@.trace() == old(self)@.trace() + step.calls(),
            final(self)@.ending == step.ending(),
            (match step {
                Step::Call(call) => final(self)@.awaiting() && call@ == final(self)@.pending(),
                Step::Finished(result) => result == old(self)@.result(reply),
            }),
    {
        let ghost before = self@;
        proof {
            lemma_resumed(before, reply);
        }
        match self.stage {
            Stage::Parking => match reply {
                Reply::PinFault(g) => {
                    self.ending = Some(Ending::PinFailed);
                    Step::Finished(Err(Error::Gpio(g)))
                },
                _ => Step::Call(self.launch(Stage::Query)),
            },
            _ => {
                let taken = self.txn.take();
                let mut txn = taken.unwrap();
                let turn = txn.resume(reply);
                match turn {
                    Step::Call(call) => {
                        self.txn = Some(txn);
                        Step::Call(call)
                    },
                    Step::Finished(Err(e)) => {
                        self.ending = Some(
                            match &e {
                                Error::Gpio(_) => Ending::PinFailed,
                                _ => Ending::BusFailed,
                            },
                        );
                        self.txn = Some(txn);
                        Step::Finished(Err(e))
                    },
                    Step::Finished(Ok(received)) => self.settle(received, Ghost(before)),
                }
            },
        }
    }
}

/// The program or erase command of every cycle stays inside one page and inside the
/// address space.
pub proof fn lemma_change_fits_page(job: Job, offset: nat)
    requires
        job.changes_state(),
        offset < job.total(),
    ensures
        job.change(offset).changes_state(),
        job.change(offset).fits_page(),
        job.change(offset).in_range(),
        1 <= job.stride(offset),
        offset + job.stride(offset) <= job.total(),
{
}

/// Beginning the command of `stage` adds the selecting of the chip to the calls made.
pub proof fn lemma_launched<S>(before: OperationView<S>, stage: Stage)
    requires
        before.txn is None,
        !(stage is Fresh) && !(stage is Parking),
        !(before.stage is Fresh) || !(before.job is Init),
    ensures
        before.launched(stage).trace() == before.trace() + seq![Call::Select],
        before.launched(stage).txn->0.legal(),
        before.launched(stage).txn->0.awaiting(),
        before.launched(stage).pending() == Call::Select,
{
    let after = before.launched(stage);
    assert(after.txn->0.issued() =~= seq![Call::Select]);
    assert(after.trace() =~= before.trace() + seq![Call::Select]);
}

/// Starting an operation keeps what holds of every operation, and the calls made are
/// the one that was handed out, if any.
pub proof fn lemma_started<S>(before: OperationView<S>)
    requires
        before.valid(),
        before.stage is Fresh,
    ensures
        before.started().valid(),
        before.started().trace() == (if before.started().awaiting() {
            seq![before.started().pending()]
        } else {
            Seq::empty()
        }),
{
    let after = before.started();
    if before.job is Init {
        assert(after.trace() =~= seq![Call::Deselect]);
    } else if !before.job.changes_state() {
        lemma_launched(before, Stage::Query);
        assert(before.trace() =~= Seq::<Call>::empty());
        assert(after.trace() =~= seq![Call::Select]);
    } else if before.job.total() == 0 {
        assert(after.trace() =~= Seq::<Call>::empty());
    } else {
        lemma_launched(before, Stage::Enable);
        assert(before.trace() =~= Seq::<Call>::empty());
        assert(after.trace() =~= seq![Call::Select]);
    }
}

/// Booking a command that went through keeps what holds of every operation, and adds to
/// the calls made the selecting of the chip for the next command, if one follows.
pub proof fn lemma_settled<S>(before: OperationView<S>, received: Seq<u8>)
    requires
        before.valid(),
        before.awaiting(),
        !(before.stage is Parking),
        before.txn->0.released,
        before.txn->0.fault is None,
        before.txn->0.received == received,
    ensures
        before.settled(received).valid(),
        received.len() == (if before.txn->0.frame.answer_len() > 0 {
            before.txn->0.frame.head().len()
        } else {
            0
        }),
        before.settled(received).trace() == before.trace() + (if before.settled(
            received,
        ).awaiting() {
            seq![Call::Select]
        } else {
            Seq::empty()
        }),
        before.settled(received).awaiting() ==> before.settled(received).pending()
            == Call::Select,
{
    let txn = before.txn->0;
    let record = Record { frame: txn.frame, received };
    let after = before.settled(received);
    let done = OperationView { completed: before.completed.push(record), txn: None, ..before };
    lemma_wire_push(before.completed, record);
    lemma_changed_push(before.completed, record);
    assert(txn.issued() =~= txn.frame.script());
    if before.job.changes_state() {
        lemma_change_fits_page(before.job, before.offset);
    }
    assert(after.completed == before.completed.push(record));
    assert(done.trace() =~= before.trace());
    if after.awaiting() {
        let base = OperationView { txn: None, ..after };
        lemma_launched(base, after.stage);
        assert(base.trace() =~= done.trace());
        assert(after == base.launched(after.stage));
    } else {
        assert(after.trace() =~= done.trace());
    }
    assert forall|i: int| 0 <= i < after.completed.len() implies (
    #[trigger] after.completed[i]).received.len() == (if after.completed[i].frame.answer_len()
        > 0 {
        after.completed[i].frame.head().len()
    } else {
        0
    }) by {
        if i < before.completed.len() {
            assert(after.completed[i] == before.completed[i]);
        }
    }
    assert(after.planned()) by {
        if before.stage is Change {
            assert(cycles(before.job, before.offset) =~= seq![before.job.change(before.offset)]
                + cycles(before.job, before.offset + before.job.stride(before.offset)));
            assert(changed(after.completed) + cycles(
                before.job,
                before.offset + before.job.stride(before.offset),
            ) =~= changed(before.completed) + cycles(before.job, before.offset));
        }
    }
}

/// Answering the pending call keeps what holds of every operation, and adds to the
/// calls made the one that is pending afterwards, if any.
pub proof fn lemma_resumed<S, G>(before: OperationView<S>, reply: Reply<S, G>)
    requires
        before.valid(),
        before.awaiting(),
        before.pending().answered_by(reply),
    ensures
        before.resumed(reply).valid(),
        before.resumed(reply).trace() == before.trace() + (if before.resumed(reply).awaiting() {
            seq![before.resumed(reply).pending()]
        } else {
            Seq::empty()
        }),
{
    let after = before.resumed(reply);
    if before.stage is Parking {
        if reply is PinFault {
            assert(after.trace() =~= before.trace());
        } else {
            lemma_launched(before, Stage::Query);
        }
    } else {
        let txn = before.txn->0;
        lemma_transaction_resumed(txn, reply);
        if !txn.closes(reply) {
            assert(after.trace() =~= before.trace() + seq![after.pending()]);
        } else {
            match txn.outcome(reply) {
                Ok(received) => {
                    lemma_settled(before, received);
                },
                Err(_) => {
                    assert(after.trace() =~= before.trace());
                },
            }
        }
    }
}

} // verus!
