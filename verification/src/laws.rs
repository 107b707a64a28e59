//! What holds of the calls and of the commands of every operation, whatever the host
//! answers.
//!
//! Every function that builds or advances an operation hands it back valid, so what is
//! proved here of valid operations holds of every operation that a host can reach.

use vstd::prelude::*;
use crate::bus::{Call, Ending, Reply};
use crate::command::{address_seq, Frame, READ_DATA};
use crate::layout::{big_endian, sector_start, wrapped};
use crate::model::{after, full_size, lemma_round_trip_in_memory, read_out};
use crate::operation::{changed, cycles, wire, OperationView, Record};
use crate::task::Job;
use crate::transaction::TransactionView;

verus! {

/// Whether the chip is selected once `calls` were made: the last of them that set the
/// pin selected it. Before any call the chip counts as deselected.
pub open spec fn selected_after(calls: Seq<Call>) -> bool
    decreases calls.len(),
{
    if calls.len() == 0 {
        false
    } else {
        match calls.last() {
            Call::Select => true,
            Call::Deselect => false,
            _ => selected_after(calls.drop_last()),
        }
    }
}

/// Whether `call` may be made when the chip is selected or not, as `selected` says, and
/// `made` calls came before it: the chip is selected only while it is deselected, the
/// bus is used only while the chip is selected, and the chip is deselected to end a
/// command or as the very first call.
pub open spec fn allowed(call: Call, selected: bool, made: int) -> bool {
    match call {
        Call::Select => !selected,
        Call::Deselect => selected || made == 0,
        _ => selected,
    }
}

/// Whether every call of `calls` is allowed where it stands.
pub open spec fn disciplined(calls: Seq<Call>) -> bool {
    forall|k: int|
        0 <= k < calls.len() ==> allowed(#[trigger] calls[k], selected_after(calls.take(k)), k)
}

/// One more call that is allowed where it stands keeps the calls disciplined.
proof fn lemma_disciplined_push(calls: Seq<Call>, call: Call)
    requires
        disciplined(calls),
        allowed(call, selected_after(calls), calls.len() as int),
    ensures
        disciplined(calls.push(call)),
        selected_after(calls.push(call)) == (match call {
            Call::Select => true,
            Call::Deselect => false,
            _ => selected_after(calls),
        }),
{
    let longer = calls.push(call);
    assert(longer.drop_last() =~= calls);
    assert forall|k: int| 0 <= k < longer.len() implies allowed(
        #[trigger] longer[k],
        selected_after(longer.take(k)),
        k,
    ) by {
        if k < calls.len() {
            assert(longer.take(k) =~= calls.take(k));
        } else {
            assert(longer.take(k) =~= calls);
        }
    }
}

/// The whole script of a command keeps the calls disciplined and leaves the chip
/// deselected, if it was deselected before.
proof fn lemma_disciplined_script(calls: Seq<Call>, frame: Frame)
    requires
        disciplined(calls),
        !selected_after(calls),
    ensures
        disciplined(calls + frame.script()),
        !selected_after(calls + frame.script()),
{
    let first = calls.push(Call::Select);
    lemma_disciplined_push(calls, Call::Select);
    let second = first.push(frame.first_call());
    lemma_disciplined_push(first, frame.first_call());
    match frame.second_call() {
        Some(call) => {
            let third = second.push(call);
            lemma_disciplined_push(second, call);
            lemma_disciplined_push(third, Call::Deselect);
            assert(calls + frame.script() =~= third.push(Call::Deselect));
        },
        None => {
            lemma_disciplined_push(second, Call::Deselect);
            assert(calls + frame.script() =~= second.push(Call::Deselect));
        },
    }
}

/// The scripts of commands, one after the other, keep the calls disciplined and leave
/// the chip deselected.
proof fn lemma_disciplined_wire(calls: Seq<Call>, records: Seq<Record>)
    requires
        disciplined(calls),
        !selected_after(calls),
    ensures
        disciplined(calls + wire(records)),
        !selected_after(calls + wire(records)),
    decreases records.len(),
{
    if records.len() == 0 {
        assert(calls + wire(records) =~= calls);
    } else {
        lemma_disciplined_wire(calls, records.drop_last());
        lemma_disciplined_script(calls + wire(records.drop_last()), records.last().frame);
        assert(calls + wire(records) =~= calls + wire(records.drop_last())
            + records.last().frame.script());
    }
}

/// The calls of a command that is on the bus, or that failed there, keep the calls
/// disciplined; the chip is selected until the deselect call is handed out.
proof fn lemma_disciplined_open<S>(calls: Seq<Call>, txn: TransactionView<S>)
    requires
        disciplined(calls),
        !selected_after(calls),
        txn.begun,
        txn.sent <= txn.frame.spi_calls().len(),
        txn.released ==> txn.sent >= 1,
    ensures
        disciplined(calls + txn.issued()),
        selected_after(calls + txn.issued()) == !txn.released,
{
    let spi = txn.frame.spi_calls();
    let first = calls.push(Call::Select);
    lemma_disciplined_push(calls, Call::Select);
    if txn.sent == 0 {
        assert(calls + txn.issued() =~= first);
    } else {
        let second = first.push(spi[0]);
        lemma_disciplined_push(first, spi[0]);
        if txn.sent == 1 {
            if txn.released {
                lemma_disciplined_push(second, Call::Deselect);
                assert(calls + txn.issued() =~= second.push(Call::Deselect));
            } else {
                assert(calls + txn.issued() =~= second);
            }
        } else {
            let third = second.push(spi[1]);
            lemma_disciplined_push(second, spi[1]);
            if txn.released {
                lemma_disciplined_push(third, Call::Deselect);
                assert(calls + txn.issued() =~= third.push(Call::Deselect));
            } else {
                assert(calls + txn.issued() =~= third);
            }
        }
    }
}

/// The calls before the first command are disciplined and leave the chip deselected.
proof fn lemma_disciplined_preamble<S>(op: OperationView<S>)
    ensures
        disciplined(op.preamble()),
        !selected_after(op.preamble()),
{
    let lead = op.preamble();
    if lead.len() > 0 {
        lemma_disciplined_push(Seq::<Call>::empty(), Call::Deselect);
        assert(lead =~= Seq::<Call>::empty().push(Call::Deselect));
    }
}

/// One command on the bus is bracketed by the chip-select pin.
///
/// The calls of a transaction begin with the selecting of the chip. A transaction that
/// went through handed out the whole script of its command. One that ended because the
/// bus failed made at least one SPI call and deselected the chip after the call that
/// failed, without the calls that were left.
pub proof fn law_transaction_is_bracketed<S>(txn: TransactionView<S>)
    requires
        txn.legal(),
        txn.begun,
    ensures
        txn.issued().first() == Call::Select,
        txn.ending == Some(Ending::Completed) ==> txn.issued() == txn.frame.script(),
        txn.ending == Some(Ending::BusFailed) ==> txn.sent >= 1 && txn.issued() == seq![
            Call::Select,
        ] + txn.frame.spi_calls().take(txn.sent as int) + seq![Call::Deselect],
{
    if txn.ending == Some(Ending::Completed) {
        assert(txn.issued() =~= txn.frame.script());
    }
}

/// The chip-select pin brackets every command.
///
/// In the calls of an operation the chip is selected only while it is deselected, the
/// SPI bus is used only while the chip is selected, and the chip is deselected only to
/// end a command, or as the very first call. While the host owes an answer to an SPI
/// call the chip is selected. Once the operation has ended, the chip is deselected,
/// unless the pin itself failed.
pub proof fn law_chip_select_brackets_commands<S>(op: OperationView<S>)
    requires
        op.valid(),
    ensures
        disciplined(op.trace()),
        op.awaiting() && op.pending().on_spi() ==> selected_after(op.trace()),
        op.ending is Some && op.ending != Some(Ending::PinFailed) ==> !selected_after(
            op.trace(),
        ),
{
    lemma_disciplined_preamble(op);
    lemma_disciplined_wire(op.preamble(), op.completed);
    let done = op.preamble() + wire(op.completed);
    match op.txn {
        None => {
            assert(op.trace() =~= done);
            assert(op.awaiting() ==> op.stage is Parking) by {
                assert(op.legal());
            }
        },
        Some(txn) => {
            assert(txn.legal() && txn.begun && txn.ending == op.ending) by {
                assert(op.legal());
            }
            lemma_disciplined_open(done, txn);
            assert(op.trace() =~= done + txn.issued());
        },
    }
}

/// The chip is in a transaction exactly while it is selected: the state that an
/// operation gives for the chip follows the calls on the pin.
pub proof fn law_chip_state_follows_the_pin<S>(op: OperationView<S>)
    requires
        op.valid(),
    ensures
        op.chip_state() is InTransaction <==> selected_after(op.trace()),
{
    lemma_disciplined_preamble(op);
    lemma_disciplined_wire(op.preamble(), op.completed);
    let done = op.preamble() + wire(op.completed);
    match op.txn {
        None => {
            assert(op.trace() =~= done);
        },
        Some(txn) => {
            assert(txn.legal() && txn.begun) by {
                assert(op.legal());
            }
            lemma_disciplined_open(done, txn);
            assert(op.trace() =~= done + txn.issued());
        },
    }
}

/// While the chip may be at work, it is only asked for its status.
///
/// Where the chip awaits the completion of a program or erase command when the host
/// answers a call, then afterwards the chip still awaits it, or a status read is on the
/// bus, or the last command that went through is a status read that found the chip
/// idle.
pub proof fn law_busy_chip_is_only_polled<S, G>(before: OperationView<S>, reply: Reply<S, G>)
    requires
        before.valid(),
        before.awaiting(),
        before.pending().answered_by(reply),
        before.chip_state() is AwaitingCompletion,
    ensures
        before.resumed(reply).chip_state() is AwaitingCompletion || (before.resumed(
            reply,
        ).chip_state() is InTransaction && before.resumed(reply).txn->0.frame is ReadStatus) || (
        before.resumed(reply).completed.len() > 0 && before.resumed(
            reply,
        ).completed.last().found_idle()),
{
    let txn = before.txn->0;
    assert(txn.legal() && txn.released) by {
        assert(before.legal());
    }
    crate::transaction::lemma_transaction_resumed(txn, reply);
    if let Ok(received) = txn.outcome(reply) {
        if !(reply is PinFault) {
            crate::operation::lemma_settled(before, received);
        }
    }
}

/// Writing is enabled directly before every program or erase command.
///
/// Where the command at `i` programs or erases, it is not the first command, and the
/// command before it enabled writing and went through.
pub proof fn law_write_enable_precedes_change<S>(op: OperationView<S>, i: int)
    requires
        op.valid(),
        0 <= i < op.frames().len(),
        op.frames()[i].changes_state(),
    ensures
        1 <= i <= op.completed.len(),
        op.frames()[i - 1] is WriteEnable,
{
    if i < op.completed.len() {
        assert(op.completed[i].frame.changes_state());
        assert(op.completed[i - 1].frame is WriteEnable);
    }
}

/// Writing is enabled only when the chip is idle: the command that enables writing is
/// the first command of the operation, or the command before it was a status read that
/// went through and found the chip idle and healthy.
pub proof fn law_write_enable_follows_idle_status<S>(op: OperationView<S>, i: int)
    requires
        op.valid(),
        1 <= i < op.frames().len(),
        op.frames()[i] is WriteEnable,
    ensures
        i <= op.completed.len(),
        op.completed[i - 1].found_idle(),
{
    if i < op.completed.len() {
        assert(op.completed[i].frame is WriteEnable);
        assert(op.completed[i - 1].found_idle());
    }
}

/// The status is read only to wait for a program or erase command: in an operation
/// that programs or erases, the command before a status read is a program or erase
/// command, or a status read that went through and found the chip busy.
pub proof fn law_status_read_follows_change<S>(op: OperationView<S>, i: int)
    requires
        op.valid(),
        op.job.changes_state(),
        0 <= i < op.frames().len(),
        op.frames()[i] is ReadStatus,
    ensures
        1 <= i <= op.completed.len(),
        op.frames()[i - 1].changes_state() || op.completed[i - 1].found_busy(),
{
    if i < op.completed.len() {
        assert(op.completed[i].frame is ReadStatus);
        if i >= 1 {
            assert(op.completed[i - 1].frame.changes_state() || op.completed[i - 1].found_busy());
        }
    }
}

/// An operation that programs or erases sends nothing but its cycles: every command
/// enables writing, programs or erases, or reads the status, and the first command
/// enables writing.
pub proof fn law_cycles_only<S>(op: OperationView<S>, i: int)
    requires
        op.valid(),
        op.job.changes_state(),
        0 <= i < op.frames().len(),
    ensures
        op.frames()[i].in_cycle(),
        op.frames()[0] is WriteEnable,
{
    if i < op.completed.len() {
        assert(op.completed[i].frame.in_cycle());
    } else {
        crate::operation::lemma_change_fits_page(op.job, op.offset);
    }
}

/// An operation that programs or erases succeeds only after a status read found the
/// chip idle: where there was work to do, the last command of an operation that
/// completed is a status read that found the chip idle and healthy.
pub proof fn law_completion_follows_idle_status<S>(op: OperationView<S>)
    requires
        op.valid(),
        op.ending == Some(Ending::Completed),
        op.job.changes_state(),
        op.job.total() > 0,
    ensures
        op.frames().len() >= 3,
        op.frames().last() is ReadStatus,
        op.completed.last().found_idle(),
{
    assert(op.completed.len() >= 1);
    let last = op.completed.len() - 1;
    assert(cycles(op.job, 0).len() >= 1);
    assert(changed(op.completed) =~= cycles(op.job, 0));
    lemma_changed_in_range(op.completed);
    let k = choose|k: int| 0 <= k < op.completed.len() && op.completed[k].frame.changes_state();
    assert(op.completed[k].frame.changes_state());
    assert(k >= 1);
    assert(k < last);
}

/// Where there are program or erase commands among the records, one of the records
/// holds one.
proof fn lemma_changed_in_range(records: Seq<Record>)
    ensures
        changed(records).len() > 0 ==> exists|k: int|
            0 <= k < records.len() && (#[trigger] records[k]).frame.changes_state(),
    decreases records.len(),
{
    if records.len() > 0 {
        if records.last().frame.changes_state() {
            assert(records[records.len() - 1].frame.changes_state());
        } else {
            lemma_changed_in_range(records.drop_last());
            if changed(records).len() > 0 {
                let k = choose|k: int|
                    0 <= k < records.drop_last().len() && (
                    #[trigger] records.drop_last()[k]).frame.changes_state();
                assert(records[k] == records.drop_last()[k]);
            }
        }
    }
}

/// Every address is sent most significant byte first.
///
/// Where the command at `i` carries an address, the address fits in 24 bits, and the
/// three bytes that follow the opcode are that address in big-endian order.
pub proof fn law_address_is_sent_big_endian<S>(op: OperationView<S>, i: int)
    requires
        op.valid(),
        0 <= i < op.frames().len(),
        op.frames()[i].address() is Some,
    ensures
        op.frames()[i].head().len() == 4,
        op.frames()[i].head()[0] == op.frames()[i].opcode(),
        big_endian(op.frames()[i].head()[1], op.frames()[i].head()[2], op.frames()[i].head()[3])
            == op.frames()[i].address()->0,
{
    let frame = op.frames()[i];
    let addr = frame.address()->0;
    if i < op.completed.len() {
        assert(op.completed[i].frame.in_range());
    } else {
        if op.job.changes_state() {
            crate::operation::lemma_change_fits_page(op.job, op.offset);
        }
    }
    assert(frame.in_range());
    assert(frame.head() =~= seq![frame.opcode()] + address_seq(addr));
    assert(((addr / 65536) % 256) * 65536 + ((addr / 256) % 256) * 256 + addr % 256 == addr);
}

/// No program command crosses the end of a page: the command at `i`, where it
/// programs, carries at least one byte, and all its bytes go to the page of its
/// address.
pub proof fn law_program_stays_in_page<S>(op: OperationView<S>, i: int)
    requires
        op.valid(),
        0 <= i < op.frames().len(),
        op.frames()[i] is PageProgram,
    ensures
        1 <= op.frames()[i]->PageProgram_data.len(),
        op.frames()[i]->PageProgram_addr % 256 + op.frames()[i]->PageProgram_data.len() <= 256,
{
    if i < op.completed.len() {
        assert(op.completed[i].frame.fits_page());
    } else {
        crate::operation::lemma_change_fits_page(op.job, op.offset);
    }
}

/// An operation that neither programs nor erases is exactly one command: once the first
/// command has begun, the commands of the operation are that one command, and the calls
/// of an operation that went through are the script of that command, after the
/// deselecting of the chip where the operation takes charge of it.
pub proof fn law_query_is_one_command<S>(op: OperationView<S>)
    requires
        op.valid(),
        !op.job.changes_state(),
        op.stage is Query,
    ensures
        op.frames() == seq![op.job.query()],
        op.txn is None ==> op.trace() == op.preamble() + op.job.query().script(),
{
    if op.txn is Some {
        assert(op.frames() =~= seq![op.job.query()]);
    } else {
        assert(op.completed[0].frame == op.job.query());
        assert(op.frames() =~= seq![op.job.query()]);
        assert(op.completed =~= Seq::<Record>::empty().push(op.completed[0]));
        crate::operation::lemma_wire_push(Seq::<Record>::empty(), op.completed[0]);
        assert(wire(op.completed) =~= op.job.query().script());
        assert(op.trace() =~= op.preamble() + op.job.query().script());
    }
}

/// A read is exactly one command: once it has started, the commands of a read of `len`
/// bytes at `addr` are a single Read Data command with that address and that length,
/// and the calls of a read that completed are: select, send the opcode and the
/// address, receive `len` bytes, deselect.
pub proof fn law_read_is_one_command<S>(op: OperationView<S>)
    requires
        op.valid(),
        op.job is Read,
        !(op.stage is Fresh),
    ensures
        op.frames() == seq![
            (Frame::ReadData {
                addr: wrapped(op.job->Read_addr as int) as u32,
                len: op.job->Read_len,
            }),
        ],
        op.ending == Some(Ending::Completed) ==> op.trace() == seq![
            Call::Select,
            Call::Write(seq![READ_DATA] + address_seq(wrapped(op.job->Read_addr as int) as u32)),
            Call::Read(op.job->Read_len),
            Call::Deselect,
        ],
{
    let frame = Frame::ReadData {
        addr: wrapped(op.job->Read_addr as int) as u32,
        len: op.job->Read_len,
    };
    assert(op.job.query() == frame);
    law_query_is_one_command(op);
    if op.ending == Some(Ending::Completed) {
        assert(frame.head() =~= seq![READ_DATA] + address_seq(
            wrapped(op.job->Read_addr as int) as u32,
        ));
        assert(op.trace() =~= frame.script());
    }
}

/// An operation that completed sent the program or erase commands of all its cycles,
/// each once and in order, and no other.
pub proof fn law_completed_work<S>(op: OperationView<S>)
    requires
        op.valid(),
        op.ending == Some(Ending::Completed),
    ensures
        changed(op.completed) == cycles(op.job, 0),
{
    if op.job.changes_state() {
        assert(cycles(op.job, op.offset) =~= Seq::<Frame>::empty());
    } else {
        assert(cycles(op.job, op.offset) =~= Seq::<Frame>::empty());
    }
    assert(changed(op.completed) + Seq::<Frame>::empty() =~= changed(op.completed));
}

/// What the program commands among `frames` write, byte by byte and in order: each
/// byte with the address that the chip puts it at. Inside one command the chip counts
/// the address up by one for each byte.
pub open spec fn programmed(frames: Seq<Frame>) -> Seq<(int, u8)>
    decreases frames.len(),
{
    if frames.len() == 0 {
        Seq::empty()
    } else {
        (match frames.first() {
            Frame::PageProgram { addr, data } => Seq::new(
                data.len(),
                |k: int| (addr + k, data[k]),
            ),
            _ => Seq::empty(),
        }) + programmed(frames.drop_first())
    }
}

/// The bytes of `data` from index `from` on, each with the address that a write of
/// `data` at `addr` owes it: the byte at index `k` belongs at `addr + k`, counted round
/// the address space.
pub open spec fn owed(addr: u32, data: Seq<u8>, from: nat) -> Seq<(int, u8)> {
    Seq::new((data.len() - from) as nat, |k: int| (wrapped(addr + from + k), data[from + k]))
}

/// The program commands of the cycles of a write carry the bytes that are left, each to
/// the address that it belongs at.
proof fn lemma_cycles_program_data(addr: u32, data: Seq<u8>, from: nat)
    requires
        from <= data.len(),
    ensures
        programmed(cycles(Job::WriteBytes { addr, data }, from)) == owed(addr, data, from),
    decreases data.len() - from,
{
    let job = Job::WriteBytes { addr, data };
    if from >= data.len() {
        assert(programmed(cycles(job, from)) =~= owed(addr, data, from));
    } else {
        let stride = job.stride(from);
        let start = job.position(from);
        crate::operation::lemma_change_fits_page(job, from);
        lemma_cycles_program_data(addr, data, from + stride);
        let rest = cycles(job, from + stride);
        let all = cycles(job, from);
        assert(all.first() == job.change(from));
        assert(all.drop_first() =~= rest);
        let piece = data.subrange(from as int, (from + stride) as int);
        let bytes = Seq::new(piece.len(), |k: int| (start as u32 + k, piece[k]));
        assert(programmed(all) == bytes + programmed(rest));
        let joined = bytes + owed(addr, data, from + stride);
        let whole = owed(addr, data, from);
        assert forall|k: int| 0 <= k < whole.len() implies #[trigger] joined[k] == whole[k] by {
            if k < stride {
                crate::layout::lemma_wrapped_add(addr + from, k);
                assert(start % 256 + k < 256);
                assert(start + k < 0x100_0000);
            }
        }
        assert(bytes + owed(addr, data, from + stride) =~= owed(addr, data, from));
    }
}

/// The cycles of an erase of sectors erase the sectors that are left, in rising order.
proof fn lemma_cycles_erase_sectors(addr: u32, count: nat, from: nat)
    requires
        from <= count,
    ensures
        cycles(Job::EraseSectors { addr, count }, from) == Seq::new(
            (count - from) as nat,
            |k: int|
                Frame::SectorErase {
                    addr: Job::EraseSectors { addr, count }.position((from + k) as nat) as u32,
                },
        ),
    decreases count - from,
{
    let job = Job::EraseSectors { addr, count };
    let all = Seq::new(
        (count - from) as nat,
        |k: int| Frame::SectorErase { addr: job.position((from + k) as nat) as u32 },
    );
    if from < count {
        lemma_cycles_erase_sectors(addr, count, from + 1);
        assert(job.stride(from) == 1);
        assert(cycles(job, from) =~= all);
    } else {
        assert(cycles(job, from) =~= all);
    }
}

/// A write that completed programmed every byte of its data at the address that the
/// byte belongs at, in order, and programmed nothing else.
pub proof fn law_write_programs_every_byte<S>(op: OperationView<S>)
    requires
        op.valid(),
        op.ending == Some(Ending::Completed),
        op.job is WriteBytes,
    ensures
        programmed(changed(op.completed)) == owed(
            op.job->WriteBytes_addr,
            op.job->WriteBytes_data,
            0,
        ),
{
    law_completed_work(op);
    lemma_cycles_program_data(op.job->WriteBytes_addr, op.job->WriteBytes_data, 0);
}

/// An erase of sectors that completed erased each of its sectors once, in rising
/// order from the sector that holds its address, and erased nothing else.
pub proof fn law_erase_sectors_erases_each_sector<S>(op: OperationView<S>)
    requires
        op.valid(),
        op.ending == Some(Ending::Completed),
        op.job is EraseSectors,
    ensures
        changed(op.completed) == Seq::new(
            op.job->EraseSectors_count,
            |k: int|
                Frame::SectorErase {
                    addr: wrapped(
                        crate::layout::sector_start(op.job->EraseSectors_addr as int) + 4096 * k,
                    ) as u32,
                },
        ),
{
    law_completed_work(op);
    lemma_cycles_erase_sectors(op.job->EraseSectors_addr, op.job->EraseSectors_count, 0);
    assert(cycles(op.job, 0) =~= Seq::new(
        op.job->EraseSectors_count,
        |k: int|
            Frame::SectorErase {
                addr: wrapped(
                    crate::layout::sector_start(op.job->EraseSectors_addr as int) + 4096 * k,
                ) as u32,
            },
    ));
}

/// An erase of a block or of the chip that completed sent its one erase command, and
/// no other program or erase command.
pub proof fn law_single_erase<S>(op: OperationView<S>)
    requires
        op.valid(),
        op.ending == Some(Ending::Completed),
        op.job is EraseBlock || op.job is EraseAll,
    ensures
        changed(op.completed) == seq![
            (match op.job {
                Job::EraseBlock { addr } => Frame::BlockErase {
                    addr: crate::layout::block_start(addr as int) as u32,
                },
                _ => Frame::ChipErase,
            }),
        ],
{
    law_completed_work(op);
    assert(cycles(op.job, 1) =~= Seq::<Frame>::empty());
    assert(cycles(op.job, 0) =~= seq![op.job.change(0)]);
}

/// What was written after an erase is what a read gives back.
///
/// Take a chip that fills the address space and holds `memory`. An erase of the one
/// sector of `addr` completes, then a write of `data` at `addr` completes, where the
/// data ends inside that sector. Then the one command of a read of as many bytes at
/// `addr` is answered with `data`.
pub proof fn law_erase_write_read_round_trip<S>(
    memory: Seq<u8>,
    addr: u32,
    data: Seq<u8>,
    erase: OperationView<S>,
    write: OperationView<S>,
    read: OperationView<S>,
)
    requires
        full_size(memory),
        addr % 4096 + data.len() <= 4096,
        erase.valid(),
        erase.job == (Job::EraseSectors { addr, count: 1 }),
        erase.ending == Some(Ending::Completed),
        write.valid(),
        write.job == (Job::WriteBytes { addr, data }),
        write.ending == Some(Ending::Completed),
        read.valid(),
        read.job == (Job::Read { addr, len: data.len() }),
        !(read.stage is Fresh),
    ensures
        read.frames().len() == 1,
        read.frames()[0] matches Frame::ReadData { addr: from, len } && read_out(
            after(after(memory, changed(erase.completed)), changed(write.completed)),
            from,
            len,
        ) == data,
{
    let sector = Frame::SectorErase { addr: sector_start(addr as int) as u32 };
    assert(read.frames() == seq![
        Frame::ReadData { addr: wrapped(addr as int) as u32, len: data.len() },
    ]) by {
        law_read_is_one_command(read);
    }
    assert(changed(erase.completed) == seq![sector]) by {
        law_erase_sectors_erases_each_sector(erase);
        assert(changed(erase.completed) =~= seq![sector]);
    }
    assert(changed(write.completed) == cycles(Job::WriteBytes { addr, data }, 0)) by {
        law_completed_work(write);
    }
    lemma_round_trip_in_memory(memory, addr, data);
}

} // verus!
