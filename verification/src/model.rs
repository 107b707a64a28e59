//! A model of the memory of the chip, to say what the commands of an operation leave in
//! it.
//!
//! The model is that of a chip which fills the whole address space and accepts every
//! program and erase command that it is sent. That the driver enables writing before
//! each of them, and sends none while the chip is busy, is stated among the laws.

use vstd::prelude::*;
use crate::command::Frame;
use crate::layout::{sector_start, wrapped};
use crate::task::Job;
use crate::operation::cycles;

verus! {

/// Whether `memory` has one cell for each address.
pub open spec fn full_size(memory: Seq<u8>) -> bool {
    memory.len() == 0x100_0000
}

/// The address that byte `k` of a program command at `addr` goes to: the chip counts
/// up inside the page of `addr` and starts again at the beginning of that page when it
/// has reached its end.
pub open spec fn cell(addr: u32, k: int) -> int {
    addr - addr % 256 + (addr % 256 + k) % 256
}

/// The memory after a program command at `addr` with `data`: byte after byte, each cell
/// keeps the bits that are set both in it and in the byte. Programming clears bits and
/// never sets one.
pub open spec fn program(memory: Seq<u8>, addr: u32, data: Seq<u8>) -> Seq<u8>
    decreases data.len(),
{
    if data.len() == 0 {
        memory
    } else {
        let before = program(memory, addr, data.drop_last());
        let at = cell(addr, data.len() - 1);
        before.update(at, before[at] & data.last())
    }
}

/// The memory after the `len` cells from `start` on were erased: all their bits are set.
pub open spec fn erase(memory: Seq<u8>, start: int, len: int) -> Seq<u8> {
    Seq::new(
        memory.len(),
        |a: int|
            if start <= a < start + len {
                0xFFu8
            } else {
                memory[a]
            },
    )
}

/// The memory after the chip carried out `frame`. An erase command erases the whole
/// sector or block that its address lies in.
pub open spec fn carried_out(memory: Seq<u8>, frame: Frame) -> Seq<u8> {
    match frame {
        Frame::PageProgram { addr, data } => program(memory, addr, data),
        Frame::SectorErase { addr } => erase(memory, addr - addr % 4096, 4096),
        Frame::BlockErase { addr } => erase(memory, addr - addr % 65536, 65536),
        Frame::ChipErase => erase(memory, 0, memory.len() as int),
        _ => memory,
    }
}

/// The memory after the chip carried out `frames`, one after the other.
pub open spec fn after(memory: Seq<u8>, frames: Seq<Frame>) -> Seq<u8>
    decreases frames.len(),
{
    if frames.len() == 0 {
        memory
    } else {
        after(carried_out(memory, frames.first()), frames.drop_first())
    }
}

/// What the chip sends in answer to a read command: the cells from the address of the
/// command on, counted round the address space.
pub open spec fn read_out(memory: Seq<u8>, addr: u32, len: nat) -> Seq<u8> {
    Seq::new(len, |k: int| memory[wrapped(addr + k)])
}

/// A program command that stays inside its page changes the cells from its address
/// on, one for each byte, and no other cell.
pub proof fn lemma_program_in_page(memory: Seq<u8>, addr: u32, data: Seq<u8>)
    requires
        full_size(memory),
        addr < 0x100_0000,
        addr % 256 + data.len() <= 256,
    ensures
        full_size(program(memory, addr, data)),
        forall|a: int|
            0 <= a < 0x100_0000 ==> #[trigger] program(memory, addr, data)[a] == (if addr <= a
                < addr + data.len() {
                memory[a] & data[a - addr]
            } else {
                memory[a]
            }),
    decreases data.len(),
{
    if data.len() > 0 {
        let shorter = data.drop_last();
        lemma_program_in_page(memory, addr, shorter);
        let before = program(memory, addr, shorter);
        let at = cell(addr, data.len() - 1);
        assert(at == addr + data.len() - 1);
        assert forall|a: int| 0 <= a < 0x100_0000 implies #[trigger] program(
            memory,
            addr,
            data,
        )[a] == (if addr <= a < addr + data.len() {
            memory[a] & data[a - addr]
        } else {
            memory[a]
        }) by {
            if a != at && addr <= a < addr + data.len() {
                assert(shorter[a - addr] == data[a - addr]);
            }
        }
    }
}

/// How far an address lies behind the place that a write has reached, before and after
/// one more program command: the command covers the addresses that lie less than its
/// length behind the place, and every other address lies as much nearer afterwards.
proof fn lemma_distance(a: int, reached: int, stride: int, remaining: int)
    requires
        0 <= a < 0x100_0000,
        0 <= reached,
        1 <= stride <= remaining <= 0x100_0000,
        wrapped(reached) % 256 + stride <= 256,
    ensures
        wrapped(reached) <= a < wrapped(reached) + stride <==> wrapped(a - reached) < stride,
        wrapped(a - reached) < stride ==> a == wrapped(reached) + wrapped(a - reached)
            && wrapped(a - (reached + stride)) >= remaining - stride,
        wrapped(a - reached) >= stride ==> wrapped(a - (reached + stride)) == wrapped(
            a - reached,
        ) - stride,
{
    let start = wrapped(reached);
    let d = wrapped(a - reached);
    vstd::arithmetic::div_mod::lemma_sub_mod_noop_right(a, reached, 0x100_0000);
    assert(d == wrapped(a - start));
    assert(start + stride <= 0x100_0000);
    assert(d == if a >= start {
        a - start
    } else {
        a - start + 0x100_0000
    });
    vstd::arithmetic::div_mod::lemma_sub_mod_noop_right(a - stride, reached, 0x100_0000);
    assert(wrapped(a - (reached + stride)) == wrapped(a - stride - start));
}

/// What a write leaves in the memory.
///
/// After the program commands of a write of `data` at `addr`, from the cycle on that
/// starts when `from` bytes are done, each cell that one of the remaining bytes belongs
/// at holds the bits that are set both in the cell before and in that byte, and every
/// other cell holds what it held before.
pub proof fn lemma_write_in_memory(memory: Seq<u8>, addr: u32, data: Seq<u8>, from: nat)
    requires
        full_size(memory),
        from <= data.len(),
        data.len() - from <= 0x100_0000,
    ensures
        full_size(after(memory, cycles(Job::WriteBytes { addr, data }, from))),
        forall|a: int|
            0 <= a < 0x100_0000 ==> #[trigger] after(
                memory,
                cycles(Job::WriteBytes { addr, data }, from),
            )[a] == (if wrapped(a - (addr + from)) < data.len() - from {
                memory[a] & data[from + wrapped(a - (addr + from))]
            } else {
                memory[a]
            }),
    decreases data.len() - from,
{
    let job = Job::WriteBytes { addr, data };
    if from < data.len() {
        let stride = job.stride(from);
        let start = job.position(from) as u32;
        let piece = data.subrange(from as int, (from + stride) as int);
        crate::operation::lemma_change_fits_page(job, from);
        let all = cycles(job, from);
        let rest = cycles(job, from + stride);
        assert(all.first() == job.change(from));
        assert(all.drop_first() =~= rest);
        let first = program(memory, start, piece);
        lemma_program_in_page(memory, start, piece);
        lemma_write_in_memory(first, addr, data, from + stride);
        assert(after(memory, all) == after(first, rest));
        assert(start == wrapped(addr + from));
        assert forall|a: int| 0 <= a < 0x100_0000 implies #[trigger] after(first, rest)[a] == (
        if wrapped(a - (addr + from)) < data.len() - from {
            memory[a] & data[from + wrapped(a - (addr + from))]
        } else {
            memory[a]
        }) by {
            lemma_distance(a, addr + from, stride as int, data.len() - from);
            let d = wrapped(a - (addr + from));
            if d < stride {
                assert(piece[a - start] == data[from + d]);
                assert(first[a] == memory[a] & piece[a - start]);
            } else {
                assert(first[a] == memory[a]);
            }
        }
    }
}

/// A byte programmed into an erased cell is the byte that the cell holds afterwards.
proof fn lemma_program_erased(byte: u8)
    ensures
        0xFFu8 & byte == byte,
{
    assert(0xFFu8 & byte == byte) by (bit_vector);
}

/// An address that lies `k` bytes behind `addr` and inside the sector of `addr` is
/// reached without wrapping.
proof fn lemma_inside_sector(addr: int, k: int)
    requires
        0 <= addr,
        0 <= k,
        addr % 4096 + k < 4096,
    ensures
        wrapped(wrapped(addr) + k) == wrapped(addr) + k,
        wrapped(wrapped(addr) + k - addr) == k,
        sector_start(addr) <= wrapped(addr) + k < sector_start(addr) + 4096,
        0 <= wrapped(addr) + k < 0x100_0000,
{
    let from = wrapped(addr);
    assert(from % 4096 == addr % 4096);
    assert(from + k < 0x100_0000);
    vstd::arithmetic::div_mod::lemma_sub_mod_noop_right(from + k, addr, 0x100_0000);
    assert(wrapped(from + k - addr) == wrapped(from + k - from));
}

/// After the sector of `addr` was erased and `data` was written at `addr`, where the
/// data ends inside that sector, a read at `addr` gives `data` back.
pub proof fn lemma_round_trip_in_memory(memory: Seq<u8>, addr: u32, data: Seq<u8>)
    requires
        full_size(memory),
        addr % 4096 + data.len() <= 4096,
    ensures
        read_out(
            after(
                after(
                    memory,
                    seq![(Frame::SectorErase { addr: sector_start(addr as int) as u32 })],
                ),
                cycles(Job::WriteBytes { addr, data }, 0),
            ),
            wrapped(addr as int) as u32,
            data.len(),
        ) == data,
{
    let base = sector_start(addr as int);
    let sector = Frame::SectorErase { addr: base as u32 };
    let erased = carried_out(memory, sector);
    assert(seq![sector].drop_first() =~= Seq::<Frame>::empty());
    assert(after(memory, seq![sector]) == after(erased, Seq::<Frame>::empty()));
    assert(after(memory, seq![sector]) == erased);
    assert(full_size(erased));
    lemma_write_in_memory(erased, addr, data, 0);
    let written = after(erased, cycles(Job::WriteBytes { addr, data }, 0));
    let from = wrapped(addr as int) as u32;
    assert forall|k: int| 0 <= k < data.len() implies #[trigger] read_out(
        written,
        from,
        data.len(),
    )[k] == data[k] by {
        lemma_inside_sector(addr as int, k);
        let a = from + k;
        assert(erased[a] == 0xFFu8);
        assert(written[a] == erased[a] & data[k]);
        lemma_program_erased(data[k]);
    }
    assert(read_out(written, from, data.len()) =~= data);
}

} // verus!
