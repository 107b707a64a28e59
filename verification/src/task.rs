//! The operations of the driver and the commands that each of them is made of.
//!
//! An operation that programs or erases works in cycles. Each cycle is: enable writing,
//! send one program or erase command, read the status register until the chip is idle
//! again. A write is cut into one cycle for each page that it touches; an erase of
//! several sectors takes one cycle for each sector. Every other operation is a single
//! command.

use vstd::prelude::*;
use crate::command::{Command, Frame};
use crate::ident::JedecId;
use crate::layout::{
    block_base,
    block_start,
    lemma_wrapped_add,
    next_piece,
    piece_len,
    sector_base,
    sector_start,
    wrap_address,
    wrapped,
    ADDRESS_SPACE,
    SECTOR_SIZE,
};
use crate::status::{judge, verdict, Verdict};

verus! {

/// An operation that the driver can carry out.
pub enum Task {
    /// Take charge of the chip: deselect it and check that it is idle and healthy.
    Init,
    /// Give the chip up: check that it is idle and healthy.
    Free,
    /// Read the JEDEC identifier.
    ReadJedecId,
    /// Read the status register.
    ReadStatus,
    /// Read `len` bytes from `addr` on.
    Read { addr: u32, len: usize },
    /// Program `data` from `addr` on.
    WriteBytes { addr: u32, data: Vec<u8> },
    /// Erase `count` sectors, the first being the one that holds `addr`.
    EraseSectors { addr: u32, count: usize },
    /// Erase the block that holds `addr`.
    EraseBlock { addr: u32 },
    /// Erase the whole chip.
    EraseAll,
}

/// An operation as a mathematical value.
pub enum Job {
    Init,
    Free,
    ReadJedecId,
    ReadStatus,
    Read { addr: u32, len: nat },
    WriteBytes { addr: u32, data: Seq<u8> },
    EraseSectors { addr: u32, count: nat },
    EraseBlock { addr: u32 },
    EraseAll,
}

impl View for Task {
    type V = Job;

    open spec fn view(&self) -> Job {
        match self {
            Task::Init => Job::Init,
            Task::Free => Job::Free,
            Task::ReadJedecId => Job::ReadJedecId,
            Task::ReadStatus => Job::ReadStatus,
            Task::Read { addr, len } => Job::Read { addr: *addr, len: *len as nat },
            Task::WriteBytes { addr, data } => Job::WriteBytes { addr: *addr, data: data@ },
            Task::EraseSectors { addr, count } => Job::EraseSectors {
                addr: *addr,
                count: *count as nat,
            },
            Task::EraseBlock { addr } => Job::EraseBlock { addr: *addr },
            Task::EraseAll => Job::EraseAll,
        }
    }
}

/// What an operation that succeeded brings back.
#[derive(Clone, Copy, Debug, PartialEq, Eq, Structural)]
pub enum Outcome {
    /// Nothing but the fact that it is done.
    Done,
    /// The status register as the chip sent it.
    Status(u8),
    /// The identifier as the chip sent it.
    Identity(JedecId),
}

impl Job {
    /// Whether the operation programs or erases.
    pub open spec fn changes_state(self) -> bool {
        self is WriteBytes || self is EraseSectors || self is EraseBlock || self is EraseAll
    }

    /// The amount of work of an operation that programs or erases: the bytes of a
    /// write, the sectors of a sector erase, one for a block or the chip.
    pub open spec fn total(self) -> nat {
        match self {
            Job::WriteBytes { data, .. } => data.len(),
            Job::EraseSectors { count, .. } => count,
            Job::EraseBlock { .. } => 1,
            Job::EraseAll => 1,
            _ => 0,
        }
    }

    /// The address that the operation has reached when `offset` of its work is done.
    ///
    /// A write starts at its address and moves on byte by byte. A sector erase starts at
    /// the beginning of the sector that holds its address and moves on sector by sector:
    /// an address inside a sector stands for that sector. A block erase stays at the
    /// beginning of the block that holds its address. All of them count round the
    /// address space.
    pub open spec fn position(self, offset: nat) -> int {
        match self {
            Job::WriteBytes { addr, .. } => wrapped(addr + offset),
            Job::EraseSectors { addr, .. } => wrapped(sector_start(addr as int) + 4096 * offset),
            Job::EraseBlock { addr } => block_start(addr as int),
            _ => 0,
        }
    }

    /// The amount of work that the cycle does which starts when `offset` is done: for a
    /// write the bytes up to the end of the page or of the data, else one.
    pub open spec fn stride(self, offset: nat) -> nat {
        match self {
            Job::WriteBytes { data, .. } => piece_len(
                self.position(offset),
                data.len() - offset,
            ) as nat,
            _ => 1,
        }
    }

    /// The program or erase command of the cycle that starts when `offset` is done.
    pub open spec fn change(self, offset: nat) -> Frame {
        let addr = self.position(offset) as u32;
        match self {
            Job::WriteBytes { data, .. } => Frame::PageProgram {
                addr,
                data: data.subrange(offset as int, (offset + self.stride(offset)) as int),
            },
            Job::EraseSectors { .. } => Frame::SectorErase { addr },
            Job::EraseBlock { .. } => Frame::BlockErase { addr },
            _ => Frame::ChipErase,
        }
    }

    /// The single command of an operation that neither programs nor erases.
    pub open spec fn query(self) -> Frame {
        match self {
            Job::ReadJedecId => Frame::ReadJedecId,
            Job::Read { addr, len } => Frame::ReadData { addr: wrapped(addr as int) as u32, len },
            _ => Frame::ReadStatus,
        }
    }

    /// What an operation that neither programs nor erases brings back when its command
    /// received `received`, or `None` where the status that came back is not that of an
    /// idle and healthy chip and the operation asks for one.
    ///
    /// The byte received while the opcode was sent carries nothing; the answer starts
    /// at the second byte.
    pub open spec fn answer(self, received: Seq<u8>) -> Option<Outcome> {
        match self {
            Job::Init | Job::Free => if verdict(received[1]) == Verdict::Idle {
                Some(Outcome::Done)
            } else {
                None
            },
            Job::ReadStatus => Some(Outcome::Status(received[1])),
            Job::ReadJedecId => Some(
                Outcome::Identity(
                    JedecId {
                        manufacturer: received[1],
                        device_high: received[2],
                        device_low: received[3],
                    },
                ),
            ),
            _ => Some(Outcome::Done),
        }
    }
}

/// Copies `len` bytes of `data` from index `start` on.
fn copy_range(data: &Vec<u8>, start: usize, len: usize) -> (out: Vec<u8>)
    requires
        start + len <= data@.len(),
    ensures
        out@ == data@.subrange(start as int, start + len),
{
    let mut out: Vec<u8> = Vec::new();
    let mut i: usize = 0;
    while i < len
        invariant
            i <= len,
            start + len <= data.len(),
            out@ == data@.subrange(start as int, start + i),
        decreases len - i,
    {
        out.push(data[start + i]);
        i = i + 1;
        assert(out@ =~= data@.subrange(start as int, start + i));
    }
    out
}

impl Task {
    /// Tells whether the operation programs or erases.
    pub fn changes_state(&self) -> (changes: bool)
        ensures
            changes == self@.changes_state(),
    {
        match self {
            Task::WriteBytes { .. } => true,
            Task::EraseSectors { .. } => true,
            Task::EraseBlock { .. } => true,
            Task::EraseAll => true,
            _ => false,
        }
    }

    /// The amount of work of the operation.
    pub fn total(&self) -> (total: usize)
        ensures
            total == self@.total(),
    {
        match self {
            Task::WriteBytes { data, .. } => data.len(),
            Task::EraseSectors { count, .. } => *count,
            Task::EraseBlock { .. } => 1,
            Task::EraseAll => 1,
            _ => 0,
        }
    }

    /// The address that the operation has reached when `offset` of its work is done.
    pub fn position(&self, offset: usize) -> (addr: u32)
        ensures
            addr == self@.position(offset as nat),
            addr < ADDRESS_SPACE,
    {
        match self {
            Task::WriteBytes { addr, .. } => {
                let turns: u32 = (offset % 0x100_0000) as u32;
                proof {
                    lemma_wrapped_add(offset as int, *addr as int);
                    lemma_wrapped_add(*addr as int, wrapped(offset as int));
                }
                wrap_address(wrap_address(*addr) + turns)
            },
            Task::EraseSectors { addr, .. } => {
                let turns: u32 = (offset % 4096) as u32;
                proof {
                    let start = sector_start(*addr as int);
                    assert(4096 * offset == 0x100_0000 * (offset / 4096) + 4096 * (offset % 4096));
                    vstd::arithmetic::div_mod::lemma_mod_multiples_vanish(
                        (offset / 4096) as int,
                        start + 4096 * (offset % 4096),
                        0x100_0000,
                    );
                }
                wrap_address(sector_base(*addr) + turns * SECTOR_SIZE)
            },
            Task::EraseBlock { addr } => block_base(*addr),
            _ => 0,
        }
    }

    /// The amount of work of the cycle that starts when `offset` is done.
    pub fn stride(&self, offset: usize) -> (stride: usize)
        requires
            offset < self@.total(),
        ensures
            stride == self@.stride(offset as nat),
            1 <= stride,
            offset + stride <= self@.total(),
    {
        match self {
            Task::WriteBytes { data, .. } => next_piece(self.position(offset), data.len() - offset),
            _ => 1,
        }
    }

    /// The program or erase command of the cycle that starts when `offset` is done.
    pub fn change(&self, offset: usize) -> (command: Command)
        requires
            self@.changes_state(),
            offset < self@.total(),
        ensures
            command@ == self@.change(offset as nat),
            command@.changes_state(),
            command@.fits_page(),
            command@.in_range(),
    {
        let cursor = self.position(offset);
        match self {
            Task::WriteBytes { data, .. } => {
                let len = next_piece(cursor, data.len() - offset);
                Command::PageProgram { addr: cursor, data: copy_range(data, offset, len) }
            },
            Task::EraseSectors { .. } => Command::SectorErase { addr: cursor },
            Task::EraseBlock { .. } => Command::BlockErase { addr: cursor },
            _ => Command::ChipErase,
        }
    }

    /// The single command of an operation that neither programs nor erases.
    pub fn query(&self) -> (command: Command)
        ensures
            command@ == self@.query(),
            !command@.changes_state(),
            command@.in_range(),
    {
        match self {
            Task::ReadJedecId => Command::ReadJedecId,
            Task::Read { addr, len } => Command::ReadData { addr: wrap_address(*addr), len: *len },
            _ => Command::ReadStatus,
        }
    }

    /// What the operation brings back when its single command received `received`.
    pub fn answer(&self, received: &Vec<u8>) -> (out: Option<Outcome>)
        requires
            self@.query().answer_len() > 0 ==> received@.len() == self@.query().head().len(),
        ensures
            out == self@.answer(received@),
    {
        match self {
            Task::Init | Task::Free => match judge(received[1]) {
                Verdict::Idle => Some(Outcome::Done),
                _ => None,
            },
            Task::ReadStatus => Some(Outcome::Status(received[1])),
            Task::ReadJedecId => Some(
                Outcome::Identity(JedecId::new(received[1], received[2], received[3])),
            ),
            _ => Some(Outcome::Done),
        }
    }
}

} // verus!
