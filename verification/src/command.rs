//! The commands of the chip and the bytes that carry them.
//!
//! Every command is one transaction: the chip-select pin goes low, the opcode is sent,
//! an address and data follow where the command has them, and the pin goes high again.

use vstd::prelude::*;
use crate::bus::{BusCall, Call};
use crate::layout::{address_bytes, big_endian, wrapped};

verus! {

/// Opcode of Write Enable.
pub const WRITE_ENABLE: u8 = 0x06;

/// Opcode of Write Disable.
pub const WRITE_DISABLE: u8 = 0x04;

/// Opcode of Read Status Register.
pub const READ_STATUS: u8 = 0x05;

/// Opcode of Read JEDEC ID.
pub const READ_JEDEC_ID: u8 = 0x9F;

/// Opcode of Read Data.
pub const READ_DATA: u8 = 0x03;

/// Opcode of Page Program.
pub const PAGE_PROGRAM: u8 = 0x02;

/// Opcode of Sector Erase.
pub const SECTOR_ERASE: u8 = 0x20;

/// Opcode of Block Erase.
pub const BLOCK_ERASE: u8 = 0xD8;

/// Opcode of Chip Erase.
pub const CHIP_ERASE: u8 = 0xC7;

/// A command for the chip.
pub enum Command {
    /// Set the write enable latch.
    WriteEnable,
    /// Clear the write enable latch.
    WriteDisable,
    /// Read the status register: one byte comes back.
    ReadStatus,
    /// Read the JEDEC identifier: three bytes come back.
    ReadJedecId,
    /// Read `len` bytes of data from `addr` on.
    ReadData { addr: u32, len: usize },
    /// Program `data` from `addr` on.
    PageProgram { addr: u32, data: Vec<u8> },
    /// Erase the sector at `addr`.
    SectorErase { addr: u32 },
    /// Erase the block at `addr`.
    BlockErase { addr: u32 },
    /// Erase the whole chip.
    ChipErase,
}

/// A command as a mathematical value.
pub enum Frame {
    WriteEnable,
    WriteDisable,
    ReadStatus,
    ReadJedecId,
    ReadData { addr: u32, len: nat },
    PageProgram { addr: u32, data: Seq<u8> },
    SectorErase { addr: u32 },
    BlockErase { addr: u32 },
    ChipErase,
}

impl View for Command {
    type V = Frame;

    open spec fn view(&self) -> Frame {
        match self {
            Command::WriteEnable => Frame::WriteEnable,
            Command::WriteDisable => Frame::WriteDisable,
            Command::ReadStatus => Frame::ReadStatus,
            Command::ReadJedecId => Frame::ReadJedecId,
            Command::ReadData { addr, len } => Frame::ReadData { addr: *addr, len: *len as nat },
            Command::PageProgram { addr, data } => Frame::PageProgram { addr: *addr, data: data@ },
            Command::SectorErase { addr } => Frame::SectorErase { addr: *addr },
            Command::BlockErase { addr } => Frame::BlockErase { addr: *addr },
            Command::ChipErase => Frame::ChipErase,
        }
    }
}

/// The three bytes that carry `addr`, most significant first.
pub open spec fn address_seq(addr: u32) -> Seq<u8> {
    seq![((addr / 65536) % 256) as u8, ((addr / 256) % 256) as u8, (addr % 256) as u8]
}

impl Frame {
    /// The byte that names the command.
    pub open spec fn opcode(self) -> u8 {
        match self {
            Frame::WriteEnable => WRITE_ENABLE,
            Frame::WriteDisable => WRITE_DISABLE,
            Frame::ReadStatus => READ_STATUS,
            Frame::ReadJedecId => READ_JEDEC_ID,
            Frame::ReadData { .. } => READ_DATA,
            Frame::PageProgram { .. } => PAGE_PROGRAM,
            Frame::SectorErase { .. } => SECTOR_ERASE,
            Frame::BlockErase { .. } => BLOCK_ERASE,
            Frame::ChipErase => CHIP_ERASE,
        }
    }

    /// The address that the command carries, if it carries one.
    pub open spec fn address(self) -> Option<u32> {
        match self {
            Frame::ReadData { addr, .. } => Some(addr),
            Frame::PageProgram { addr, .. } => Some(addr),
            Frame::SectorErase { addr } => Some(addr),
            Frame::BlockErase { addr } => Some(addr),
            _ => None,
        }
    }

    /// How many bytes the chip sends back while the host still sends the head of the
    /// command: one for the status register, three for the identifier.
    pub open spec fn answer_len(self) -> nat {
        match self {
            Frame::ReadStatus => 1,
            Frame::ReadJedecId => 3,
            _ => 0,
        }
    }

    /// Whether the command programs or erases, so that the chip is busy after it.
    pub open spec fn changes_state(self) -> bool {
        self is PageProgram || self is SectorErase || self is BlockErase || self is ChipErase
    }

    /// Whether the command is one of those that a cycle of programming or erasing is
    /// made of: it enables writing, programs or erases, or reads the status.
    pub open spec fn in_cycle(self) -> bool {
        self is WriteEnable || self is ReadStatus || self.changes_state()
    }

    /// The bytes of the first SPI call: the opcode, then the address if there is one,
    /// then one zero for each byte of the answer.
    pub open spec fn head(self) -> Seq<u8> {
        seq![self.opcode()] + (match self.address() {
            Some(addr) => address_seq(addr),
            None => Seq::empty(),
        }) + Seq::new(self.answer_len(), |i: int| 0u8)
    }

    /// The first SPI call of the command: a transfer where an answer comes back with
    /// the head, a plain write otherwise.
    pub open spec fn first_call(self) -> Call {
        if self.answer_len() > 0 {
            Call::Transfer(self.head())
        } else {
            Call::Write(self.head())
        }
    }

    /// The second SPI call of the command, for the two commands that move data.
    pub open spec fn second_call(self) -> Option<Call> {
        match self {
            Frame::ReadData { len, .. } => Some(Call::Read(len)),
            Frame::PageProgram { data, .. } => Some(Call::Write(data)),
            _ => None,
        }
    }

    /// The SPI calls of the command, in order.
    pub open spec fn spi_calls(self) -> Seq<Call> {
        match self.second_call() {
            Some(call) => seq![self.first_call(), call],
            None => seq![self.first_call()],
        }
    }

    /// All bus calls of the command when nothing fails: select, the SPI calls, deselect.
    pub open spec fn script(self) -> Seq<Call> {
        seq![Call::Select] + self.spi_calls() + seq![Call::Deselect]
    }

    /// Whether the address of the command, if it has one, is one that the chip can tell
    /// from all others: it fits in 24 bits.
    pub open spec fn in_range(self) -> bool {
        self.address() matches Some(addr) ==> addr < 0x100_0000
    }

    /// Whether a program command stays inside one page and carries at least one byte.
    /// Other commands have no such bound.
    pub open spec fn fits_page(self) -> bool {
        self matches Frame::PageProgram { addr, data } ==> 1 <= data.len() && addr % 256
            + data.len() <= 256
    }
}

impl Command {
    /// The byte that names the command.
    pub fn opcode(&self) -> (code: u8)
        ensures
            code == self@.opcode(),
    {
        match self {
            Command::WriteEnable => WRITE_ENABLE,
            Command::WriteDisable => WRITE_DISABLE,
            Command::ReadStatus => READ_STATUS,
            Command::ReadJedecId => READ_JEDEC_ID,
            Command::ReadData { .. } => READ_DATA,
            Command::PageProgram { .. } => PAGE_PROGRAM,
            Command::SectorErase { .. } => SECTOR_ERASE,
            Command::BlockErase { .. } => BLOCK_ERASE,
            Command::ChipErase => CHIP_ERASE,
        }
    }

    /// The address that the command carries, if it carries one.
    pub fn address(&self) -> (addr: Option<u32>)
        ensures
            addr == self@.address(),
    {
        match self {
            Command::ReadData { addr, .. } => Some(*addr),
            Command::PageProgram { addr, .. } => Some(*addr),
            Command::SectorErase { addr } => Some(*addr),
            Command::BlockErase { addr } => Some(*addr),
            _ => None,
        }
    }

    /// Tells whether the command programs or erases.
    pub fn changes_state(&self) -> (changes: bool)
        ensures
            changes == self@.changes_state(),
    {
        match self {
            Command::PageProgram { .. } => true,
            Command::SectorErase { .. } => true,
            Command::BlockErase { .. } => true,
            Command::ChipErase => true,
            _ => false,
        }
    }

    /// The bytes of the first SPI call. Where the command carries an address, the three
    /// bytes after the opcode are that address, most significant byte first.
    pub fn head(&self) -> (bytes: Vec<u8>)
        ensures
            bytes@ == self@.head(),
            bytes@[0] == self@.opcode(),
            self@.address() matches Some(addr) ==> bytes@.len() == 4 && big_endian(
                bytes@[1],
                bytes@[2],
                bytes@[3],
            ) == wrapped(addr as int),
    {
        let mut bytes: Vec<u8> = Vec::new();
        bytes.push(self.opcode());
        match self.address() {
            Some(addr) => {
                let tail = address_bytes(addr);
                bytes.push(tail[0]);
                bytes.push(tail[1]);
                bytes.push(tail[2]);
            },
            None => {},
        }
        match self {
            Command::ReadStatus => {
                bytes.push(0);
            },
            Command::ReadJedecId => {
                bytes.push(0);
                bytes.push(0);
                bytes.push(0);
            },
            _ => {},
        }
        assert(bytes@ =~= self@.head());
        bytes
    }

    /// Splits the command into its SPI calls: the first, and the second if there is one.
    pub fn into_calls(self) -> (calls: (BusCall, Option<BusCall>))
        ensures
            calls.0@ == self@.first_call(),
            (match calls.1 {
                Some(call) => self@.second_call() == Some(call@),
                None => self@.second_call() is None,
            }),
    {
        let head = self.head();
        let first = match &self {
            Command::ReadStatus => BusCall::Transfer(head),
            Command::ReadJedecId => BusCall::Transfer(head),
            _ => BusCall::Write(head),
        };
        let second = match self {
            Command::ReadData { len, .. } => Some(BusCall::Read(len)),
            Command::PageProgram { data, .. } => Some(BusCall::Write(data)),
            _ => None,
        };
        (first, second)
    }
}

} // verus!
