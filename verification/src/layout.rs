//! The address space of the chip and its pages, sectors and blocks.
//!
//! The chip takes addresses of 24 bits and sends them most significant byte first. A
//! page (256 bytes) is the most that one program command can fill, a sector (4 KiB) and
//! a block (64 KiB) are the units of the two partial erase commands.

use vstd::prelude::*;

verus! {

/// Bytes in a page.
pub const PAGE_SIZE: u32 = 256;

/// Bytes in a sector.
pub const SECTOR_SIZE: u32 = 4096;

/// Bytes in a block.
pub const BLOCK_SIZE: u32 = 65536;

/// Number of addresses that the chip can tell apart.
pub const ADDRESS_SPACE: u32 = 0x100_0000;

/// The address that the chip sees when it is sent `addr`: the bits above the lowest 24
/// never reach it.
pub open spec fn wrapped(addr: int) -> int {
    addr % 0x100_0000
}

/// The number that three bytes stand for when the first is the most significant.
pub open spec fn big_endian(b0: u8, b1: u8, b2: u8) -> int {
    b0 * 65536 + b1 * 256 + b2
}

/// How many bytes lie between `addr` and the end of its page, `addr` included.
pub open spec fn room_in_page(addr: int) -> int {
    256 - addr % 256
}

/// The length of the next piece of a write of `remaining` bytes that starts at `addr`:
/// as much as is left, but no more than the page of `addr` still holds.
pub open spec fn piece_len(addr: int, remaining: int) -> int {
    if remaining < room_in_page(addr) {
        remaining
    } else {
        room_in_page(addr)
    }
}

/// The first address of the sector that holds `addr`.
pub open spec fn sector_start(addr: int) -> int {
    wrapped(addr) - wrapped(addr) % 4096
}

/// The first address of the block that holds `addr`.
pub open spec fn block_start(addr: int) -> int {
    wrapped(addr) - wrapped(addr) % 65536
}

/// Counting on from a wrapped address leads where counting on from the address itself
/// leads.
pub proof fn lemma_wrapped_add(addr: int, by: int)
    ensures
        wrapped(wrapped(addr) + by) == wrapped(addr + by),
{
    vstd::arithmetic::div_mod::lemma_add_mod_noop_right(by, addr, 0x100_0000);
}

/// Reduces an address to the 24 bits that the chip reads.
pub fn wrap_address(addr: u32) -> (out: u32)
    ensures
        out == wrapped(addr as int),
        out < ADDRESS_SPACE,
{
    assert(addr & 0xFF_FFFF == addr % 0x100_0000) by (bit_vector);
    addr & 0xFF_FFFF
}

/// The three bytes that carry `addr` on the wire, most significant first.
pub fn address_bytes(addr: u32) -> (bytes: [u8; 3])
    ensures
        big_endian(bytes[0], bytes[1], bytes[2]) == wrapped(addr as int),
        bytes[0] == (addr / 65536) % 256,
        bytes[1] == (addr / 256) % 256,
        bytes[2] == addr % 256,
{
    let high: u8 = (addr >> 16) as u8;
    let middle: u8 = (addr >> 8) as u8;
    let low: u8 = addr as u8;
    assert(((addr >> 16) as u8) == (addr / 65536) % 256) by (bit_vector);
    assert(((addr >> 8) as u8) == (addr / 256) % 256) by (bit_vector);
    assert((addr as u8) == addr % 256) by (bit_vector);
    assert(((addr / 65536) % 256) * 65536 + ((addr / 256) % 256) * 256 + addr % 256 == addr
        % 0x100_0000) by (bit_vector);
    [high, middle, low]
}

/// How many bytes a program command that starts at `addr` may carry before it would
/// run past the end of the page.
pub fn page_room(addr: u32) -> (room: u32)
    ensures
        room == room_in_page(addr as int),
        1 <= room <= PAGE_SIZE,
{
    assert(addr & 0xFF == addr % 256) by (bit_vector);
    256 - (addr & 0xFF)
}

/// The length of the next program command of a write that has `remaining` bytes left
/// and has reached `addr`.
pub fn next_piece(addr: u32, remaining: usize) -> (len: usize)
    ensures
        len == piece_len(addr as int, remaining as int),
        len <= remaining,
        len <= PAGE_SIZE,
        remaining > 0 ==> len > 0,
        addr % 256 + len <= 256,
{
    let room: u32 = page_room(addr);
    if remaining < room as usize {
        remaining
    } else {
        room as usize
    }
}

/// The start of the sector of `addr`: what a sector erase at `addr` erases from.
pub fn sector_base(addr: u32) -> (out: u32)
    ensures
        out == sector_start(addr as int),
        out < ADDRESS_SPACE,
        out % 4096 == 0,
{
    assert(addr & 0xFF_F000 == addr % 0x100_0000 - (addr % 0x100_0000) % 4096) by (bit_vector);
    assert((addr & 0xFF_F000) % 4096 == 0) by (bit_vector);
    assert(addr & 0xFF_F000 < 0x100_0000) by (bit_vector);
    addr & 0xFF_F000
}

/// The start of the block of `addr`: what a block erase at `addr` erases from.
pub fn block_base(addr: u32) -> (out: u32)
    ensures
        out == block_start(addr as int),
        out < ADDRESS_SPACE,
        out % 65536 == 0,
{
    assert(addr & 0xFF_0000 == addr % 0x100_0000 - (addr % 0x100_0000) % 65536) by (bit_vector);
    assert((addr & 0xFF_0000) % 65536 == 0) by (bit_vector);
    assert(addr & 0xFF_0000 < 0x100_0000) by (bit_vector);
    addr & 0xFF_0000
}

} // verus!
