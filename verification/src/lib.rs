//! Protocol core of a driver for Winbond W25Q serial NOR flash chips.
//!
//! The chip hangs on an SPI bus and a chip-select pin. This crate decides what goes over
//! them and never touches them: every operation of the driver is a state machine that
//! names the next call on the bus or the pin, takes the answer of the host, and goes on
//! until it has a result. The host owns the hardware and makes the calls; between two
//! calls it is free to wait, to feed a watchdog, or to give the operation up.
//!
//! * [`layout`] holds the address space and its pages, sectors and blocks.
//! * [`status`] reads the status register.
//! * [`command`] holds the commands of the chip and the bytes that carry them.
//! * [`bus`] holds the calls that the host makes and the answers that it gives.
//! * [`transaction`] carries out one command: select, SPI calls, deselect.
//! * [`task`] cuts an operation into commands.
//! * [`operation`] carries out one operation, command after command.
//! * [`laws`] states what holds of the calls and commands of every operation.
//! * [`model`] is a model of the memory of the chip, for the laws on what a write leaves.
//! * [`error`] and [`ident`] hold the error type and the identifier of a chip.

pub mod bus;
pub mod command;
pub mod error;
pub mod ident;
pub mod laws;
pub mod layout;
pub mod model;
pub mod operation;
pub mod status;
pub mod task;
pub mod transaction;
