//! What the driver asks of the host, one call at a time, and what the host answers.
//!
//! The driver never touches the SPI bus or the chip-select pin itself. It names the
//! next call as a [`BusCall`]; the host makes that call on its hardware and hands the
//! result back as a [`Reply`].

use vstd::prelude::*;
use crate::error::Error;

verus! {

/// One call on the host's hardware.
pub enum BusCall {
    /// Drive the chip-select pin low: a command begins.
    Select,
    /// Drive the chip-select pin high: the command ends.
    Deselect,
    /// Send these bytes and discard what comes back.
    Write(Vec<u8>),
    /// Send these bytes and keep the bytes that come back, one for each byte sent.
    Transfer(Vec<u8>),
    /// Receive this many bytes while sending filler.
    Read(usize),
}

/// A bus call as a mathematical value.
pub enum Call {
    /// The chip-select pin goes low.
    Select,
    /// The chip-select pin goes high.
    Deselect,
    /// Bytes are sent.
    Write(Seq<u8>),
    /// Bytes are sent and as many received.
    Transfer(Seq<u8>),
    /// Bytes are received.
    Read(nat),
}

impl View for BusCall {
    type V = Call;

    open spec fn view(&self) -> Call {
        match self {
            BusCall::Select => Call::Select,
            BusCall::Deselect => Call::Deselect,
            BusCall::Write(bytes) => Call::Write(bytes@),
            BusCall::Transfer(bytes) => Call::Transfer(bytes@),
            BusCall::Read(len) => Call::Read(*len as nat),
        }
    }
}

/// The host's answer to one bus call.
pub enum Reply<S, G> {
    /// The call succeeded and brought nothing back.
    Done,
    /// A transfer succeeded and brought these bytes back.
    Received(Vec<u8>),
    /// The SPI bus reported an error.
    SpiFault(S),
    /// The chip-select pin reported an error.
    PinFault(G),
}

impl Call {
    /// Whether the call sets the chip-select pin.
    pub open spec fn on_pin(self) -> bool {
        self is Select || self is Deselect
    }

    /// Whether the call moves bytes over the SPI bus.
    pub open spec fn on_spi(self) -> bool {
        !self.on_pin()
    }

    /// Whether `reply` is an answer that the host can give to this call: a pin call
    /// succeeds or fails on the pin, an SPI call succeeds or fails on the bus, and a
    /// transfer that succeeds brings back as many bytes as it sent.
    pub open spec fn answered_by<S, G>(self, reply: Reply<S, G>) -> bool {
        match self {
            Call::Select | Call::Deselect => reply is Done || reply is PinFault,
            Call::Write(_) | Call::Read(_) => reply is Done || reply is SpiFault,
            Call::Transfer(bytes) => reply is SpiFault || (reply matches Reply::Received(back)
                && back@.len() == bytes.len()),
        }
    }
}

impl BusCall {
    /// Tells whether `reply` is an answer that the host can give to this call.
    pub fn answered_by<S, G>(&self, reply: &Reply<S, G>) -> (fits: bool)
        ensures
            fits == self@.answered_by(*reply),
    {
        match self {
            BusCall::Select | BusCall::Deselect => match reply {
                Reply::Done => true,
                Reply::PinFault(_) => true,
                _ => false,
            },
            BusCall::Write(_) | BusCall::Read(_) => match reply {
                Reply::Done => true,
                Reply::SpiFault(_) => true,
                _ => false,
            },
            BusCall::Transfer(bytes) => match reply {
                Reply::SpiFault(_) => true,
                Reply::Received(back) => back.len() == bytes.len(),
                _ => false,
            },
        }
    }
}

/// What a state machine of the driver hands out when it is resumed: the next call for
/// the host, or the result of the work, after which nothing more is to be done.
pub enum Step<T, S, G> {
    /// The host is to make this call and to resume the machine with its answer.
    Call(BusCall),
    /// The work has ended with this result.
    Finished(Result<T, Error<S, G>>),
}

/// How a piece of work has ended.
#[derive(Clone, Copy, Debug, PartialEq, Eq, Structural)]
pub enum Ending {
    /// It was carried out in full.
    Completed,
    /// The chip reported a status that no healthy, idle chip reports.
    Rejected,
    /// The SPI bus failed.
    BusFailed,
    /// The chip-select pin failed.
    PinFailed,
}

impl<T, S, G> Step<T, S, G> {
    /// The calls that this step adds to the record of calls made: one or none.
    pub open spec fn calls(self) -> Seq<Call> {
        match self {
            Step::Call(call) => seq![call@],
            Step::Finished(_) => Seq::empty(),
        }
    }

    /// How the work has ended, if this step ends it.
    pub open spec fn ending(self) -> Option<Ending> {
        match self {
            Step::Call(_) => None,
            Step::Finished(Ok(_)) => Some(Ending::Completed),
            Step::Finished(Err(Error::Spi(_))) => Some(Ending::BusFailed),
            Step::Finished(Err(Error::Gpio(_))) => Some(Ending::PinFailed),
            Step::Finished(Err(_)) => Some(Ending::Rejected),
        }
    }
}

} // verus!
