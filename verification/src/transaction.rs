//! One command as a sequence of bus calls.
//!
//! A [`Transaction`] hands out the calls of one command in order: select, one or two SPI
//! calls, deselect. When the SPI bus fails, the calls that are left are skipped, the chip
//! is deselected all the same, and the failure is reported after that. When the pin
//! fails, the transaction ends at once, since nothing more can be done about the pin.

use vstd::prelude::*;
use core::marker::PhantomData;
use crate::bus::{BusCall, Call, Ending, Reply, Step};
use crate::command::{Command, Frame};
use crate::error::Error;

verus! {

/// The progress of one command on the bus, for a host whose SPI bus fails with an `S`
/// and whose chip-select pin fails with a `G`.
pub struct Transaction<S, G> {
    first: Option<BusCall>,
    second: Option<BusCall>,
    echo: Option<usize>,
    begun: bool,
    sent: usize,
    released: bool,
    fault: Option<S>,
    received: Vec<u8>,
    ending: Option<Ending>,
    frame: Ghost<Frame>,
    pin: PhantomData<G>,
}

/// A transaction as a mathematical value.
pub struct TransactionView<S> {
    /// The command that is carried out.
    pub frame: Frame,
    /// Whether the select call was handed out.
    pub begun: bool,
    /// How many SPI calls were handed out.
    pub sent: nat,
    /// Whether the deselect call was handed out.
    pub released: bool,
    /// The failure of the SPI bus that waits to be reported.
    pub fault: Option<S>,
    /// The bytes that came back with the first SPI call.
    pub received: Seq<u8>,
    /// How the transaction ended, once it has.
    pub ending: Option<Ending>,
}

impl<S> TransactionView<S> {
    /// The transaction of `frame` before any call.
    pub open spec fn fresh(frame: Frame) -> Self {
        TransactionView {
            frame,
            begun: false,
            sent: 0,
            released: false,
            fault: None,
            received: Seq::empty(),
            ending: None,
        }
    }

    /// The calls handed out so far, in order: select, then the first SPI calls of the
    /// command, then deselect.
    pub open spec fn issued(self) -> Seq<Call> {
        if !self.begun {
            Seq::empty()
        } else {
            seq![Call::Select] + self.frame.spi_calls().take(self.sent as int) + (if self.released {
                seq![Call::Deselect]
            } else {
                Seq::empty()
            })
        }
    }

    /// Whether the host owes an answer to a call.
    pub open spec fn awaiting(self) -> bool {
        self.begun && self.ending is None
    }

    /// Whether the chip is selected as far as the calls handed out tell: the select
    /// call was handed out and the deselect call was not.
    pub open spec fn selected(self) -> bool {
        self.begun && !self.released
    }

    /// The call that the host was handed last.
    pub open spec fn pending(self) -> Call {
        if self.released {
            Call::Deselect
        } else if self.sent == 0 {
            Call::Select
        } else {
            self.frame.spi_calls()[self.sent - 1]
        }
    }

    /// What every transaction satisfies at every moment.
    ///
    /// No more SPI calls are handed out than the command has; the chip is deselected
    /// only after at least one of them, and after all of them unless the bus failed; a
    /// transaction that ended well handed out the whole script; and once a command
    /// with an answer is through, as many bytes have come back as its head has.
    pub open spec fn legal(self) -> bool {
        &&& self.sent <= self.frame.spi_calls().len()
        &&& !self.begun ==> self.sent == 0 && !self.released && self.ending is None
        &&& self.released ==> self.sent >= 1
        &&& self.fault is Some ==> self.released && self.ending is None
        &&& self.released && self.fault is None && self.ending is None ==> self.sent
            == self.frame.spi_calls().len()
        &&& self.received.len() > 0 ==> self.sent >= 1 && self.ending is None
            && self.frame.answer_len() > 0
        &&& self.released && self.fault is None && self.ending is None
            && self.frame.answer_len() > 0 ==> self.received.len() == self.frame.head().len()
        &&& match self.ending {
            None => true,
            Some(Ending::Completed) => self.released && self.sent == self.frame.spi_calls().len(),
            Some(Ending::BusFailed) => self.released,
            Some(Ending::PinFailed) => self.begun && (self.released || self.sent == 0),
            Some(Ending::Rejected) => false,
        }
    }

    /// Whether the answer `reply` ends the transaction: a failure of the pin does, and
    /// so does the answer to the deselect call.
    pub open spec fn closes<G>(self, reply: Reply<S, G>) -> bool {
        reply is PinFault || self.released
    }

    /// The result of a transaction that `reply` ends: the pin's failure if it failed
    /// now, else the bus's failure if it failed before, else the bytes received.
    pub open spec fn outcome<G>(self, reply: Reply<S, G>) -> Result<Seq<u8>, Error<S, G>> {
        match reply {
            Reply::PinFault(g) => Err(Error::Gpio(g)),
            _ => match self.fault {
                Some(e) => Err(Error::Spi(e)),
                None => Ok(self.received),
            },
        }
    }

    /// The transaction after the host answered the pending call with `reply`.
    pub open spec fn resumed<G>(self, reply: Reply<S, G>) -> Self {
        match reply {
            Reply::PinFault(_) => TransactionView {
                ending: Some(Ending::PinFailed),
                fault: None,
                received: Seq::empty(),
                ..self
            },
            Reply::SpiFault(e) => TransactionView {
                released: true,
                fault: Some(e),
                received: Seq::empty(),
                ..self
            },
            _ => if self.released {
                TransactionView {
                    ending: Some(
                        if self.fault is Some {
                            Ending::BusFailed
                        } else {
                            Ending::Completed
                        },
                    ),
                    fault: None,
                    received: Seq::empty(),
                    ..self
                }
            } else {
                let received = match reply {
                    Reply::Received(back) => back@,
                    _ => self.received,
                };
                if self.sent < self.frame.spi_calls().len() {
                    TransactionView { sent: self.sent + 1, received, ..self }
                } else {
                    TransactionView { released: true, received, ..self }
                }
            },
        }
    }
}

impl<S, G> View for Transaction<S, G> {
    type V = TransactionView<S>;

    closed spec fn view(&self) -> TransactionView<S> {
        TransactionView {
            frame: self.frame@,
            begun: self.begun,
            sent: self.sent as nat,
            released: self.released,
            fault: self.fault,
            received: self.received@,
            ending: self.ending,
        }
    }
}

impl<S, G> Transaction<S, G> {
    /// Whether the calls that are kept for the host are those of the command.
    pub closed spec fn stocked(&self) -> bool {
        &&& self.sent == 0 ==> (self.first matches Some(call) && call@
            == self.frame@.first_call())
        &&& self.sent <= 1 ==> match self.second {
            Some(call) => self.frame@.second_call() == Some(call@),
            None => self.frame@.second_call() is None,
        }
        &&& match self.echo {
            Some(len) => self.frame@.first_call() == Call::Transfer(self.frame@.head()) && len
                == self.frame@.head().len(),
            None => self.frame@.first_call() is Write,
        }
    }

    /// Whether the value is one that this module builds.
    pub open spec fn wf(&self) -> bool {
        self.stocked() && self@.legal()
    }

    /// The transaction that carries out `command`. No call is made yet.
    pub fn new(command: Command) -> (txn: Self)
        ensures
            txn.wf(),
            txn@ == TransactionView::<S>::fresh(command@),
    {
        let ghost frame = command@;
        let (first, second) = command.into_calls();
        let echo = match &first {
            BusCall::Transfer(bytes) => Some(bytes.len()),
            _ => None,
        };
        Transaction {
            first: Some(first),
            second,
            echo,
            begun: false,
            sent: 0,
            released: false,
            fault: None,
            received: Vec::new(),
            ending: None,
            frame: Ghost(frame),
            pin: PhantomData,
        }
    }

    /// Starts the transaction: the first call is always to select the chip.
    pub fn begin(&mut self) -> (call: BusCall)
        requires
            old(self).wf(),
            !old(self)@.begun,
        ensures
            final(self).wf(),
            call@ == Call::Select,
            final(self)@ == (TransactionView { begun: true, ..old(self)@ }),
            final(self)@.issued() == seq![Call::Select],
            final(self)@.awaiting(),
            final(self)@.pending() == Call::Select,
    {
        self.begun = true;
        assert(self@.issued() =~= seq![Call::Select]);
        BusCall::Select
    }

    /// Tells whether the select call was handed out and the deselect call was not.
    pub fn is_selected(&self) -> (selected: bool)
        ensures
            selected == self@.selected(),
    {
        self.begun && !self.released
    }

    /// Tells whether the host still owes an answer.
    pub fn is_awaiting(&self) -> (awaiting: bool)
        ensures
            awaiting == self@.awaiting(),
    {
        self.begun && self.ending.is_none()
    }

    /// Tells whether `reply` can be the answer to the call that is pending.
    pub fn expects(&self, reply: &Reply<S, G>) -> (fits: bool)
        requires
            self.wf(),
            self@.awaiting(),
        ensures
            fits == self@.pending().answered_by(*reply),
    {
        if self.released || self.sent == 0 {
            match reply {
                Reply::Done => true,
                Reply::PinFault(_) => true,
                _ => false,
            }
        } else if self.sent == 1 {
            match self.echo {
                Some(len) => match reply {
                    Reply::SpiFault(_) => true,
                    Reply::Received(back) => back.len() == len,
                    _ => false,
                },
                None => match reply {
                    Reply::Done => true,
                    Reply::SpiFault(_) => true,
                    _ => false,
                },
            }
        } else {
            match reply {
                Reply::Done => true,
                Reply::SpiFault(_) => true,
                _ => false,
            }
        }
    }

    /// Takes the host's answer to the pending call and hands out the next call, or the
    /// result when the transaction has ended.
    ///
    /// The result is the bytes that came back with the first SPI call, or the failure.
    pub fn resume(&mut self, reply: Reply<S, G>) -> (step: Step<Vec<u8>, S, G>)
        requires
            old(self).wf(),
            old(self)@.awaiting(),
            old(self)@.pending().answered_by(reply),
        ensures
            final(self).wf(),
            final(self)@ == old(self)@.resumed(reply),
            final(self)@.issued() == old(self)@.issued() + step.calls(),
            (match step {
                Step::Call(call) => !old(self)@.closes(reply) && final(self)@.awaiting()
                    && call@ == final(self)@.pending(),
                Step::Finished(result) => old(self)@.closes(reply) && match result {
                    Ok(bytes) => old(self)@.outcome(reply) == Ok::<Seq<u8>, Error<S, G>>(bytes@),
                    Err(e) => old(self)@.outcome(reply) == Err::<Seq<u8>, Error<S, G>>(e),
                },
            }),
    {
        let ghost before = self@;
        match reply {
            Reply::PinFault(g) => {
                self.ending = Some(Ending::PinFailed);
                self.fault = None;
                self.received = Vec::new();
                assert(self@.issued() =~= before.issued());
                Step::Finished(Err(Error::Gpio(g)))
            },
            Reply::SpiFault(e) => {
                self.released = true;
                self.fault = Some(e);
                self.received = Vec::new();
                assert(self@.issued() =~= before.issued() + seq![Call::Deselect]);
                Step::Call(BusCall::Deselect)
            },
            other => {
                if self.released {
                    let fault = self.fault.take();
                    let mut bytes: Vec<u8> = Vec::new();
                    core::mem::swap(&mut bytes, &mut self.received);
                    assert(self@.issued() =~= before.issued());
                    match fault {
                        Some(e) => {
                            self.ending = Some(Ending::BusFailed);
                            Step::Finished(Err(Error::Spi(e)))
                        },
                        None => {
                            self.ending = Some(Ending::Completed);
                            Step::Finished(Ok(bytes))
                        },
                    }
                } else {
                    match other {
                        Reply::Received(back) => {
                            self.received = back;
                        },
                        _ => {},
                    }
                    let next = if self.sent == 0 {
                        self.first.take()
                    } else if self.sent == 1 {
                        self.second.take()
                    } else {
                        None
                    };
                    match next {
                        Some(call) => {
                            self.sent = self.sent + 1;
                            assert(self@.issued() =~= before.issued() + seq![call@]);
                            Step::Call(call)
                        },
                        None => {
                            self.released = true;
                            assert(self@.issued() =~= before.issued() + seq![Call::Deselect]);
                            Step::Call(BusCall::Deselect)
                        },
                    }
                }
            },
        }
    }
}

/// Answering the pending call keeps what holds of every transaction, and adds to the
/// calls handed out the one that is pending afterwards, if any.
pub proof fn lemma_transaction_resumed<S, G>(before: TransactionView<S>, reply: Reply<S, G>)
    requires
        before.legal(),
        before.awaiting(),
        before.pending().answered_by(reply),
    ensures
        before.resumed(reply).legal(),
        before.resumed(reply).frame == before.frame,
        before.resumed(reply).begun,
        before.closes(reply) <==> before.resumed(reply).ending is Some,
        before.closes(reply) ==> before.resumed(reply).issued() == before.issued()
            && before.resumed(reply).ending == Some(
            (match before.outcome(reply) {
                Ok(_) => Ending::Completed,
                Err(Error::Gpio(_)) => Ending::PinFailed,
                Err(_) => Ending::BusFailed,
            }),
        ),
        !before.closes(reply) ==> before.resumed(reply).issued() == before.issued().push(
            before.resumed(reply).pending(),
        ),
{
    let after = before.resumed(reply);
    if before.closes(reply) {
        assert(after.issued() =~= before.issued());
    } else {
        assert(after.issued() =~= before.issued().push(after.pending()));
    }
}

} // verus!
