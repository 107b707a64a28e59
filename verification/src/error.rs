//! The error type of the driver.

use vstd::prelude::*;
use vstd::string::*;

verus! {

/// A type without values: the variant of [`Error`] that holds it can never be built.
#[derive(Debug)]
pub enum Private {
    /// Holds a value that cannot exist.
    Never(core::convert::Infallible),
}

/// What can go wrong while talking to the chip.
///
/// `S` is the error of the SPI bus and `G` the error of the chip-select pin. Both are
/// handed on as the host reported them.
pub enum Error<S, G> {
    /// An SPI transfer failed.
    Spi(S),
    /// The chip-select pin could not be set.
    Gpio(G),
    /// The status register held unexpected flags.
    ///
    /// This happens when the chip is faulty or wired wrongly, or when an earlier handle
    /// was given up while a write was still in progress.
    UnexpectedStatus,
    /// Keeps the set of variants open. It holds a type without values.
    __NonExhaustive(Private),
}

/// Renders `value` with its `Debug` implementation, as `format!("{:?}", value)` does.
/// The text is whatever that implementation writes: nothing is claimed of it.
#[verifier::external_body]
fn debug_of<T: core::fmt::Debug>(value: &T) -> (text: String) {
    format!("{:?}", value)
}

impl<S, G> Error<S, G> {
    /// The text that names this error for a developer, given such a text for the host
    /// error inside it.
    pub open spec fn debug_form(self, cause: Seq<char>) -> Seq<char> {
        match self {
            Error::Spi(_) => "Error::Spi("@ + cause + ")"@,
            Error::Gpio(_) => "Error::Gpio("@ + cause + ")"@,
            _ => "Error::UnexpectedStatus"@,
        }
    }

    /// The text that names this error for a developer: the name of the variant, with
    /// the host error in brackets where there is one.
    pub fn debug_text(&self) -> (text: String) where S: core::fmt::Debug, G: core::fmt::Debug
        ensures
            exists|cause: Seq<char>| text@ == #[trigger] self.debug_form(cause),
    {
        match self {
            Error::Spi(e) => {
                let cause = debug_of(e);
                let text = String::from_str("Error::Spi(").concat(cause.as_str()).concat(")");
                assert(text@ == self.debug_form(cause@));
                text
            },
            Error::Gpio(e) => {
                let cause = debug_of(e);
                let text = String::from_str("Error::Gpio(").concat(cause.as_str()).concat(")");
                assert(text@ == self.debug_form(cause@));
                text
            },
            _ => {
                let text = String::from_str("Error::UnexpectedStatus");
                assert(text@ == self.debug_form(Seq::empty()));
                text
            },
        }
    }

    /// The message of this error, given the message of the host error inside it.
    pub open spec fn message(self, cause: Seq<char>) -> Seq<char> {
        match self {
            Error::Spi(_) => "SPI error: "@ + cause,
            Error::Gpio(_) => "GPIO error: "@ + cause,
            _ => "unexpected value in status register"@,
        }
    }

    /// The message of this error: that of the host error behind a short heading, or a
    /// fixed sentence for a protocol error.
    pub fn to_text(&self) -> (text: String) where S: core::fmt::Display, G: core::fmt::Display
        ensures
            (match self {
                Error::Spi(e) => exists|cause: String| #[trigger]
                    to_string_from_display_ensures::<S>(e, cause) && text@ == self.message(
                        cause@,
                    ),
                Error::Gpio(e) => exists|cause: String| #[trigger]
                    to_string_from_display_ensures::<G>(e, cause) && text@ == self.message(
                        cause@,
                    ),
                _ => text@ == "unexpected value in status register"@,
            }),
    {
        match self {
            Error::Spi(e) => {
                let cause = e.to_string();
                String::from_str("SPI error: ").concat(cause.as_str())
            },
            Error::Gpio(e) => {
                let cause = e.to_string();
                String::from_str("GPIO error: ").concat(cause.as_str())
            },
            _ => String::from_str("unexpected value in status register"),
        }
    }
}

} // verus!
