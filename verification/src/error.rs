use vstd::prelude::*;

verus! {

/// A field of the sign-up form.
#[derive(Clone, Copy, Debug, PartialEq, Eq, Structural)]
pub enum FormField {
    Username,
    Password,
    FirstName,
    LastName,
    DateOfBirth,
    Email,
}

/// Why the server ends a client's session.
#[derive(Clone, Copy, Debug, PartialEq, Eq, Structural)]
pub enum ProtocolError {
    /// The message does not start with the client's current nonce.
    NonceMismatch,
    /// The message is empty, so it names no screen.
    EmptyScreenState,
    /// The message's screen digit is not the client's screen.
    WrongScreen,
    /// The client asked to leave the handshake before handing back its token.
    TokenNotExchanged,
    /// The client handed back a token other than its own.
    TokenMismatch,
    /// A status check carried the wrong check items.
    InvalidStatusCheck,
    /// A move to the store locator named a user other than the session's.
    InvalidSessionUsername,
    /// A move request named an unknown destination.
    InvalidMoveCode,
    /// The message fits no request of the current screen.
    UnknownMessage,
    /// The sign-up form is not valid JSON.
    InvalidSignUpForm,
    /// A sign-up form field is empty.
    EmptyField(FormField),
    /// A sign-up form field holds control (or, for password and email, non-ASCII)
    /// characters.
    ControlCharacters(FormField),
    /// The chosen store id is not an integer.
    InvalidStoreId,
    /// The move to payment named another total than the checkout list's.
    InvalidTotal,
    /// The client tried to pay itself for age-limited items that need a till.
    TillRequired,
    /// A rejected card number holds non-numeric characters the client should have
    /// refused.
    BypassedSanitation,
    /// A card check pattern does not compile.
    UnusablePattern,
}

} // verus!
