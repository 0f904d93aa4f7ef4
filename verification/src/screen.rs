use vstd::prelude::*;

verus! {

/// The screen a connected client is currently on.
#[derive(Clone, Copy, Debug, PartialEq, Eq, Structural)]
pub enum ScreenState {
    TokenHandshake,
    Start,
    SignUp,
    StoreLocator,
    Scanner,
    Payment,
    Transfer,
    End,
}

/// The digit that prefixes every client message sent from `s`.
pub open spec fn screen_code(s: ScreenState) -> int {
    match s {
        ScreenState::TokenHandshake => 0,
        ScreenState::Start => 1,
        ScreenState::SignUp => 2,
        ScreenState::StoreLocator => 3,
        ScreenState::Scanner => 4,
        ScreenState::Payment => 5,
        ScreenState::Transfer => 6,
        ScreenState::End => 7,
    }
}

/// The human-readable name of a screen.
pub open spec fn screen_label(s: ScreenState) -> Seq<char> {
    match s {
        ScreenState::TokenHandshake => "Token Handshake"@,
        ScreenState::Start => "Start"@,
        ScreenState::SignUp => "SignUp"@,
        ScreenState::StoreLocator => "Store Locator"@,
        ScreenState::Scanner => "Scanner"@,
        ScreenState::Payment => "Payment"@,
        ScreenState::Transfer => "Transfer"@,
        ScreenState::End => "End"@,
    }
}

impl ScreenState {
    /// The numeric code of the screen.
    pub fn as_i32(&self) -> (code: i32)
        ensures
            code == screen_code(*self),
            0 <= code <= 7,
    {
        match self {
            ScreenState::TokenHandshake => 0,
            ScreenState::Start => 1,
            ScreenState::SignUp => 2,
            ScreenState::StoreLocator => 3,
            ScreenState::Scanner => 4,
            ScreenState::Payment => 5,
            ScreenState::Transfer => 6,
            ScreenState::End => 7,
        }
    }

    /// The display name of the screen.
    pub fn label(&self) -> (text: String)
        ensures
            text@ == screen_label(*self),
    {
        let s = match self {
            ScreenState::TokenHandshake => "Token Handshake",
            ScreenState::Start => "Start",
            ScreenState::SignUp => "SignUp",
            ScreenState::StoreLocator => "Store Locator",
            ScreenState::Scanner => "Scanner",
            ScreenState::Payment => "Payment",
            ScreenState::Transfer => "Transfer",
            ScreenState::End => "End",
        };
        String::from_str(s)
    }
}

/// The screen whose handler takes a message whose screen character is `c`: the
/// screens with a handler are those of the digits `0` to `5`; for any other character
/// there is none (the message is logged and dropped).
pub fn handled_screen(c: char) -> (s: Option<ScreenState>)
    ensures
        match s {
            Some(screen) => c as int - '0' as int == screen_code(screen) && screen_code(screen) <= 5,
            None => !('0' <= c <= '5'),
        },
{
    match c {
        '0' => Some(ScreenState::TokenHandshake),
        '1' => Some(ScreenState::Start),
        '2' => Some(ScreenState::SignUp),
        '3' => Some(ScreenState::StoreLocator),
        '4' => Some(ScreenState::Scanner),
        '5' => Some(ScreenState::Payment),
        _ => None,
    }
}

/// Two different screens have different codes.
pub proof fn lemma_screen_code_injective(a: ScreenState, b: ScreenState)
    ensures
        screen_code(a) == screen_code(b) ==> a == b,
{
}

} // verus!
