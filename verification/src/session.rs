use vstd::prelude::*;
use crate::connection::ConnectionTable;
use crate::entropy::{os_seeded_rng, printable_ascii};
use crate::error::ProtocolError;
use crate::screen::{ScreenState, screen_code};
use crate::sign_up::SignUpForm;
use crate::text::{
    drop_chars, is_ascii_digit, lemma_encode_utf8_len, same_text, skip_chars, starts_with,
    take_chars, take_first_chars,
};

verus! {

/// Number of characters of a nonce.
pub const NONCE_LENGTH: usize = 20;

/// Seconds without a status check after which a client is dropped.
pub const STATUS_CHECK_INTERVAL: i32 = 180;

/// Seconds the server waits for a message before counting one poll without it.
pub const STATUS_POLL_SECONDS: i32 = 5;

/// A nonce: twenty printable ASCII characters.
pub open spec fn is_nonce(s: Seq<char>) -> bool {
    s.len() == NONCE_LENGTH && forall|i: int|
        0 <= i < s.len() ==> 32 <= (#[trigger] s[i]) as u32 && (s[i] as u32) < 127
}

/// The nonce a session has before the handshake hands it a real one.
pub open spec fn no_nonce() -> Seq<char> {
    "-1"@
}

/// What `nonce_check` returns for a message: the message itself while the session has
/// no nonce yet; otherwise the message without its nonce, provided it starts with it.
pub open spec fn nonce_check_spec(nonce: Seq<char>, msg: Seq<char>) -> Result<Seq<char>, ProtocolError> {
    if nonce == no_nonce() {
        Ok(msg)
    } else if vstd::utf8::encode_utf8(msg).len() < NONCE_LENGTH {
        Err(ProtocolError::NonceMismatch)
    } else if take_chars(msg, NONCE_LENGTH as int) != nonce {
        Err(ProtocolError::NonceMismatch)
    } else {
        Ok(drop_chars(msg, NONCE_LENGTH as int))
    }
}

/// Checks that a client message carries the session's nonce and strips it.
pub fn nonce_check(nonce: &str, msg: &str) -> (r: Result<String, ProtocolError>)
    ensures
        match (r, nonce_check_spec(nonce@, msg@)) {
            (Ok(a), Ok(b)) => a@ == b,
            (Err(a), Err(b)) => a == b,
            _ => false,
        },
{
    proof {
        reveal_strlit("-1");
    }
    if same_text(nonce, "-1") {
        return Ok(String::from_str(msg));
    }
    if msg.as_bytes().len() < NONCE_LENGTH {
        return Err(ProtocolError::NonceMismatch);
    }
    let head = take_first_chars(msg, NONCE_LENGTH);
    if !same_text(head.as_str(), nonce) {
        return Err(ProtocolError::NonceMismatch);
    }
    Ok(skip_chars(msg, NONCE_LENGTH))
}

/// A message that starts with the session's nonce passes the nonce check, which gives
/// back what followed the nonce; a message that does not is refused.
pub proof fn lemma_nonce_check(nonce: Seq<char>, msg: Seq<char>)
    requires
        is_nonce(nonce),
    ensures
        starts_with(msg, nonce) ==> nonce_check_spec(nonce, msg) == Ok::<Seq<char>, ProtocolError>(drop_chars(msg, NONCE_LENGTH as int)),
        !starts_with(msg, nonce) ==> nonce_check_spec(nonce, msg) == Err::<Seq<char>, ProtocolError>(ProtocolError::NonceMismatch),
{
    assert(nonce != no_nonce()) by {
        reveal_strlit("-1");
    }
    lemma_encode_utf8_len(msg);
    if starts_with(msg, nonce) {
        assert(take_chars(msg, NONCE_LENGTH as int) =~= nonce);
    } else if msg.len() >= NONCE_LENGTH {
        assert(take_chars(msg, NONCE_LENGTH as int) != nonce);
    }
}

/// What the client prefixes with its nonce is exactly what the server reads.
pub proof fn lemma_nonce_round_trip(nonce: Seq<char>, body: Seq<char>)
    requires
        is_nonce(nonce),
    ensures
        nonce_check_spec(nonce, nonce + body) == Ok::<Seq<char>, ProtocolError>(body),
{
    lemma_nonce_check(nonce, nonce + body);
    assert((nonce + body).subrange(0, nonce.len() as int) =~= nonce);
    assert(drop_chars(nonce + body, NONCE_LENGTH as int) =~= body);
}

/// The status timer after `polls` silent polls from `timer`.
pub open spec fn timer_after_silence(timer: int, polls: int) -> int {
    timer + polls * (STATUS_POLL_SECONDS as int)
}

/// One silent poll, as `Session::handle_event` takes it: the timer after the poll, and
/// whether the session is dropped there.
pub open spec fn silent_poll(timer: int) -> (int, bool) {
    let t = timer + STATUS_POLL_SECONDS as int;
    (t, t >= STATUS_CHECK_INTERVAL as int)
}

/// `polls` silent polls in a row, each taken by `silent_poll` until one drops the session:
/// the timer at the end, and whether the session was dropped.
pub open spec fn silent_run(timer: int, polls: nat) -> (int, bool)
    decreases polls,
{
    if polls == 0 {
        (timer, false)
    } else {
        let (t, dropped) = silent_run(timer, (polls - 1) as nat);
        if dropped {
            (t, true)
        } else {
            silent_poll(t)
        }
    }
}

/// Silence closes the session: a session whose status timer stands at `timer` and that
/// receives nothing for `polls` polls has been dropped by the end of them exactly when
/// `timer + 5 * polls` reaches `STATUS_CHECK_INTERVAL`; until then its timer is
/// `timer + 5 * polls`.
pub proof fn lemma_silence_closes_session(timer: int, polls: nat)
    requires
        0 <= timer < STATUS_CHECK_INTERVAL,
    ensures
        silent_run(timer, polls).1 <==> timer_after_silence(timer, polls as int) >= STATUS_CHECK_INTERVAL,
        !silent_run(timer, polls).1 ==> silent_run(timer, polls).0 == timer_after_silence(timer, polls as int),
    decreases polls,
{
    if polls > 0 {
        lemma_silence_closes_session(timer, (polls - 1) as nat);
    }
}

/// The number of silent polls after which a session whose timer stands at `timer` is
/// dropped.
pub open spec fn polls_to_expiry(timer: int) -> int {
    ((STATUS_CHECK_INTERVAL as int) - timer + (STATUS_POLL_SECONDS as int) - 1) / (STATUS_POLL_SECONDS as int)
}

/// A session whose status timer stands at `timer` and that then receives nothing is
/// dropped exactly from the `polls_to_expiry(timer)`-th silent poll on: at every earlier
/// poll the timer is still below `STATUS_CHECK_INTERVAL`. From a fresh timer that is
/// the 36th poll, three minutes after the last status check.
pub proof fn lemma_silent_session_expires(timer: int, polls: int)
    requires
        0 <= timer < STATUS_CHECK_INTERVAL,
        polls >= 1,
    ensures
        timer_after_silence(timer, polls) >= STATUS_CHECK_INTERVAL <==> polls >= polls_to_expiry(timer),
        polls_to_expiry(timer) >= 1,
        timer == 0 ==> polls_to_expiry(timer) == 36,
{
}

/// What `screen_check` returns: the screen digit and the rest of the message, provided
/// the digit is the screen of the client's entry (a client without entry is not checked).
pub open spec fn screen_check_spec(text: Seq<char>, table: &ConnectionTable, addr: Seq<char>) -> Result<(char, Seq<char>), ProtocolError> {
    if text.len() == 0 {
        Err(ProtocolError::EmptyScreenState)
    } else if exists|i: int|
        0 <= i < table.entries@.len() && #[trigger] table.entries@[i].client_addr@ == addr
            && text[0] as int - '0' as int != screen_code(table.entries@[i].screen) {
        Err(ProtocolError::WrongScreen)
    } else {
        Ok((text[0], text.drop_first()))
    }
}

/// What passes the screen check is the whole message split at its first character:
/// nothing after the screen digit is dropped.
pub proof fn lemma_screen_check_splits_message(text: Seq<char>, table: &ConnectionTable, addr: Seq<char>)
    ensures
        screen_check_spec(text, table, addr) matches Ok((c, rest)) ==> seq![c] + rest == text,
{
    if text.len() > 0 {
        assert(seq![text[0]] + text.drop_first() =~= text);
    }
}

/// Once a handler has moved a connected client to a screen, the client's messages pass
/// the screen check exactly when they carry that screen's digit.
pub proof fn lemma_moved_client_speaks_from_new_screen(
    before: &ConnectionTable,
    after: &ConnectionTable,
    addr: Seq<char>,
    screen: ScreenState,
    text: Seq<char>,
)
    requires
        before.wf(),
        before.moved(after, addr, screen),
        before.has_addr(addr),
        text.len() > 0,
    ensures
        screen_check_spec(text, after, addr) is Ok <==> text[0] as int - '0' as int == screen_code(screen),
{
    let k = choose|k: int| 0 <= k < before.entries@.len() && #[trigger] before.entries@[k].client_addr@ == addr;
    assert(after.entries@[k].client_addr@ == addr);
    assert(after.entries@[k].screen == screen);
    assert forall|i: int| 0 <= i < after.entries@.len() && #[trigger] after.entries@[i].client_addr@ == addr
        implies after.entries@[i].screen == screen by {
        assert(before.entries@[i].client_addr@ == addr);
    }
}

/// Splits the screen digit off a client message and checks it against the screen the
/// client must be on. A message whose first character is not a digit, from a client
/// with an entry, makes the connection task panic; it is left out.
pub fn screen_check(text: &str, table: &ConnectionTable, addr: &str) -> (r: Result<(char, String), ProtocolError>)
    requires
        table.wf(),
        text@.len() > 0 && table.has_addr(addr@) ==> is_ascii_digit(text@[0]),
    ensures
        match (r, screen_check_spec(text@, table, addr@)) {
            (Ok((c, rest)), Ok((c2, rest2))) => c == c2 && rest@ == rest2,
            (Err(a), Err(b)) => a == b,
            _ => false,
        },
        r matches Ok((c, rest)) ==> seq![c] + rest@ == text@,
{
    let n = text.unicode_len();
    if n == 0 {
        return Err(ProtocolError::EmptyScreenState);
    }
    let first = text.get_char(0);
    match table.screen_of(addr) {
        Some(screen) => {
            let digit = (first as u32 - '0' as u32) as i32;
            if digit != screen.as_i32() {
                return Err(ProtocolError::WrongScreen);
            }
            proof {
                assert forall|i: int|
                    0 <= i < table.entries@.len() && #[trigger] table.entries@[i].client_addr@ == addr@
                    implies text@[0] as int - '0' as int == screen_code(table.entries@[i].screen) by {
                    let k = choose|k: int| 0 <= k < table.entries@.len() && #[trigger] table.entries@[k].client_addr@ == addr@
                        && table.entries@[k].screen == screen;
                    if i != k {
                        assert(table.entries@[i].client_addr@ != table.entries@[k].client_addr@);
                    }
                }
            }
        },
        None => {},
    }
    let rest = skip_chars(text, 1);
    assert(drop_chars(text@, 1) =~= text@.drop_first());
    assert(seq![first] + rest@ =~= text@);
    Ok((first, rest))
}

/// A fresh nonce: twenty random printable ASCII characters.
pub fn fresh_nonce() -> (n: String)
    ensures
        is_nonce(n@),
{
    let mut rng = os_seeded_rng();
    let mut s = String::new();
    let mut k: usize = 0;
    while k < NONCE_LENGTH
        invariant
            k <= NONCE_LENGTH,
            s@.len() == k,
            forall|i: int| 0 <= i < s@.len() ==> 32 <= (#[trigger] s@[i]) as u32 && (s@[i] as u32) < 127,
        decreases NONCE_LENGTH - k,
    {
        let c = printable_ascii(&mut rng);
        s.push(c);
        k = k + 1;
    }
    s
}


/// Something that happened on a client's connection.
pub enum ClientEvent {
    /// A text message arrived.
    Text(String),
    /// A binary message arrived.
    Binary,
    /// The client closed the connection.
    Close,
    /// Another kind of frame arrived (ping, pong, ...).
    Other,
    /// Reading from the connection failed.
    Failed,
    /// A poll interval passed without a message.
    Timeout,
}

/// Why a client's connection loop ends.
#[derive(Clone, Copy, Debug, PartialEq, Eq, Structural)]
pub enum StopReason {
    /// A message broke the protocol.
    Protocol(ProtocolError),
    /// The client closed the connection.
    Closed,
    /// Reading from the connection failed.
    Failed,
    /// No status check arrived in time.
    TimedOut,
}

/// What the connection loop does after an event.
pub enum LoopStep {
    /// Hand the message body to the handler of the screen named by the digit.
    Dispatch(char, String),
    /// Send this reply and keep going.
    Reply(String),
    /// Keep going.
    Continue,
    /// End the loop.
    Stop(StopReason),
}

/// The state the server keeps for one client connection.
pub struct Session {
    /// The client's address, as text.
    pub addr: String,
    /// The token handed to the client when it connected.
    pub token: String,
    /// Whether the client has handed its token back.
    pub token_exchanged: bool,
    /// The nonce every client message must start with, or `-1` before the handshake.
    pub nonce: String,
    /// The user the session is logged in as (empty before login).
    pub username: String,
    /// Seconds since the last accepted status check.
    pub status_check_timer: i32,
    /// The store the client chose (`-1` before that).
    pub shop_id: i32,
    /// The sign-up form awaiting email verification.
    pub sign_up_form: SignUpForm,
}

/// `after` is `before` once a status check was accepted: the timer restarts, a new
/// nonce is handed out with `reply`, and nothing else changes.
pub open spec fn status_accepted(before: &Session, after: &Session, reply: Seq<char>) -> bool {
    &&& after.status_check_timer == 0
    &&& is_nonce(after.nonce@)
    &&& reply == "STATUS"@ + after.nonce@
    &&& after.addr == before.addr
    &&& after.token == before.token
    &&& after.token_exchanged == before.token_exchanged
    &&& after.username == before.username
    &&& after.shop_id == before.shop_id
    &&& after.sign_up_form == before.sign_up_form
}

impl Session {
    /// The session's invariant: the status timer has not run out, and the nonce is
    /// either the placeholder or a real nonce.
    pub open spec fn wf(&self) -> bool {
        &&& 0 <= self.status_check_timer < STATUS_CHECK_INTERVAL
        &&& (self.nonce@ == no_nonce() || is_nonce(self.nonce@))
    }

    /// A session for a client that just connected and was handed `token`.
    pub fn new(addr: String, token: String) -> (s: Session)
        ensures
            s.wf(),
            s.addr@ == addr@,
            s.token@ == token@,
            !s.token_exchanged,
            s.nonce@ == no_nonce(),
            s.username@.len() == 0,
            s.status_check_timer == 0,
            s.shop_id == -1,
    {
        proof {
            reveal_strlit("-1");
        }
        Session {
            addr,
            token,
            token_exchanged: false,
            nonce: String::from_str("-1"),
            username: String::new(),
            status_check_timer: 0,
            shop_id: -1,
            sign_up_form: SignUpForm::new_empty(),
        }
    }

    /// One poll passed without a message: the status timer advances, and the session
    /// has expired once it reaches `STATUS_CHECK_INTERVAL`.
    pub fn tick(&mut self) -> (expired: bool)
        requires
            old(self).wf(),
        ensures
            final(self).status_check_timer == old(self).status_check_timer + STATUS_POLL_SECONDS,
            expired == (final(self).status_check_timer >= STATUS_CHECK_INTERVAL),
            !expired ==> final(self).wf(),
            final(self).nonce == old(self).nonce,
            final(self).token == old(self).token,
            final(self).token_exchanged == old(self).token_exchanged,
            final(self).username == old(self).username,
            final(self).shop_id == old(self).shop_id,
            final(self).addr == old(self).addr,
            final(self).sign_up_form == old(self).sign_up_form,
    {
        self.status_check_timer = self.status_check_timer + STATUS_POLL_SECONDS;
        self.status_check_timer >= STATUS_CHECK_INTERVAL
    }

    /// Decides what the connection loop does with an event: a text message is checked
    /// for the nonce and the screen and handed on; a binary message gets a fixed reply; a
    /// closed connection drops the client's table entry; a silent poll advances the status
    /// timer. A text whose screen character is not a digit must not come from a client
    /// with an entry; the connection task panics on it.
    pub fn handle_event(&mut self, event: ClientEvent, table: &mut ConnectionTable) -> (step: LoopStep)
        requires
            old(self).wf(),
            old(table).wf(),
            event matches ClientEvent::Text(t) ==> (nonce_check_spec(old(self).nonce@, t@) matches Ok(body)
                ==> (body.len() > 0 && old(table).has_addr(old(self).addr@) ==> is_ascii_digit(body[0]))),
        ensures
            final(table).wf(),
            final(self).addr == old(self).addr,
            final(self).token == old(self).token,
            final(self).nonce == old(self).nonce,
            final(self).username == old(self).username,
            final(self).shop_id == old(self).shop_id,
            !(event matches ClientEvent::Timeout) ==> *final(self) == *old(self),
            !(step matches LoopStep::Stop(_)) ==> final(self).wf(),
            match event {
                ClientEvent::Text(t) => match nonce_check_spec(old(self).nonce@, t@) {
                    Err(e) => step == LoopStep::Stop(StopReason::Protocol(e)),
                    Ok(body) => match screen_check_spec(body, old(table), old(self).addr@) {
                        Err(e) => step == LoopStep::Stop(StopReason::Protocol(e)),
                        Ok((c, rest)) => step matches LoopStep::Dispatch(c2, rest2) && c2 == c && rest2@ == rest,
                    },
                },
                ClientEvent::Binary => step matches LoopStep::Reply(reply) && reply@ == "are u hacking me UWU"@,
                ClientEvent::Close => {
                    &&& step == LoopStep::Stop(StopReason::Closed)
                    &&& !final(table).has_addr(old(self).addr@)
                    &&& old(table).has_addr(old(self).addr@) ==> exists|i: int|
                        0 <= i < old(table).entries@.len()
                        && #[trigger] old(table).entries@[i].client_addr@ == old(self).addr@
                        && final(table).entries@ == old(table).entries@.remove(i)
                    &&& !old(table).has_addr(old(self).addr@) ==> final(table).entries@ == old(table).entries@
                },
                ClientEvent::Other => step == LoopStep::Continue,
                ClientEvent::Failed => step == LoopStep::Stop(StopReason::Failed),
                ClientEvent::Timeout => {
                    &&& final(self).status_check_timer == silent_poll(old(self).status_check_timer as int).0
                    &&& (if silent_poll(old(self).status_check_timer as int).1 {
                        step == LoopStep::Stop(StopReason::TimedOut)
                    } else {
                        step == LoopStep::Continue
                    })
                },
            },
            !(event matches ClientEvent::Close) ==> final(table).entries@ == old(table).entries@,
            step matches LoopStep::Dispatch(c, rest) ==> event matches ClientEvent::Text(t)
                && t@ == (if old(self).nonce@ == no_nonce() { Seq::empty() } else { old(self).nonce@ }) + seq![c] + rest@,
    {
        proof {
            reveal_strlit("are u hacking me UWU");
        }
        match event {
            ClientEvent::Text(t) => {
                let body = match nonce_check(self.nonce.as_str(), t.as_str()) {
                    Ok(b) => b,
                    Err(e) => return LoopStep::Stop(StopReason::Protocol(e)),
                };
                match screen_check(body.as_str(), table, self.addr.as_str()) {
                    Ok((c, rest)) => {
                        proof {
                            if self.nonce@ != no_nonce() {
                                assert(take_chars(t@, NONCE_LENGTH as int) + body@ =~= t@);
                            }
                        }
                        LoopStep::Dispatch(c, rest)
                    },
                    Err(e) => LoopStep::Stop(StopReason::Protocol(e)),
                }
            },
            ClientEvent::Binary => LoopStep::Reply(String::from_str("are u hacking me UWU")),
            ClientEvent::Close => {
                table.remove_closed(self.addr.as_str());
                LoopStep::Stop(StopReason::Closed)
            },
            ClientEvent::Other => LoopStep::Continue,
            ClientEvent::Failed => LoopStep::Stop(StopReason::Failed),
            ClientEvent::Timeout => {
                if self.tick() {
                    LoopStep::Stop(StopReason::TimedOut)
                } else {
                    LoopStep::Continue
                }
            },
        }
    }

    /// Replaces the nonce by a fresh one and returns the message that hands it to the
    /// client: `STATUS` followed by the nonce.
    pub fn refresh_nonce(&mut self) -> (reply: String)
        ensures
            is_nonce(final(self).nonce@),
            reply@ == "STATUS"@ + final(self).nonce@,
            final(self).status_check_timer == old(self).status_check_timer,
            final(self).token == old(self).token,
            final(self).token_exchanged == old(self).token_exchanged,
            final(self).username == old(self).username,
            final(self).shop_id == old(self).shop_id,
            final(self).addr == old(self).addr,
            final(self).sign_up_form == old(self).sign_up_form,
    {
        let n = fresh_nonce();
        let mut reply = String::from_str("STATUS");
        reply.append(n.as_str());
        self.nonce = n;
        reply
    }

    /// A status check: accepted when it carries exactly `expected`, which restarts the
    /// status timer and hands the client a new nonce.
    pub fn status_check(&mut self, items: &str, expected: &str) -> (r: Result<String, ProtocolError>)
        requires
            old(self).wf(),
        ensures
            final(self).wf(),
            items@ == expected@ ==> (r matches Ok(reply) && status_accepted(old(self), final(self), reply@)),
            items@ != expected@ ==> (r == Err::<String, ProtocolError>(ProtocolError::InvalidStatusCheck)
                && *final(self) == *old(self)),
    {
        if same_text(items, expected) {
            self.status_check_timer = 0;
            Ok(self.refresh_nonce())
        } else {
            Err(ProtocolError::InvalidStatusCheck)
        }
    }

    /// Handles a token handshake message. `NEXT` moves the client to the start screen
    /// once its token was handed back; the client's own token is acknowledged with a
    /// first nonce (`0` followed by the nonce) and recorded in the connection table;
    /// anything else ends the session.
    pub fn token_exchange(&mut self, msg: &str, table: &mut ConnectionTable) -> (r: Result<String, ProtocolError>)
        requires
            old(self).wf(),
            old(table).wf(),
        ensures
            final(self).wf(),
            final(table).wf(),
            final(table).entries@.len() == old(table).entries@.len(),
            final(self).token == old(self).token,
            final(self).username == old(self).username,
            final(self).shop_id == old(self).shop_id,
            final(self).addr == old(self).addr,
            final(self).status_check_timer == old(self).status_check_timer,
            final(self).sign_up_form == old(self).sign_up_form,
            msg@ == "NEXT"@ ==> if old(self).token_exchanged {
                &&& r matches Ok(reply) && reply@ == "0NEXT"@
                &&& final(self).nonce == old(self).nonce
                &&& final(self).token_exchanged
                &&& old(table).moved(final(table), old(self).addr@, ScreenState::Start)
            } else {
                r == Err::<String, ProtocolError>(ProtocolError::TokenNotExchanged)
            },
            msg@ != "NEXT"@ && msg@ == old(self).token@ ==> {
                &&& r matches Ok(reply) && reply@ == "0"@ + final(self).nonce@
                &&& is_nonce(final(self).nonce@)
                &&& final(self).token_exchanged
                &&& forall|i: int| 0 <= i < old(table).entries@.len() ==> {
                    let before = #[trigger] old(table).entries@[i];
                    let after = final(table).entries@[i];
                    &&& after.client_addr == before.client_addr
                    &&& after.screen == before.screen
                    &&& after.token@ == (if before.client_addr@ == old(self).addr@ { old(self).token@ } else { before.token@ })
                }
            },
            msg@ != "NEXT"@ && msg@ != old(self).token@ ==> r == Err::<String, ProtocolError>(ProtocolError::TokenMismatch),
            r is Err ==> final(self).nonce == old(self).nonce && final(self).token_exchanged == old(self).token_exchanged
                && final(table).entries@ == old(table).entries@,
    {
        proof {
            reveal_strlit("NEXT");
            reveal_strlit("0NEXT");
            reveal_strlit("0");
        }
        if same_text(msg, "NEXT") {
            if self.token_exchanged {
                table.set_screen(self.addr.as_str(), ScreenState::Start);
                Ok(String::from_str("0NEXT"))
            } else {
                Err(ProtocolError::TokenNotExchanged)
            }
        } else if same_text(msg, self.token.as_str()) {
            let n = fresh_nonce();
            let mut reply = String::from_str("0");
            reply.append(n.as_str());
            self.nonce = n;
            self.token_exchanged = true;
            table.set_token(self.addr.as_str(), &self.token);
            Ok(reply)
        } else {
            Err(ProtocolError::TokenMismatch)
        }
    }
}

} // verus!
