use vstd::prelude::*;
use vstd::utf8::encode_utf8;
use crate::connection::ConnectionTable;
use crate::entropy::{os_seeded_rng, printable_ascii};
use crate::error::ProtocolError;
use crate::password::{
    NewAccount, argon2_accepts, argon2_verify, hash_new_password, hash_parses, login_accepted,
    phc_string_parses,
};
use crate::screen::ScreenState;
use crate::session::{Session, status_accepted};
use crate::text::{
    drop_chars, find_char, has_prefix, same_text,
    skip_chars, starts_with, take_chars, take_first_chars,
};

verus! {

/// What the start (login) screen asks of the server next.
pub enum StartAction {
    /// Send this reply; nothing else is needed.
    Reply(String),
    /// Look up the stored password hashes of `username` and check `password` against
    /// them (`Session::finish_login`).
    CheckLogin { username: String, password: String },
    /// Create a guest account (`guest_name_candidate`, `guest_account`,
    /// `Session::finish_guest`).
    CreateGuest,
}

/// `k` is the index of the first `c` in `s`.
pub open spec fn is_first_index(s: Seq<char>, c: char, k: int) -> bool {
    0 <= k < s.len() && s[k] == c && forall|j: int| 0 <= j < k ==> s[j] != c
}

/// The user name and password of a login request `LOGIN<user> <password>`: the text
/// before the first space, and the text after it.
pub open spec fn login_fields(rest: Seq<char>) -> (Seq<char>, Seq<char>) {
    let k = choose|k: int| is_first_index(rest, ' ', k);
    (rest.subrange(0, k), rest.subrange(k + 1, rest.len() as int))
}

/// A request to leave the start screen names its destination by one character.
pub open spec fn move_code(msg: Seq<char>) -> Seq<char> {
    take_chars(drop_chars(msg, 4), 1)
}

/// `after` is `before` logged in as `name`; nothing else changes.
pub open spec fn logged_in_as(before: &Session, after: &Session, name: Seq<char>) -> bool {
    &&& after.username@ == name
    &&& after.addr == before.addr
    &&& after.token == before.token
    &&& after.token_exchanged == before.token_exchanged
    &&& after.nonce == before.nonce
    &&& after.status_check_timer == before.status_check_timer
    &&& after.shop_id == before.shop_id
    &&& after.sign_up_form == before.sign_up_form
}

/// The texts of a list of strings.
pub open spec fn texts(v: Seq<String>) -> Seq<Seq<char>> {
    v.map_values(|s: String| s@)
}

/// Number of random characters after `Guest` in a guest user name.
pub const GUEST_SUFFIX_LENGTH: usize = 10;

/// The password every guest account is created with.
pub open spec fn guest_password() -> Seq<char> {
    "this is an amazing password"@
}

/// A candidate guest user name: `Guest` followed by ten random printable ASCII
/// characters. The caller checks that no user has it yet.
pub fn guest_name_candidate() -> (name: String)
    ensures
        starts_with(name@, "Guest"@),
        name@.len() == 5 + GUEST_SUFFIX_LENGTH,
        forall|i: int| 5 <= i < name@.len() ==> 32 <= (#[trigger] name@[i]) as u32 && (name@[i] as u32) < 127,
{
    proof {
        reveal_strlit("Guest");
    }
    let mut rng = os_seeded_rng();
    let mut name = String::from_str("Guest");
    let mut k: usize = 0;
    while k < GUEST_SUFFIX_LENGTH
        invariant
            k <= GUEST_SUFFIX_LENGTH,
            name@.len() == 5 + k,
            name@.subrange(0, 5) == "Guest"@,
            forall|i: int| 5 <= i < name@.len() ==> 32 <= (#[trigger] name@[i]) as u32 && (name@[i] as u32) < 127,
        decreases GUEST_SUFFIX_LENGTH - k,
    {
        let c = printable_ascii(&mut rng);
        let ghost before = name@;
        name.push(c);
        assert(name@.subrange(0, 5) =~= before.subrange(0, 5));
        k = k + 1;
    }
    name
}

/// The account row of a new guest called `name`: a fixed password (hashed under a fresh
/// salt) and placeholder personal details.
pub fn guest_account(name: String) -> (a: NewAccount)
    ensures
        a.username@ == name@,
        phc_string_parses(a.password_hash@),
        argon2_accepts(encode_utf8(guest_password()), a.password_hash@),
        a.first_name@ == "Reese"@,
        a.last_name@ == "Pineda"@,
        a.email@ == "thisIs@nEmail.com"@,
{
    proof {
        reveal_strlit("this is an amazing password");
        vstd::utf8::is_ascii_chars_encode_utf8(guest_password());
    }
    let hash = hash_new_password("this is an amazing password");
    NewAccount {
        username: name,
        password_hash: hash,
        first_name: String::from_str("Reese"),
        last_name: String::from_str("Pineda"),
        email: String::from_str("thisIs@nEmail.com"),
    }
}

/// Registered users are told apart from guests by a birth time of exactly midnight, so a
/// guest created at midnight has its creation time moved on by one second.
pub fn guest_time_needs_shift(hour: u32, minute: u32, second: u32) -> (r: bool)
    ensures
        r == (hour == 0 && minute == 0 && second == 0),
{
    hour == 0 && minute == 0 && second == 0
}

/// A user whose stored hash was made from a password logs in with that password: the
/// account rows that sign-up and guest creation store verify the password they were made
/// from.
pub proof fn lemma_stored_password_logs_in(password: Seq<char>, hash: Seq<char>, rest: Seq<Seq<char>>)
    requires
        argon2_accepts(encode_utf8(password), hash),
    ensures
        login_accepted(password, seq![hash] + rest),
{
    assert((seq![hash] + rest)[0] == hash);
}

impl Session {
    /// Decides a login request once the stored password hashes of the user are known
    /// (none when there is no such registered user): `1OK` and the session is logged in
    /// when the first hash verifies the password, `1FAIL` otherwise. The first hash must
    /// parse; where it does not, the connection task panics.
    pub fn login_verdict(&mut self, username: String, password: &str, stored_hashes: &Vec<String>) -> (reply: String)
        requires
            old(self).wf(),
            stored_hashes@.len() > 0 ==> phc_string_parses(stored_hashes@[0]@),
        ensures
            final(self).wf(),
            login_accepted(password@, texts(stored_hashes@)) ==> reply@ == "1OK"@ && logged_in_as(old(self), final(self), username@),
            !login_accepted(password@, texts(stored_hashes@)) ==> reply@ == "1FAIL"@ && *final(self) == *old(self),
    {
        proof {
            reveal_strlit("1OK");
            reveal_strlit("1FAIL");
        }
        let mut ok = false;
        if stored_hashes.len() > 0 {
            ok = argon2_verify(password.as_bytes(), stored_hashes[0].as_str());
        }
        if ok {
            self.username = username;
            String::from_str("1OK")
        } else {
            String::from_str("1FAIL")
        }
    }

    /// `login_verdict`, or `None` (and nothing changes) where the first stored hash does
    /// not parse, which makes the connection task panic.
    pub fn finish_login(&mut self, username: String, password: &str, stored_hashes: &Vec<String>) -> (reply: Option<String>)
        requires
            old(self).wf(),
        ensures
            final(self).wf(),
            reply is None <==> (stored_hashes@.len() > 0 && !phc_string_parses(stored_hashes@[0]@)),
            reply is None ==> *final(self) == *old(self),
            reply matches Some(reply) ==> {
                &&& login_accepted(password@, texts(stored_hashes@)) ==> reply@ == "1OK"@ && logged_in_as(old(self), final(self), username@)
                &&& !login_accepted(password@, texts(stored_hashes@)) ==> reply@ == "1FAIL"@ && *final(self) == *old(self)
            },
    {
        if stored_hashes.len() > 0 && !hash_parses(stored_hashes[0].as_str()) {
            return None;
        }
        Some(self.login_verdict(username, password, stored_hashes))
    }

    /// The session continues as the new guest `name`; the reply hands the name to the
    /// client (`1GUEST<name>`).
    pub fn finish_guest(&mut self, name: String) -> (reply: String)
        requires
            old(self).wf(),
        ensures
            final(self).wf(),
            reply@ == "1GUEST"@ + name@,
            logged_in_as(old(self), final(self), name@),
    {
        let mut reply = String::from_str("1GUEST");
        reply.append(name.as_str());
        self.username = name;
        reply
    }

    /// Handles a message on the start screen.
    /// - `STATUS<token>`: a status check;
    /// - `LOGIN<user> <password>`: a login request (without a space the connection task
    ///   panics; such messages are left out);
    /// - `NEXT2`: move to sign-up; `NEXT3<user>`: move to the store locator as the
    ///   session's user;
    /// - `GUEST...`: continue as a new guest;
    /// - anything else ends the session.
    pub fn start_screen(&mut self, msg: &str, table: &mut ConnectionTable) -> (r: Result<StartAction, ProtocolError>)
        requires
            old(self).wf(),
            old(table).wf(),
            starts_with(msg@, "LOGIN"@) ==> exists|k: int| is_first_index(drop_chars(msg@, 5), ' ', k),
        ensures
            final(self).wf(),
            final(table).wf(),
            starts_with(msg@, "STATUS"@) ==> if drop_chars(msg@, 6) == old(self).token@ {
                &&& r matches Ok(StartAction::Reply(reply))
                &&& status_accepted(old(self), final(self), reply@)
                &&& final(table).entries@ == old(table).entries@
            } else {
                r == Err::<StartAction, ProtocolError>(ProtocolError::InvalidStatusCheck) && *final(self) == *old(self)
            },
            !starts_with(msg@, "STATUS"@) ==> *final(self) == *old(self),
            !starts_with(msg@, "STATUS"@) && starts_with(msg@, "LOGIN"@) ==> {
                &&& r matches Ok(StartAction::CheckLogin { username, password })
                &&& (username@, password@) == login_fields(drop_chars(msg@, 5))
            },
            !starts_with(msg@, "STATUS"@) && !starts_with(msg@, "LOGIN"@) && starts_with(msg@, "NEXT"@) ==> {
                if move_code(msg@) == "2"@ {
                    &&& r matches Ok(StartAction::Reply(reply)) && reply@ == "1NEXT2"@
                    &&& old(table).moved(final(table), old(self).addr@, ScreenState::SignUp)
                } else if move_code(msg@) == "3"@ {
                    if drop_chars(msg@, 5) == old(self).username@ {
                        &&& r matches Ok(StartAction::Reply(reply)) && reply@ == "1NEXT3"@
                        &&& old(table).moved(final(table), old(self).addr@, ScreenState::StoreLocator)
                    } else {
                        r == Err::<StartAction, ProtocolError>(ProtocolError::InvalidSessionUsername)
                    }
                } else {
                    r == Err::<StartAction, ProtocolError>(ProtocolError::InvalidMoveCode)
                }
            },
            !starts_with(msg@, "STATUS"@) && !starts_with(msg@, "LOGIN"@) && !starts_with(msg@, "NEXT"@)
                ==> if starts_with(msg@, "GUEST"@) {
                r matches Ok(StartAction::CreateGuest)
            } else {
                r == Err::<StartAction, ProtocolError>(ProtocolError::UnknownMessage)
            },
            !(r matches Ok(StartAction::Reply(_))) ==> final(table).entries@ == old(table).entries@,
            !starts_with(msg@, "NEXT"@) ==> final(table).entries@ == old(table).entries@,
    {
        proof {
            reveal_strlit("STATUS");
            reveal_strlit("LOGIN");
            reveal_strlit("NEXT");
            reveal_strlit("GUEST");
            reveal_strlit("2");
            reveal_strlit("3");
            reveal_strlit("1NEXT2");
            reveal_strlit("1NEXT3");
        }
        if has_prefix(msg, "STATUS") {
            let items = skip_chars(msg, 6);
            let token = self.token.clone();
            match self.status_check(items.as_str(), token.as_str()) {
                Ok(reply) => Ok(StartAction::Reply(reply)),
                Err(e) => Err(e),
            }
        } else if has_prefix(msg, "LOGIN") {
            let rest = skip_chars(msg, 5);
            let ghost rs = rest@;
            match find_char(rest.as_str(), ' ') {
                Some(k) => {
                    proof {
                        assert(is_first_index(rs, ' ', k as int));
                        let kk = choose|kk: int| is_first_index(rs, ' ', kk);
                        assert(kk == k) by {
                            if kk < k {
                                assert(rs[kk] != ' ');
                            } else if kk > k {
                                assert(rs[k as int] != ' ');
                            }
                        }
                    }
                    let n = rest.as_str().unicode_len();
                    let username = String::from_str(rest.as_str().substring_char(0, k));
                    let password = String::from_str(rest.as_str().substring_char(k + 1, n));
                    Ok(StartAction::CheckLogin { username, password })
                },
                None => {
                    assert(false);
                    Err(ProtocolError::UnknownMessage)
                },
            }
        } else if has_prefix(msg, "NEXT") {
            let after = skip_chars(msg, 4);
            let code = take_first_chars(after.as_str(), 1);
            if same_text(code.as_str(), "2") {
                table.set_screen(self.addr.as_str(), ScreenState::SignUp);
                Ok(StartAction::Reply(String::from_str("1NEXT2")))
            } else if same_text(code.as_str(), "3") {
                let name = skip_chars(msg, 5);
                if same_text(name.as_str(), self.username.as_str()) {
                    table.set_screen(self.addr.as_str(), ScreenState::StoreLocator);
                    Ok(StartAction::Reply(String::from_str("1NEXT3")))
                } else {
                    Err(ProtocolError::InvalidSessionUsername)
                }
            } else {
                Err(ProtocolError::InvalidMoveCode)
            }
        } else if has_prefix(msg, "GUEST") {
            Ok(StartAction::CreateGuest)
        } else {
            Err(ProtocolError::UnknownMessage)
        }
    }
}

} // verus!
