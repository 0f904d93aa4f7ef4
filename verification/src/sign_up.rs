use vstd::prelude::*;
use chrono::{Datelike, Timelike};
use crate::connection::ConnectionTable;
use crate::error::{FormField, ProtocolError};
use crate::login::move_code;
use crate::password::{NewAccount, argon2_accepts, hash_new_password, phc_string_parses};
use crate::screen::ScreenState;
use crate::session::{Session, status_accepted};
use crate::text::{drop_chars, skip_chars, starts_with, take_first_chars};
use vstd::utf8::encode_utf8;
use crate::text::{
    has_prefix, is_ascii_char, is_ascii_control, is_ascii_lowercase, is_ascii_uppercase,
    ends_with, is_numeric, is_whitespace, same_text, unicode_numeric, unicode_whitespace,
};

verus! {

/// A calendar date and time of day, as the date parser reads it.
#[derive(Clone, Copy, Debug, PartialEq, Eq, Structural)]
pub struct CivilDateTime {
    pub year: i32,
    pub month: u32,
    pub day: u32,
    pub hour: u32,
    pub minute: u32,
    pub second: u32,
}

/// The sign-up form a client submitted.
pub struct SignUpForm {
    pub username: String,
    pub password: String,
    pub first_name: String,
    pub last_name: String,
    /// The date of birth as submitted, still in its JSON quotes.
    pub dob_string: String,
    /// The date of birth once read; `None` until then.
    pub dob: Option<CivilDateTime>,
    pub email: String,
}

impl SignUpForm {
    /// A form with every field empty.
    pub fn new_empty() -> (f: SignUpForm)
        ensures
            f.username@.len() == 0,
            f.password@.len() == 0,
            f.first_name@.len() == 0,
            f.last_name@.len() == 0,
            f.dob_string@.len() == 0,
            f.dob is None,
            f.email@.len() == 0,
    {
        SignUpForm {
            username: String::new(),
            password: String::new(),
            first_name: String::new(),
            last_name: String::new(),
            dob_string: String::new(),
            dob: None,
            email: String::new(),
        }
    }

    /// Records the date of birth that was read.
    pub fn add_dob(&mut self, dob: &CivilDateTime)
        ensures
            final(self).dob == Some(*dob),
            final(self).username == old(self).username,
            final(self).password == old(self).password,
            final(self).first_name == old(self).first_name,
            final(self).last_name == old(self).last_name,
            final(self).dob_string == old(self).dob_string,
            final(self).email == old(self).email,
    {
        self.dob = Some(*dob);
    }
}


/// Whether `serde_json` reads `text` as JSON, and if so the JSON text (`to_string`) of
/// its member `key` (`null` when there is none).
pub uninterp spec fn json_member(text: Seq<char>, key: Seq<char>) -> Option<Seq<char>>;

/// `serde_json::from_str::<Value>(text)` and then `value[key].to_string()`. The result
/// is named by `json_member`; the JSON grammar and printer are not restated.
#[verifier::external_body]
pub(crate) fn json_member_text(text: &str, key: &str) -> (r: Option<String>)
    ensures
        match r {
            Some(m) => json_member(text@, key@) == Some(m@),
            None => json_member(text@, key@) is None,
        },
{
    match serde_json::from_str::<serde_json::Value>(text) {
        Ok(v) => Some(v[key].to_string()),
        Err(_) => None,
    }
}

/// Whether `serde_email::is_valid_email` accepts `email`.
pub uninterp spec fn email_address_valid(email: Seq<char>) -> bool;

/// `serde_email::is_valid_email(email)`. The result is named by `email_address_valid`;
/// the address grammar it checks is not restated.
#[verifier::external_body]
pub(crate) fn email_is_valid(email: &str) -> (r: bool)
    ensures
        r == email_address_valid(email@),
{
    serde_email::is_valid_email(email)
}

/// What `chrono::NaiveDateTime::parse_from_str(text, format)` gives: the date and time
/// it read (year, month, day, hour, minute, second), or the text of its error.
pub uninterp spec fn naive_datetime_parse(text: Seq<char>, format: Seq<char>) -> Result<(i32, u32, u32, u32, u32, u32), Seq<char>>;

/// The texts chrono's `ParseError` displays as.
pub open spec fn chrono_parse_error_text(e: Seq<char>) -> bool {
    ||| e == "input is out of range"@
    ||| e == "no possible date and time matching input"@
    ||| e == "input is not enough for unique date and time"@
    ||| e == "input contains invalid characters"@
    ||| e == "premature end of input"@
    ||| e == "trailing input"@
    ||| e == "bad or unsupported format string"@
}

/// `chrono::NaiveDateTime::parse_from_str(text, format)`, the date and time as plain
/// numbers, the error as its display text. The result is named by
/// `naive_datetime_parse`. Claimed besides: from chrono's `Display` for `ParseError`,
/// that an error displays as one of seven fixed texts; and, from chrono's parser
/// (`format/parse.rs`: literals must match exactly, hour, minute and second read at most
/// two digits, and input left over is an error), that with the date-of-birth format,
/// whose text ends in `%H:%M:%S`, a text ending in ` 00:00:00` parses, if at all, to
/// midnight.
#[verifier::external_body]
pub(crate) fn parse_datetime(text: &str, format: &str) -> (r: Result<CivilDateTime, String>)
    ensures
        match r {
            Ok(d) => naive_datetime_parse(text@, format@) == Ok::<(i32, u32, u32, u32, u32, u32), Seq<char>>(
                (d.year, d.month, d.day, d.hour, d.minute, d.second),
            ),
            Err(e) => naive_datetime_parse(text@, format@) == Err::<(i32, u32, u32, u32, u32, u32), Seq<char>>(e@)
                && chrono_parse_error_text(e@),
        },
        format@ == dob_format() && ends_with(text@, " 00:00:00"@)
            ==> (r matches Ok(d) ==> d.hour == 0 && d.minute == 0 && d.second == 0),
{
    match chrono::NaiveDateTime::parse_from_str(text, format) {
        Ok(d) => Ok(CivilDateTime {
            year: d.year(),
            month: d.month(),
            day: d.day(),
            hour: d.hour(),
            minute: d.minute(),
            second: d.second(),
        }),
        Err(e) => Err(e.to_string()),
    }
}

/// A class of characters the sign-up checks look for.
#[derive(Clone, Copy, Debug, PartialEq, Eq, Structural)]
pub enum CharClass {
    Control,
    NonAscii,
    Whitespace,
    Banned,
    Lowercase,
    Uppercase,
    Numeric,
}

/// The characters user names and passwords may not hold.
pub open spec fn banned_chars() -> Seq<char> {
    seq!['\\', '{', '}', '[', ']', ':', '"', '\'']
}

pub open spec fn in_class(c: char, class: CharClass) -> bool {
    match class {
        CharClass::Control => is_ascii_control(c),
        CharClass::NonAscii => !is_ascii_char(c),
        CharClass::Whitespace => unicode_whitespace(c),
        CharClass::Banned => banned_chars().contains(c),
        CharClass::Lowercase => is_ascii_lowercase(c),
        CharClass::Uppercase => is_ascii_uppercase(c),
        CharClass::Numeric => unicode_numeric(c),
    }
}

/// Some character of `s` is in `class`.
pub open spec fn has_class(s: Seq<char>, class: CharClass) -> bool {
    exists|i: int| 0 <= i < s.len() && #[trigger] in_class(s[i], class)
}

fn char_in_class(c: char, class: CharClass) -> (r: bool)
    ensures
        r == in_class(c, class),
{
    match class {
        CharClass::Control => (c as u32) < 32 || (c as u32) == 127,
        CharClass::NonAscii => (c as u32) >= 128,
        CharClass::Whitespace => is_whitespace(c),
        CharClass::Banned => {
            let r = c == '\\' || c == '{' || c == '}' || c == '[' || c == ']' || c == ':' || c == '"' || c == '\'';
            proof {
                if r {
                    if c == '\\' { assert(banned_chars()[0] == c); }
                    if c == '{' { assert(banned_chars()[1] == c); }
                    if c == '}' { assert(banned_chars()[2] == c); }
                    if c == '[' { assert(banned_chars()[3] == c); }
                    if c == ']' { assert(banned_chars()[4] == c); }
                    if c == ':' { assert(banned_chars()[5] == c); }
                    if c == '"' { assert(banned_chars()[6] == c); }
                    if c == '\'' { assert(banned_chars()[7] == c); }
                } else {
                    assert forall|i: int| 0 <= i < banned_chars().len() implies banned_chars()[i] != c by {}
                }
            }
            r
        },
        CharClass::Lowercase => 'a' <= c && c <= 'z',
        CharClass::Uppercase => 'A' <= c && c <= 'Z',
        CharClass::Numeric => is_numeric(c),
    }
}

/// Whether some character of `s` is in `class`.
pub fn contains_class(s: &str, class: CharClass) -> (r: bool)
    ensures
        r == has_class(s@, class),
{
    let n = s.unicode_len();
    let mut i: usize = 0;
    while i < n
        invariant
            n == s@.len(),
            i <= n,
            forall|j: int| 0 <= j < i ==> !in_class(s@[j], class),
        decreases n - i,
    {
        if char_in_class(s.get_char(i), class) {
            return true;
        }
        i = i + 1;
    }
    false
}


/// `s` without its first and last character.
pub open spec fn unquoted(s: Seq<char>) -> Seq<char> {
    s.subrange(1, s.len() - 1)
}

/// The first and last byte of `s` can be cut off: it has at least two characters and
/// both ends are ASCII (the JSON texts of all values are so).
pub open spec fn quotable(s: Seq<char>) -> bool {
    s.len() >= 2 && is_ascii_char(s[0]) && is_ascii_char(s[s.len() - 1])
}

/// `s` without its first and last character.
fn strip_ends(s: &String) -> (r: String)
    requires
        s@.len() >= 2,
    ensures
        r@ == unquoted(s@),
{
    let n = s.as_str().unicode_len();
    String::from_str(s.as_str().substring_char(1, n - 1))
}

impl SignUpForm {
    /// Takes the JSON quotes off the user name, password, names and email (not off the
    /// date of birth). Each of them must have ASCII characters at both ends and at least
    /// two characters; otherwise the connection task panics.
    pub fn remove_quotes(&mut self)
        requires
            quotable(old(self).username@),
            quotable(old(self).password@),
            quotable(old(self).first_name@),
            quotable(old(self).last_name@),
            quotable(old(self).email@),
        ensures
            final(self).username@ == unquoted(old(self).username@),
            final(self).password@ == unquoted(old(self).password@),
            final(self).first_name@ == unquoted(old(self).first_name@),
            final(self).last_name@ == unquoted(old(self).last_name@),
            final(self).email@ == unquoted(old(self).email@),
            final(self).dob_string == old(self).dob_string,
            final(self).dob == old(self).dob,
    {
        self.username = strip_ends(&self.username);
        self.password = strip_ends(&self.password);
        self.first_name = strip_ends(&self.first_name);
        self.last_name = strip_ends(&self.last_name);
        self.email = strip_ends(&self.email);
    }
}

/// A field the client left empty (or sent as an empty JSON string).
pub open spec fn blank(s: Seq<char>) -> bool {
    s.len() == 0 || s == seq!['"', '"']
}

pub open spec fn msg_username_whitespace() -> Seq<char> {
    "username cannot contain whitespace characters\n"@
}

pub open spec fn msg_banned() -> Seq<char> {
    "username contains banned characters (\\{}[]:\"\')\n"@
}

pub open spec fn msg_password_short() -> Seq<char> {
    "password cannot be less than 8 characters\n"@
}

pub open spec fn msg_password_lower() -> Seq<char> {
    "password does not have lower case characters\n"@
}

pub open spec fn msg_password_upper() -> Seq<char> {
    "password does not have upper case characters\n"@
}

pub open spec fn msg_password_numeric() -> Seq<char> {
    "password does not have numeric characters\n"@
}

pub open spec fn msg_email_invalid() -> Seq<char> {
    "email is not valid\n"@
}

pub open spec fn msg_dob_prefix() -> Seq<char> {
    "failed to parse date of birth: "@
}

/// The format the date of birth is read with, quotes included.
pub open spec fn dob_format() -> Seq<char> {
    "\"%Y-%m-%d\" %H:%M:%S"@
}

/// What the user name contributes to the form's findings: a reason to end the session,
/// or the messages to show the user.
pub open spec fn username_findings(u: Seq<char>) -> Result<Seq<char>, ProtocolError> {
    if blank(u) {
        Err(ProtocolError::EmptyField(FormField::Username))
    } else if has_class(u, CharClass::Control) {
        Err(ProtocolError::ControlCharacters(FormField::Username))
    } else if has_class(u, CharClass::Whitespace) {
        Ok(msg_username_whitespace())
    } else if has_class(u, CharClass::Banned) {
        Ok(msg_banned())
    } else {
        Ok(Seq::empty())
    }
}

/// What the password contributes to the form's findings.
pub open spec fn password_findings(p: Seq<char>) -> Result<Seq<char>, ProtocolError> {
    if blank(p) {
        Err(ProtocolError::EmptyField(FormField::Password))
    } else if has_class(p, CharClass::NonAscii) || has_class(p, CharClass::Control) {
        Err(ProtocolError::ControlCharacters(FormField::Password))
    } else if has_class(p, CharClass::Banned) {
        Ok(msg_banned())
    } else {
        Ok((if p.len() < 8 { msg_password_short() } else { Seq::empty() })
            + (if !has_class(p, CharClass::Lowercase) { msg_password_lower() } else { Seq::empty() })
            + (if !has_class(p, CharClass::Uppercase) { msg_password_upper() } else { Seq::empty() })
            + (if !has_class(p, CharClass::Numeric) { msg_password_numeric() } else { Seq::empty() }))
    }
}

/// The password rules: a password that is not blank, is printable ASCII and holds no
/// banned character gets one message line for each rule it breaks, in this order: fewer
/// than 8 characters; no lower case letter `a` to `z`; no upper case letter `A` to `Z`;
/// no numeric character.
pub proof fn lemma_password_rules(p: Seq<char>)
    requires
        p.len() > 0,
        p != seq!['"', '"'],
        forall|i: int| 0 <= i < p.len() ==> 32 <= (#[trigger] p[i]) as u32 && (p[i] as u32) < 127,
        forall|i: int| 0 <= i < p.len() ==> !banned_chars().contains(#[trigger] p[i]),
    ensures
        password_findings(p) == Ok::<Seq<char>, ProtocolError>(
            (if p.len() < 8 { msg_password_short() } else { Seq::empty() })
            + (if forall|i: int| 0 <= i < p.len() ==> !('a' <= #[trigger] p[i] && p[i] <= 'z') {
                msg_password_lower()
            } else {
                Seq::empty()
            })
            + (if forall|i: int| 0 <= i < p.len() ==> !('A' <= #[trigger] p[i] && p[i] <= 'Z') {
                msg_password_upper()
            } else {
                Seq::empty()
            })
            + (if forall|i: int| 0 <= i < p.len() ==> !unicode_numeric(#[trigger] p[i]) {
                msg_password_numeric()
            } else {
                Seq::empty()
            }),
        ),
{
    assert(!blank(p));
    assert(!has_class(p, CharClass::NonAscii) && !has_class(p, CharClass::Control)) by {
        assert forall|i: int| 0 <= i < p.len() implies !#[trigger] in_class(p[i], CharClass::NonAscii)
            && !in_class(p[i], CharClass::Control) by {
            assert(32 <= p[i] as u32 && (p[i] as u32) < 127);
        }
    }
    assert(!has_class(p, CharClass::Banned)) by {
        assert forall|i: int| 0 <= i < p.len() implies !#[trigger] in_class(p[i], CharClass::Banned) by {
            assert(!banned_chars().contains(p[i]));
        }
    }
    assert(has_class(p, CharClass::Lowercase) <==> exists|i: int| 0 <= i < p.len() && 'a' <= #[trigger] p[i] && p[i] <= 'z') by {
        if has_class(p, CharClass::Lowercase) {
            let i = choose|i: int| 0 <= i < p.len() && #[trigger] in_class(p[i], CharClass::Lowercase);
            assert('a' <= p[i] && p[i] <= 'z');
        }
        if exists|i: int| 0 <= i < p.len() && 'a' <= #[trigger] p[i] && p[i] <= 'z' {
            let i = choose|i: int| 0 <= i < p.len() && 'a' <= #[trigger] p[i] && p[i] <= 'z';
            assert(in_class(p[i], CharClass::Lowercase));
        }
    }
    assert(has_class(p, CharClass::Uppercase) <==> exists|i: int| 0 <= i < p.len() && 'A' <= #[trigger] p[i] && p[i] <= 'Z') by {
        if has_class(p, CharClass::Uppercase) {
            let i = choose|i: int| 0 <= i < p.len() && #[trigger] in_class(p[i], CharClass::Uppercase);
            assert('A' <= p[i] && p[i] <= 'Z');
        }
        if exists|i: int| 0 <= i < p.len() && 'A' <= #[trigger] p[i] && p[i] <= 'Z' {
            let i = choose|i: int| 0 <= i < p.len() && 'A' <= #[trigger] p[i] && p[i] <= 'Z';
            assert(in_class(p[i], CharClass::Uppercase));
        }
    }
    assert(has_class(p, CharClass::Numeric) <==> exists|i: int| 0 <= i < p.len() && unicode_numeric(#[trigger] p[i])) by {
        if has_class(p, CharClass::Numeric) {
            let i = choose|i: int| 0 <= i < p.len() && #[trigger] in_class(p[i], CharClass::Numeric);
            assert(unicode_numeric(p[i]));
        }
        if exists|i: int| 0 <= i < p.len() && unicode_numeric(#[trigger] p[i]) {
            let i = choose|i: int| 0 <= i < p.len() && unicode_numeric(#[trigger] p[i]);
            assert(in_class(p[i], CharClass::Numeric));
        }
    }
}

/// In the review of a whole form, the password's message lines come right after the
/// user name's: when the form raises no reason to end the session, its messages are
/// those of the user name, then those of the password, then the rest.
pub proof fn lemma_form_messages_after_username_then_password(
    username: Seq<char>,
    password: Seq<char>,
    first_name: Seq<char>,
    last_name: Seq<char>,
    dob_string: Seq<char>,
    email: Seq<char>,
)
    ensures
        form_findings_of(username, password, first_name, last_name, dob_string, email) matches Ok((m, _)) ==> {
            &&& username_findings(username) matches Ok(mu)
            &&& password_findings(password) matches Ok(mp)
            &&& m.subrange(0, (mu.len() + mp.len()) as int) == mu + mp
        },
{
    if let Ok((m, _)) = form_findings_of(username, password, first_name, last_name, dob_string, email) {
        let mu = username_findings(username)->Ok_0;
        let mp = password_findings(password)->Ok_0;
        assert(m.subrange(0, (mu.len() + mp.len()) as int) =~= mu + mp);
    }
}

/// What a first or last name contributes to the form's findings.
pub open spec fn name_findings(s: Seq<char>, field: FormField) -> Result<Seq<char>, ProtocolError> {
    if blank(s) {
        Err(ProtocolError::EmptyField(field))
    } else if has_class(s, CharClass::Control) {
        Err(ProtocolError::ControlCharacters(field))
    } else {
        Ok(Seq::empty())
    }
}

/// What the date of birth contributes: the message to show, and the date when it was
/// read.
pub open spec fn dob_findings(d: Seq<char>) -> Result<(Seq<char>, Option<CivilDateTime>), ProtocolError> {
    if blank(d) {
        Err(ProtocolError::EmptyField(FormField::DateOfBirth))
    } else {
        match naive_datetime_parse(d + " 00:00:00"@, dob_format()) {
            Ok((year, month, day, hour, minute, second)) => Ok(
                (Seq::empty(), Some(CivilDateTime { year, month, day, hour, minute, second })),
            ),
            Err(e) => Ok((msg_dob_prefix() + e + "\n"@, None)),
        }
    }
}

/// What the email contributes to the form's findings.
pub open spec fn email_findings(e: Seq<char>) -> Result<Seq<char>, ProtocolError> {
    if blank(e) {
        Err(ProtocolError::EmptyField(FormField::Email))
    } else if has_class(e, CharClass::NonAscii) || has_class(e, CharClass::Control) {
        Err(ProtocolError::ControlCharacters(FormField::Email))
    } else if !email_address_valid(e) {
        Ok(msg_email_invalid())
    } else {
        Ok(Seq::empty())
    }
}

/// The findings on a whole form, field by field in the order the server checks them:
/// the first reason to end the session, or the messages for the user and the date of
/// birth that was read.
pub open spec fn form_findings(f: &SignUpForm) -> Result<(Seq<char>, Option<CivilDateTime>), ProtocolError> {
    form_findings_of(f.username@, f.password@, f.first_name@, f.last_name@, f.dob_string@, f.email@)
}

/// `form_findings` of a form with these field texts.
pub open spec fn form_findings_of(
    username: Seq<char>,
    password: Seq<char>,
    first_name: Seq<char>,
    last_name: Seq<char>,
    dob_string: Seq<char>,
    email: Seq<char>,
) -> Result<(Seq<char>, Option<CivilDateTime>), ProtocolError> {
    match username_findings(username) {
        Err(e) => Err(e),
        Ok(m1) => match password_findings(password) {
            Err(e) => Err(e),
            Ok(m2) => match name_findings(first_name, FormField::FirstName) {
                Err(e) => Err(e),
                Ok(m3) => match name_findings(last_name, FormField::LastName) {
                    Err(e) => Err(e),
                    Ok(m4) => match dob_findings(dob_string) {
                        Err(e) => Err(e),
                        Ok((m5, dob)) => match email_findings(email) {
                            Err(e) => Err(e),
                            Ok(m6) => Ok((m1 + m2 + m3 + m4 + m5 + m6, dob)),
                        },
                    },
                },
            },
        },
    }
}

fn is_blank(s: &String) -> (r: bool)
    ensures
        r == blank(s@),
{
    proof {
        reveal_strlit("\"\"");
    }
    assert("\"\""@ =~= seq!['"', '"']);
    s.as_str().unicode_len() == 0 || same_text(s.as_str(), "\"\"")
}

fn check_username(u: &String) -> (r: Result<String, ProtocolError>)
    ensures
        match (r, username_findings(u@)) {
            (Ok(a), Ok(b)) => a@ == b,
            (Err(a), Err(b)) => a == b,
            _ => false,
        },
{
    proof {
        reveal_strlit("username cannot contain whitespace characters\n");
        reveal_strlit("username contains banned characters (\\{}[]:\"\')\n");
    }
    if is_blank(u) {
        Err(ProtocolError::EmptyField(FormField::Username))
    } else if contains_class(u.as_str(), CharClass::Control) {
        Err(ProtocolError::ControlCharacters(FormField::Username))
    } else if contains_class(u.as_str(), CharClass::Whitespace) {
        Ok(String::from_str("username cannot contain whitespace characters\n"))
    } else if contains_class(u.as_str(), CharClass::Banned) {
        Ok(String::from_str("username contains banned characters (\\{}[]:\"\')\n"))
    } else {
        Ok(String::new())
    }
}

fn check_password(p: &String) -> (r: Result<String, ProtocolError>)
    ensures
        match (r, password_findings(p@)) {
            (Ok(a), Ok(b)) => a@ == b,
            (Err(a), Err(b)) => a == b,
            _ => false,
        },
{
    proof {
        reveal_strlit("username contains banned characters (\\{}[]:\"\')\n");
        reveal_strlit("password cannot be less than 8 characters\n");
        reveal_strlit("password does not have lower case characters\n");
        reveal_strlit("password does not have upper case characters\n");
        reveal_strlit("password does not have numeric characters\n");
    }
    if is_blank(p) {
        return Err(ProtocolError::EmptyField(FormField::Password));
    }
    if contains_class(p.as_str(), CharClass::NonAscii) || contains_class(p.as_str(), CharClass::Control) {
        return Err(ProtocolError::ControlCharacters(FormField::Password));
    }
    if contains_class(p.as_str(), CharClass::Banned) {
        return Ok(String::from_str("username contains banned characters (\\{}[]:\"\')\n"));
    }
    let mut m = String::new();
    let ghost m0 = m@;
    if p.as_str().unicode_len() < 8 {
        m.append("password cannot be less than 8 characters\n");
    }
    let ghost m1 = m@;
    if !contains_class(p.as_str(), CharClass::Lowercase) {
        m.append("password does not have lower case characters\n");
    }
    let ghost m2 = m@;
    if !contains_class(p.as_str(), CharClass::Uppercase) {
        m.append("password does not have upper case characters\n");
    }
    let ghost m3 = m@;
    if !contains_class(p.as_str(), CharClass::Numeric) {
        m.append("password does not have numeric characters\n");
    }
    proof {
        let a = if p@.len() < 8 { msg_password_short() } else { Seq::<char>::empty() };
        let b = if !has_class(p@, CharClass::Lowercase) { msg_password_lower() } else { Seq::<char>::empty() };
        let c = if !has_class(p@, CharClass::Uppercase) { msg_password_upper() } else { Seq::<char>::empty() };
        let d = if !has_class(p@, CharClass::Numeric) { msg_password_numeric() } else { Seq::<char>::empty() };
        assert(m1 =~= a);
        assert(m2 =~= a + b);
        assert(m3 =~= a + b + c);
        assert(m@ =~= a + b + c + d);
    }
    Ok(m)
}

fn check_name(s: &String, field: FormField) -> (r: Result<(), ProtocolError>)
    ensures
        match (r, name_findings(s@, field)) {
            (Ok(_), Ok(b)) => b.len() == 0,
            (Err(a), Err(b)) => a == b,
            _ => false,
        },
{
    if is_blank(s) {
        Err(ProtocolError::EmptyField(field))
    } else if contains_class(s.as_str(), CharClass::Control) {
        Err(ProtocolError::ControlCharacters(field))
    } else {
        Ok(())
    }
}

fn check_dob(d: &String) -> (r: Result<(String, Option<CivilDateTime>), ProtocolError>)
    ensures
        match (r, dob_findings(d@)) {
            (Ok((a, x)), Ok((b, y))) => a@ == b && x == y,
            (Err(a), Err(b)) => a == b,
            _ => false,
        },
        r matches Ok((_, Some(t))) ==> (t.hour == 0 && t.minute == 0 && t.second == 0),
{
    proof {
        reveal_strlit(" 00:00:00");
        reveal_strlit("\"%Y-%m-%d\" %H:%M:%S");
        reveal_strlit("failed to parse date of birth: ");
        reveal_strlit("\n");
    }
    if is_blank(d) {
        return Err(ProtocolError::EmptyField(FormField::DateOfBirth));
    }
    let mut text = d.clone();
    text.append(" 00:00:00");
    assert(ends_with(text@, " 00:00:00"@)) by {
        assert(text@.subrange(text@.len() - 9, text@.len() as int) =~= " 00:00:00"@);
    }
    match parse_datetime(text.as_str(), "\"%Y-%m-%d\" %H:%M:%S") {
        Ok(dob) => Ok((String::new(), Some(dob))),
        Err(e) => {
            let mut m = String::from_str("failed to parse date of birth: ");
            m.append(e.as_str());
            m.append("\n");
            Ok((m, None))
        },
    }
}

fn check_email(e: &String) -> (r: Result<String, ProtocolError>)
    ensures
        match (r, email_findings(e@)) {
            (Ok(a), Ok(b)) => a@ == b,
            (Err(a), Err(b)) => a == b,
            _ => false,
        },
{
    proof {
        reveal_strlit("email is not valid\n");
    }
    if is_blank(e) {
        Err(ProtocolError::EmptyField(FormField::Email))
    } else if contains_class(e.as_str(), CharClass::NonAscii) || contains_class(e.as_str(), CharClass::Control) {
        Err(ProtocolError::ControlCharacters(FormField::Email))
    } else if !email_is_valid(e.as_str()) {
        Ok(String::from_str("email is not valid\n"))
    } else {
        Ok(String::new())
    }
}

/// Checks a sign-up form again on the server. A reason to end the session comes back as
/// the error; otherwise the messages for the user are appended to `errors`, and the
/// date of birth, when it could be read, is recorded in the form.
pub fn sanitize(form: &mut SignUpForm, errors: &mut String) -> (r: Result<(), ProtocolError>)
    ensures
        match (r, form_findings(old(form))) {
            (Ok(_), Ok((msgs, dob))) => {
                &&& final(errors)@ == old(errors)@ + msgs
                &&& final(form).dob == (match dob {
                    Some(d) => Some(d),
                    None => old(form).dob,
                })
            },
            (Err(a), Err(b)) => a == b && final(errors)@ == old(errors)@,
            _ => false,
        },
        final(errors)@.len() >= old(errors)@.len(),
        final(errors)@.subrange(0, old(errors)@.len() as int) == old(errors)@,
        final(form).dob != old(form).dob ==> (dob_findings(old(form).dob_string@) matches Ok((_, Some(d)))
            ==> final(form).dob == Some(d)),
        final(form).dob != old(form).dob ==> dob_findings(old(form).dob_string@) matches Ok((_, Some(_))),
        final(form).dob != old(form).dob ==> (final(form).dob matches Some(t)
            ==> (t.hour == 0 && t.minute == 0 && t.second == 0)),
        final(form).username == old(form).username,
        final(form).password == old(form).password,
        final(form).first_name == old(form).first_name,
        final(form).last_name == old(form).last_name,
        final(form).dob_string == old(form).dob_string,
        final(form).email == old(form).email,
{
    let m1 = match check_username(&form.username) {
        Ok(m) => m,
        Err(e) => return Err(e),
    };
    let m2 = match check_password(&form.password) {
        Ok(m) => m,
        Err(e) => return Err(e),
    };
    match check_name(&form.first_name, FormField::FirstName) {
        Ok(_) => {},
        Err(e) => return Err(e),
    };
    match check_name(&form.last_name, FormField::LastName) {
        Ok(_) => {},
        Err(e) => return Err(e),
    };
    let (m5, dob) = match check_dob(&form.dob_string) {
        Ok(x) => x,
        Err(e) => return Err(e),
    };
    match dob {
        Some(d) => form.add_dob(&d),
        None => {},
    }
    let m6 = match check_email(&form.email) {
        Ok(m) => m,
        Err(e) => return Err(e),
    };
    let ghost e0 = errors@;
    errors.append(m1.as_str());
    errors.append(m2.as_str());
    errors.append(m5.as_str());
    errors.append(m6.as_str());
    proof {
        assert(errors@ =~= e0 + (m1@ + m2@ + Seq::<char>::empty() + Seq::<char>::empty() + m5@ + m6@));
    }
    Ok(())
}


/// The six members of a sign-up form in its JSON text, in the order they are read, when
/// the text is JSON.
pub open spec fn json_form_fields(text: Seq<char>) -> Option<Seq<Seq<char>>> {
    if json_member(text, "username"@) is Some && json_member(text, "password"@) is Some
        && json_member(text, "first_name"@) is Some && json_member(text, "last_name"@) is Some
        && json_member(text, "dob"@) is Some && json_member(text, "email"@) is Some {
        Some(seq![
            json_member(text, "username"@)->0,
            json_member(text, "password"@)->0,
            json_member(text, "first_name"@)->0,
            json_member(text, "last_name"@)->0,
            json_member(text, "dob"@)->0,
            json_member(text, "email"@)->0,
        ])
    } else {
        None
    }
}

/// The JSON texts the quotes are cut off (all but the date of birth) can lose them.
pub open spec fn fields_quotable(f: Seq<Seq<char>>) -> bool {
    quotable(f[0]) && quotable(f[1]) && quotable(f[2]) && quotable(f[3]) && quotable(f[5])
}

/// The verdict of the server on a submitted form.
pub enum FormReview {
    /// The user must correct the form; the reply (`2BADFORM` and the messages) says why.
    Rejected(String),
    /// The form passed; its user name must still be checked for clashes.
    Accepted(SignUpForm),
}

/// Reads a sign-up form from its JSON text, takes the quotes off its fields and checks
/// it. `None` where cutting the quotes off fails, which makes the connection task panic
/// (a member whose JSON text is a single digit, say).
pub fn review_sign_up_form(json: &str) -> (r: Option<Result<FormReview, ProtocolError>>)
    ensures
        json_form_fields(json@) is None ==> r == Some(Err::<FormReview, ProtocolError>(ProtocolError::InvalidSignUpForm)),
        json_form_fields(json@) matches Some(f) ==> {
            if !fields_quotable(f) {
                r is None
            } else {
                r is Some && match form_findings_of(unquoted(f[0]), unquoted(f[1]), unquoted(f[2]), unquoted(f[3]), f[4], unquoted(f[5])) {
                    Err(e) => r == Some(Err::<FormReview, ProtocolError>(e)),
                    Ok((msgs, dob)) => if msgs.len() > 0 {
                        r matches Some(Ok(FormReview::Rejected(reply))) && reply@ == "2BADFORM"@ + msgs
                    } else {
                        r matches Some(Ok(FormReview::Accepted(form))) && {
                            &&& form.username@ == unquoted(f[0])
                            &&& form.password@ == unquoted(f[1])
                            &&& form.first_name@ == unquoted(f[2])
                            &&& form.last_name@ == unquoted(f[3])
                            &&& form.dob_string@ == f[4]
                            &&& form.email@ == unquoted(f[5])
                            &&& form.dob == dob
                        }
                    },
                }
            }
        },
{
    proof {
        reveal_strlit("username");
        reveal_strlit("password");
        reveal_strlit("first_name");
        reveal_strlit("last_name");
        reveal_strlit("dob");
        reveal_strlit("email");
        reveal_strlit("2BADFORM");
    }
    let username = match json_member_text(json, "username") {
        Some(v) => v,
        None => return Some(Err(ProtocolError::InvalidSignUpForm)),
    };
    let password = match json_member_text(json, "password") {
        Some(v) => v,
        None => return Some(Err(ProtocolError::InvalidSignUpForm)),
    };
    let first_name = match json_member_text(json, "first_name") {
        Some(v) => v,
        None => return Some(Err(ProtocolError::InvalidSignUpForm)),
    };
    let last_name = match json_member_text(json, "last_name") {
        Some(v) => v,
        None => return Some(Err(ProtocolError::InvalidSignUpForm)),
    };
    let dob_string = match json_member_text(json, "dob") {
        Some(v) => v,
        None => return Some(Err(ProtocolError::InvalidSignUpForm)),
    };
    let email = match json_member_text(json, "email") {
        Some(v) => v,
        None => return Some(Err(ProtocolError::InvalidSignUpForm)),
    };
    if !(ends_are_ascii(&username) && ends_are_ascii(&password) && ends_are_ascii(&first_name)
        && ends_are_ascii(&last_name) && ends_are_ascii(&email)) {
        return None;
    }
    let mut form = SignUpForm { username, password, first_name, last_name, dob_string, dob: None, email };
    form.remove_quotes();
    let mut errors = String::new();
    match sanitize(&mut form, &mut errors) {
        Err(e) => Some(Err(e)),
        Ok(_) => {
            if errors.as_str().unicode_len() > 0 {
                let mut reply = String::from_str("2BADFORM");
                reply.append(errors.as_str());
                Some(Ok(FormReview::Rejected(reply)))
            } else {
                Some(Ok(FormReview::Accepted(form)))
            }
        },
    }
}

/// Whether `s` can lose its first and last character (`quotable`).
fn ends_are_ascii(s: &String) -> (r: bool)
    ensures
        r == quotable(s@),
{
    let n = s.as_str().unicode_len();
    n >= 2 && (s.as_str().get_char(0) as u32) < 128 && (s.as_str().get_char(n - 1) as u32) < 128
}


/// What the sign-up screen asks of the server next.
pub enum SignUpAction {
    /// Send this reply; nothing else is needed.
    Reply(String),
    /// Review the submitted form, given as its JSON text (`review_sign_up_form`).
    ReviewForm(String),
    /// The email was verified: store the account of the pending form
    /// (`new_account_from_form`), then `Session::finish_sign_up`.
    CreateAccount,
}

/// The code the client must send back to verify the new user's email.
pub open spec fn email_verification_code() -> Seq<char> {
    "ABCDEF"@
}

/// `k` is the index of the first occurrence of `name` in `names`.
pub open spec fn is_first_name_index(names: Seq<String>, name: Seq<char>, k: int) -> bool {
    0 <= k < names.len() && names[k]@ == name && forall|j: int| 0 <= j < k ==> names[j]@ != name
}

/// Some entry of `names` is `name`.
pub open spec fn lists_name(names: Seq<String>, name: Seq<char>) -> bool {
    exists|k: int| 0 <= k < names.len() && #[trigger] names[k]@ == name
}

/// No user name is reserved twice.
pub open spec fn names_unique(names: Seq<String>) -> bool {
    forall|i: int, j: int| 0 <= i < names.len() && 0 <= j < names.len() && i != j
        ==> #[trigger] names[i]@ != #[trigger] names[j]@
}

/// Reserving a name that is not reserved keeps every name reserved at most once.
pub proof fn lemma_reserve_keeps_names_unique(names: Seq<String>, name: String)
    requires
        names_unique(names),
        !lists_name(names, name@),
    ensures
        names_unique(names.push(name)),
        lists_name(names.push(name), name@),
{
    let p = names.push(name);
    assert(p[names.len() as int]@ == name@);
    assert forall|i: int, j: int| 0 <= i < p.len() && 0 <= j < p.len() && i != j
        implies #[trigger] p[i]@ != #[trigger] p[j]@ by {
        if i < names.len() && j < names.len() {
            assert(p[i] == names[i] && p[j] == names[j]);
        } else if i < names.len() {
            assert(p[i] == names[i]);
        } else if j < names.len() {
            assert(p[j] == names[j]);
        }
    }
}

/// Completing a sign-up releases its name: with every name reserved at most once, the
/// name is no longer reserved afterwards, and the others stay reserved once each.
pub proof fn lemma_release_frees_name(names: Seq<String>, name: Seq<char>, k: int)
    requires
        names_unique(names),
        is_first_name_index(names, name, k),
    ensures
        !lists_name(names.remove(k), name),
        names_unique(names.remove(k)),
{
    let r = names.remove(k);
    assert forall|i: int| 0 <= i < r.len() implies #[trigger] r[i]@ != name by {
        if i < k {
            assert(r[i] == names[i]);
        } else {
            assert(r[i] == names[i + 1]);
            assert(names[i + 1]@ != names[k]@);
        }
    }
    assert forall|i: int, j: int| 0 <= i < r.len() && 0 <= j < r.len() && i != j
        implies #[trigger] r[i]@ != #[trigger] r[j]@ by {
        let a = if i < k { i } else { i + 1 };
        let b = if j < k { j } else { j + 1 };
        assert(r[i] == names[a]);
        assert(r[j] == names[b]);
    }
}

/// The account row of a verified sign-up form: its fields, with the password hashed
/// under a fresh salt. The password may be at most `u32::MAX` bytes long; Argon2 refuses
/// longer ones and the connection task panics.
pub fn new_account_from_form(form: &SignUpForm) -> (a: NewAccount)
    requires
        encode_utf8(form.password@).len() <= 0xFFFF_FFFF,
    ensures
        a.username@ == form.username@,
        phc_string_parses(a.password_hash@),
        argon2_accepts(encode_utf8(form.password@), a.password_hash@),
        a.first_name@ == form.first_name@,
        a.last_name@ == form.last_name@,
        a.email@ == form.email@,
{
    NewAccount {
        username: form.username.clone(),
        password_hash: hash_new_password(form.password.as_str()),
        first_name: form.first_name.clone(),
        last_name: form.last_name.clone(),
        email: form.email.clone(),
    }
}

fn position_of_name(names: &Vec<String>, name: &str) -> (r: Option<usize>)
    ensures
        match r {
            Some(k) => is_first_name_index(names@, name@, k as int),
            None => !lists_name(names@, name@),
        },
{
    let n = names.len();
    let mut i: usize = 0;
    while i < n
        invariant
            n == names@.len(),
            i <= n,
            forall|j: int| 0 <= j < i ==> names@[j]@ != name@,
        decreases n - i,
    {
        if same_text(names[i].as_str(), name) {
            return Some(i);
        }
        i = i + 1;
    }
    None
}

impl Session {
    /// Handles a message on the sign-up screen.
    /// - `STATUS<token>`: a status check;
    /// - `NEXT1`: back to the start screen; `NEXT3<user>`: on to the store locator as the
    ///   session's user;
    /// - `CHECK<json>`: a submitted form;
    /// - `EMAIL<code>`: the email verification code;
    /// - anything else ends the session.
    pub fn sign_up_screen(&mut self, msg: &str, table: &mut ConnectionTable) -> (r: Result<SignUpAction, ProtocolError>)
        requires
            old(self).wf(),
            old(table).wf(),
        ensures
            final(self).wf(),
            final(table).wf(),
            starts_with(msg@, "STATUS"@) ==> if drop_chars(msg@, 6) == old(self).token@ {
                &&& r matches Ok(SignUpAction::Reply(reply))
                &&& status_accepted(old(self), final(self), reply@)
            } else {
                r == Err::<SignUpAction, ProtocolError>(ProtocolError::InvalidStatusCheck) && *final(self) == *old(self)
            },
            !starts_with(msg@, "STATUS"@) ==> *final(self) == *old(self),
            !starts_with(msg@, "STATUS"@) && starts_with(msg@, "NEXT"@) ==> {
                if move_code(msg@) == "1"@ {
                    &&& r matches Ok(SignUpAction::Reply(reply)) && reply@ == "2NEXT1"@
                    &&& old(table).moved(final(table), old(self).addr@, ScreenState::Start)
                } else if move_code(msg@) == "3"@ {
                    if drop_chars(msg@, 5) == old(self).username@ {
                        &&& r matches Ok(SignUpAction::Reply(reply)) && reply@ == "2NEXT3"@
                        &&& old(table).moved(final(table), old(self).addr@, ScreenState::StoreLocator)
                    } else {
                        r == Err::<SignUpAction, ProtocolError>(ProtocolError::InvalidSessionUsername)
                    }
                } else {
                    r == Err::<SignUpAction, ProtocolError>(ProtocolError::InvalidMoveCode)
                }
            },
            !starts_with(msg@, "STATUS"@) && !starts_with(msg@, "NEXT"@) && starts_with(msg@, "CHECK"@) ==> {
                r matches Ok(SignUpAction::ReviewForm(json)) && json@ == drop_chars(msg@, 5)
            },
            !starts_with(msg@, "STATUS"@) && !starts_with(msg@, "NEXT"@) && !starts_with(msg@, "CHECK"@)
                && starts_with(msg@, "EMAIL"@) ==> if drop_chars(msg@, 5) == email_verification_code() {
                r matches Ok(SignUpAction::CreateAccount)
            } else {
                r matches Ok(SignUpAction::Reply(reply)) && reply@ == "2BADEMAIL"@
            },
            !starts_with(msg@, "STATUS"@) && !starts_with(msg@, "NEXT"@) && !starts_with(msg@, "CHECK"@)
                && !starts_with(msg@, "EMAIL"@) ==> r == Err::<SignUpAction, ProtocolError>(ProtocolError::UnknownMessage),
            !starts_with(msg@, "NEXT"@) || r is Err ==> final(table).entries@ == old(table).entries@,
    {
        proof {
            reveal_strlit("STATUS");
            reveal_strlit("NEXT");
            reveal_strlit("CHECK");
            reveal_strlit("EMAIL");
            reveal_strlit("ABCDEF");
            reveal_strlit("1");
            reveal_strlit("3");
            reveal_strlit("2NEXT1");
            reveal_strlit("2NEXT3");
            reveal_strlit("2BADEMAIL");
        }
        if has_prefix(msg, "STATUS") {
            let items = skip_chars(msg, 6);
            let token = self.token.clone();
            match self.status_check(items.as_str(), token.as_str()) {
                Ok(reply) => Ok(SignUpAction::Reply(reply)),
                Err(e) => Err(e),
            }
        } else if has_prefix(msg, "NEXT") {
            let after = skip_chars(msg, 4);
            let code = take_first_chars(after.as_str(), 1);
            if same_text(code.as_str(), "1") {
                table.set_screen(self.addr.as_str(), ScreenState::Start);
                Ok(SignUpAction::Reply(String::from_str("2NEXT1")))
            } else if same_text(code.as_str(), "3") {
                let name = skip_chars(msg, 5);
                if same_text(name.as_str(), self.username.as_str()) {
                    table.set_screen(self.addr.as_str(), ScreenState::StoreLocator);
                    Ok(SignUpAction::Reply(String::from_str("2NEXT3")))
                } else {
                    Err(ProtocolError::InvalidSessionUsername)
                }
            } else {
                Err(ProtocolError::InvalidMoveCode)
            }
        } else if has_prefix(msg, "CHECK") {
            Ok(SignUpAction::ReviewForm(skip_chars(msg, 5)))
        } else if has_prefix(msg, "EMAIL") {
            let code = skip_chars(msg, 5);
            if same_text(code.as_str(), "ABCDEF") {
                Ok(SignUpAction::CreateAccount)
            } else {
                Ok(SignUpAction::Reply(String::from_str("2BADEMAIL")))
            }
        } else {
            Err(ProtocolError::UnknownMessage)
        }
    }

    /// Decides on the user name of an accepted form, once it is known whether a
    /// registered user already has it. A name that no user has and no other client is
    /// signing up with is reserved (`pending` gains it), the form is kept for the email
    /// step and the reply is `2NAMEOK`; otherwise the reply is `2BADNAME` and nothing
    /// changes.
    pub fn finish_name_check(&mut self, form: SignUpForm, registered: bool, pending: &mut Vec<String>) -> (reply: String)
        requires
            old(self).wf(),
        ensures
            final(self).wf(),
            !registered && !lists_name(old(pending)@, form.username@) ==> {
                &&& reply@ == "2NAMEOK"@
                &&& final(pending)@.len() == old(pending)@.len() + 1
                &&& final(pending)@.drop_last() == old(pending)@
                &&& final(pending)@.last()@ == form.username@
                &&& final(self).sign_up_form == form
                &&& final(self).username == old(self).username
                &&& final(self).nonce == old(self).nonce
                &&& final(self).token == old(self).token
                &&& final(self).addr == old(self).addr
                &&& final(self).status_check_timer == old(self).status_check_timer
                &&& final(self).shop_id == old(self).shop_id
                &&& final(self).token_exchanged == old(self).token_exchanged
            },
            names_unique(old(pending)@) ==> names_unique(final(pending)@),
            registered || lists_name(old(pending)@, form.username@) ==> {
                &&& reply@ == "2BADNAME"@
                &&& final(pending)@ == old(pending)@
                &&& *final(self) == *old(self)
            },
    {
        proof {
            reveal_strlit("2NAMEOK");
            reveal_strlit("2BADNAME");
        }
        if registered {
            return String::from_str("2BADNAME");
        }
        match position_of_name(pending, form.username.as_str()) {
            Some(_) => String::from_str("2BADNAME"),
            None => {
                let name = form.username.clone();
                proof {
                    if names_unique(old(pending)@) {
                        lemma_reserve_keeps_names_unique(old(pending)@, name);
                    }
                }
                self.sign_up_form = form;
                pending.push(name);
                assert(pending@.drop_last() =~= old(pending)@);
                String::from_str("2NAMEOK")
            },
        }
    }

    /// Completes a sign-up once the account is stored: the session is logged in as the new
    /// user, the user name is no longer reserved (its first entry in `pending` goes), the
    /// form is cleared and the reply is `2OK`. The name must be reserved; otherwise the
    /// connection task panics.
    pub fn finish_sign_up(&mut self, pending: &mut Vec<String>) -> (reply: String)
        requires
            old(self).wf(),
            lists_name(old(pending)@, old(self).sign_up_form.username@),
        ensures
            final(self).wf(),
            reply@ == "2OK"@,
            final(self).username@ == old(self).sign_up_form.username@,
            exists|k: int| is_first_name_index(old(pending)@, old(self).sign_up_form.username@, k)
                && final(pending)@ == old(pending)@.remove(k),
            names_unique(old(pending)@) ==> names_unique(final(pending)@)
                && !lists_name(final(pending)@, old(self).sign_up_form.username@),
            final(self).sign_up_form.username@.len() == 0,
            final(self).sign_up_form.password@.len() == 0,
            final(self).sign_up_form.first_name@.len() == 0,
            final(self).sign_up_form.last_name@.len() == 0,
            final(self).sign_up_form.dob_string@.len() == 0,
            final(self).sign_up_form.dob is None,
            final(self).sign_up_form.email@.len() == 0,
            final(self).nonce == old(self).nonce,
            final(self).token == old(self).token,
            final(self).addr == old(self).addr,
            final(self).status_check_timer == old(self).status_check_timer,
            final(self).shop_id == old(self).shop_id,
            final(self).token_exchanged == old(self).token_exchanged,
    {
        proof {
            reveal_strlit("2OK");
        }
        self.username = self.sign_up_form.username.clone();
        match position_of_name(pending, self.sign_up_form.username.as_str()) {
            Some(k) => {
                proof {
                    if names_unique(old(pending)@) {
                        lemma_release_frees_name(old(pending)@, old(self).sign_up_form.username@, k as int);
                    }
                }
                pending.remove(k);
            },
            None => {
                assert(false);
            },
        }
        self.sign_up_form = SignUpForm::new_empty();
        String::from_str("2OK")
    }
}

} // verus!
