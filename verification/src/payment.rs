use vstd::prelude::*;
use crate::error::ProtocolError;
use crate::session::{Session, status_accepted};
use crate::text::{
    drop_chars, has_prefix, int_decimal, int_to_text, is_numeric, parse_i32,
    parse_i32_spec, parse_u32, parse_u32_spec, same_text, skip_chars, starts_with, take_chars,
    take_first_chars, unicode_numeric,
};
use vstd::utf8::encode_utf8;

verus! {

/// Card details as the client submits them (or as they were saved).
pub struct CardInfo {
    pub number: String,
    pub expiry: String,
    pub cvv: String,
}

impl CardInfo {
    /// All three fields are empty (the user has no saved card).
    pub fn value_is_empty(&self) -> (r: bool)
        ensures
            r == (self.number@.len() == 0 && self.expiry@.len() == 0 && self.cvv@.len() == 0),
    {
        self.number.as_str().unicode_len() == 0 && self.expiry.as_str().unicode_len() == 0
            && self.cvv.as_str().unicode_len() == 0
    }
}

/// Whether `s.parse::<creditcard::CreditCard>()` succeeds.
pub uninterp spec fn credit_card_accepted(s: Seq<char>) -> bool;

/// `number.parse::<creditcard::CreditCard>().is_ok()`. The result is named by
/// `credit_card_accepted`; the issuer table and Luhn check are not restated.
#[verifier::external_body]
pub(crate) fn credit_card_number_ok(number: &str) -> (r: bool)
    ensures
        r == credit_card_accepted(number@),
{
    number.parse::<creditcard::CreditCard>().is_ok()
}

/// What `Regex::new(pattern)` and `is_match(text)` give: `None` when the pattern does not
/// compile, otherwise whether `text` matches.
pub uninterp spec fn regex_match(pattern: Seq<char>, text: Seq<char>) -> Option<bool>;

/// `regex::Regex::new(pattern)`, then `is_match(text)`. The result is named by
/// `regex_match`; regular expression matching is not restated.
#[verifier::external_body]
pub(crate) fn regex_is_match(pattern: &str, text: &str) -> (r: Option<bool>)
    ensures
        r == regex_match(pattern@, text@),
{
    match regex::Regex::new(pattern) {
        Ok(re) => Some(re.is_match(text)),
        Err(_) => None,
    }
}

/// The UNIX timestamp of midnight (UTC) on the given day, if chrono has that date.
pub uninterp spec fn utc_midnight(year: i32, month: u32, day: u32) -> Option<i64>;

/// `NaiveDate::from_ymd_opt(year, month, day)` at `00:00:00`, as a UTC timestamp. The
/// result is named by `utc_midnight`; calendar arithmetic is not restated. Claimed
/// besides, from chrono's documentation and its year range: the first of a month is a
/// date exactly when the month is 1 to 12 and the year is in −262143..=262142.
#[verifier::external_body]
pub(crate) fn utc_midnight_timestamp(year: i32, month: u32, day: u32) -> (r: Option<i64>)
    ensures
        r == utc_midnight(year, month, day),
        day == 1 ==> (r is Some <==> (1 <= month <= 12 && -262143 <= year <= 262142)),
{
    match chrono::NaiveDate::from_ymd_opt(year, month, day) {
        Some(d) => match d.and_hms_opt(0, 0, 0) {
            Some(t) => Some(t.and_utc().timestamp()),
            None => None,
        },
        None => None,
    }
}

/// `chrono::Local::now().timestamp()`: the current time. Nothing is claimed of it.
#[verifier::external_body]
pub(crate) fn now_timestamp() -> i64 {
    chrono::Local::now().timestamp()
}

/// The pattern a card expiry must match: two digits, a slash, four digits.
pub open spec fn expiry_pattern() -> Seq<char> {
    "^\\d{2}/\\d{4}$"@
}

/// The pattern a card security code must match: three digits.
pub open spec fn cvv_pattern() -> Seq<char> {
    "^\\d{3}$"@
}

/// How the server judges a card.
pub enum CardOutcome {
    /// The card number is not a valid card number: reply `5INVALID`.
    Rejected,
    /// The expiry or security code fails the checks: reply `5FAIL`; the user may try
    /// again.
    Declined,
    /// The card is good until the first of the given month: take the payment, save the
    /// card and reply `5SUCCESS`.
    Accepted { year: i32, month: u32 },
}

/// The judgement of a card, as a plain value.
pub enum CardJudgement {
    Rejected,
    Declined,
    Accepted(i32, u32),
}

/// Whether the expiry `MM/YYYY` and the security code pass at time `now`: the expiry
/// matches its pattern, names a month 1 to 12 of a year chrono knows whose first day has
/// not passed, and the security code matches its pattern. `None` when a pattern does not
/// compile; otherwise the month and year, when the card passes.
pub open spec fn card_details_spec(expiry: Seq<char>, cvv: Seq<char>, now: i64) -> Option<Option<(i32, u32)>> {
    match regex_match(expiry_pattern(), expiry) {
        None => None,
        Some(false) => Some(None),
        Some(true) => match (parse_i32_spec(drop_chars(expiry, 3)), parse_u32_spec(take_chars(expiry, 2))) {
            (Some(year), Some(month)) => if 1 <= month <= 12 {
                match utc_midnight(year, month, 1) {
                    Some(ts) => if ts - now >= 0 {
                        match regex_match(cvv_pattern(), cvv) {
                            None => None,
                            Some(true) => Some(Some((year, month))),
                            Some(false) => Some(None),
                        }
                    } else {
                        Some(None)
                    },
                    None => Some(None),
                }
            } else {
                Some(None)
            },
            _ => Some(None),
        },
    }
}

/// The judgement of a card at time `now`, in the order the server checks it: the number
/// first (a non-numeric number the client should have refused ends the session), then
/// the expiry and security code.
pub open spec fn card_verdict_spec(number: Seq<char>, expiry: Seq<char>, cvv: Seq<char>, now: i64) -> Result<CardJudgement, ProtocolError> {
    if !credit_card_accepted(number) {
        if !(forall|i: int| 0 <= i < number.len() ==> #[trigger] unicode_numeric(number[i])) {
            Err(ProtocolError::BypassedSanitation)
        } else {
            Ok(CardJudgement::Rejected)
        }
    } else {
        match card_details_spec(expiry, cvv, now) {
            None => Err(ProtocolError::UnusablePattern),
            Some(None) => Ok(CardJudgement::Declined),
            Some(Some((year, month))) => Ok(CardJudgement::Accepted(year, month)),
        }
    }
}

/// `r` is the outcome `s` describes.
pub open spec fn outcome_is(r: Result<CardOutcome, ProtocolError>, s: Result<CardJudgement, ProtocolError>) -> bool {
    match (r, s) {
        (Err(a), Err(b)) => a == b,
        (Ok(CardOutcome::Rejected), Ok(CardJudgement::Rejected)) => true,
        (Ok(CardOutcome::Declined), Ok(CardJudgement::Declined)) => true,
        (Ok(CardOutcome::Accepted { year, month }), Ok(CardJudgement::Accepted(y, m))) => year == y && month == m,
        _ => false,
    }
}

fn all_numeric(s: &str) -> (r: bool)
    ensures
        r == forall|i: int| 0 <= i < s@.len() ==> #[trigger] unicode_numeric(s@[i]),
{
    let n = s.unicode_len();
    let mut i: usize = 0;
    while i < n
        invariant
            n == s@.len(),
            i <= n,
            forall|j: int| 0 <= j < i ==> #[trigger] unicode_numeric(s@[j]),
        decreases n - i,
    {
        if !is_numeric(s.get_char(i)) {
            return false;
        }
        i = i + 1;
    }
    true
}

fn card_details(expiry: &str, cvv: &str, now: i64) -> (r: Option<Option<(i32, u32)>>)
    ensures
        r == card_details_spec(expiry@, cvv@, now),
{
    proof {
        reveal_strlit("^\\d{2}/\\d{4}$");
        reveal_strlit("^\\d{3}$");
    }
    match regex_is_match("^\\d{2}/\\d{4}$", expiry) {
        None => return None,
        Some(false) => return Some(None),
        Some(true) => {},
    }
    let year_text = skip_chars(expiry, 3);
    let month_text = take_first_chars(expiry, 2);
    let (year, month) = match (parse_i32(year_text.as_str()), parse_u32(month_text.as_str())) {
        (Some(y), Some(m)) => (y, m),
        _ => return Some(None),
    };
    if !(1 <= month && month <= 12) {
        return Some(None);
    }
    let ts = match utc_midnight_timestamp(year, month, 1) {
        None => return Some(None),
        Some(t) => t,
    };
    if ts >= now {
        match regex_is_match("^\\d{3}$", cvv) {
            None => None,
            Some(true) => Some(Some((year, month))),
            Some(false) => Some(None),
        }
    } else {
        Some(None)
    }
}

/// Judges a card at time `now` (`card_verdict_spec`).
pub fn card_verdict(card: &CardInfo, now: i64) -> (r: Result<CardOutcome, ProtocolError>)
    ensures
        outcome_is(r, card_verdict_spec(card.number@, card.expiry@, card.cvv@, now)),
{
    if !credit_card_number_ok(card.number.as_str()) {
        if !all_numeric(card.number.as_str()) {
            return Err(ProtocolError::BypassedSanitation);
        }
        return Ok(CardOutcome::Rejected);
    }
    match card_details(card.expiry.as_str(), card.cvv.as_str(), now) {
        None => Err(ProtocolError::UnusablePattern),
        Some(None) => Ok(CardOutcome::Declined),
        Some(Some((year, month))) => Ok(CardOutcome::Accepted { year, month }),
    }
}

/// Judges a card now: the current time is read and `card_verdict` applied to it.
pub fn pay_by_card(card: &CardInfo) -> (r: Result<CardOutcome, ProtocolError>)
    ensures
        exists|now: i64| #[trigger] outcome_is(r, card_verdict_spec(card.number@, card.expiry@, card.cvv@, now)),
{
    let now = now_timestamp();
    card_verdict(card, now)
}

/// What the payment screen asks of the server next.
pub enum PaymentAction {
    /// Send this reply.
    Reply(String),
    /// Payment by Apple or Google Pay: record the purchase and reply `5SUCCESS`.
    PayByApp,
    /// Look up the user's saved card and, unless it is empty, send it (`5CARD<json>`).
    LoadSavedCard,
    /// Payment by card: read the card from this JSON text and judge it (`pay_by_card`).
    PayByCard(String),
}

/// Number of bytes of a till token.
pub const TILL_TOKEN_BYTES: usize = 10;

impl Session {
    /// Handles a message on the payment screen. `total` is the text of the checkout
    /// total; `till_required` whether the checkout holds age-limited items.
    /// - `STATUS<token><user><store id><total>`: a status check;
    /// - `APPLE`, `GOOGLE`: pay by app (refused when a till is required);
    /// - `TRANSFER<till token>`: `5OK` for a ten-byte token, `5INVALID` otherwise;
    /// - `CARDREC`: the saved card; `CARD<json>`: pay by card (refused when a till is
    ///   required);
    /// - anything else ends the session.
    pub fn payment_screen(&mut self, msg: &str, total: &str, till_required: bool) -> (r: Result<PaymentAction, ProtocolError>)
        requires
            old(self).wf(),
        ensures
            final(self).wf(),
            starts_with(msg@, "STATUS"@) ==> if drop_chars(msg@, 6) == old(self).token@ + old(self).username@
                + int_decimal(old(self).shop_id as int) + total@ {
                &&& r matches Ok(PaymentAction::Reply(reply))
                &&& status_accepted(old(self), final(self), reply@)
            } else {
                r == Err::<PaymentAction, ProtocolError>(ProtocolError::InvalidStatusCheck) && *final(self) == *old(self)
            },
            !starts_with(msg@, "STATUS"@) ==> *final(self) == *old(self),
            !starts_with(msg@, "STATUS"@) ==> {
                if msg@ == "APPLE"@ || msg@ == "GOOGLE"@ {
                    if till_required {
                        r == Err::<PaymentAction, ProtocolError>(ProtocolError::TillRequired)
                    } else {
                        r matches Ok(PaymentAction::PayByApp)
                    }
                } else if starts_with(msg@, "TRANSFER"@) {
                    if encode_utf8(drop_chars(msg@, 8)).len() != TILL_TOKEN_BYTES {
                        r matches Ok(PaymentAction::Reply(reply)) && reply@ == "5INVALID"@
                    } else {
                        r matches Ok(PaymentAction::Reply(reply)) && reply@ == "5OK"@
                    }
                } else if msg@ == "CARDREC"@ {
                    r matches Ok(PaymentAction::LoadSavedCard)
                } else if starts_with(msg@, "CARD"@) {
                    if till_required {
                        r == Err::<PaymentAction, ProtocolError>(ProtocolError::TillRequired)
                    } else {
                        r matches Ok(PaymentAction::PayByCard(json)) && json@ == drop_chars(msg@, 4)
                    }
                } else {
                    r == Err::<PaymentAction, ProtocolError>(ProtocolError::UnknownMessage)
                }
            },
    {
        proof {
            reveal_strlit("STATUS");
            reveal_strlit("APPLE");
            reveal_strlit("GOOGLE");
            reveal_strlit("TRANSFER");
            reveal_strlit("CARDREC");
            reveal_strlit("CARD");
            reveal_strlit("5INVALID");
            reveal_strlit("5OK");
        }
        if has_prefix(msg, "STATUS") {
            let items = skip_chars(msg, 6);
            let mut expected = self.token.clone();
            expected.append(self.username.as_str());
            let id = int_to_text(self.shop_id);
            expected.append(id.as_str());
            expected.append(total);
            match self.status_check(items.as_str(), expected.as_str()) {
                Ok(reply) => Ok(PaymentAction::Reply(reply)),
                Err(e) => Err(e),
            }
        } else if same_text(msg, "APPLE") || same_text(msg, "GOOGLE") {
            if till_required {
                Err(ProtocolError::TillRequired)
            } else {
                Ok(PaymentAction::PayByApp)
            }
        } else if has_prefix(msg, "TRANSFER") {
            let token = skip_chars(msg, 8);
            if token.as_str().as_bytes().len() != TILL_TOKEN_BYTES {
                Ok(PaymentAction::Reply(String::from_str("5INVALID")))
            } else {
                Ok(PaymentAction::Reply(String::from_str("5OK")))
            }
        } else if same_text(msg, "CARDREC") {
            Ok(PaymentAction::LoadSavedCard)
        } else if has_prefix(msg, "CARD") {
            if till_required {
                Err(ProtocolError::TillRequired)
            } else {
                Ok(PaymentAction::PayByCard(skip_chars(msg, 4)))
            }
        } else {
            Err(ProtocolError::UnknownMessage)
        }
    }
}

} // verus!
