use vstd::prelude::*;
use crate::connection::ConnectionTable;
use crate::error::ProtocolError;
use crate::screen::ScreenState;
use crate::session::{Session, status_accepted};
use crate::text::{
    drop_chars, has_prefix, int_decimal, int_to_text, parse_i32, parse_i32_spec, same_text,
    skip_chars, starts_with,
};

verus! {

/// What the scanning screen asks of the server next.
pub enum ScannerAction {
    /// Send this reply.
    Reply(String),
    /// Look up the item with this id and answer with `item_reply`.
    LookUpItem(i32),
    /// Check the submitted checkout list (its JSON text) against the item records.
    Checkout(String),
}

/// The answer to an item lookup: `4ITEM` and the item's JSON text, or `4INVALID` when
/// there is no such item.
pub fn item_reply(item_json: Option<String>) -> (reply: String)
    ensures
        match item_json {
            Some(j) => reply@ == "4ITEM"@ + j@,
            None => reply@ == "4INVALID"@,
        },
{
    match item_json {
        Some(j) => {
            let mut reply = String::from_str("4ITEM");
            reply.append(j.as_str());
            reply
        },
        None => String::from_str("4INVALID"),
    }
}

/// Whether the checkout needs a till: some item in it has an age limit.
pub fn requires_till(age_limits: &Vec<i32>) -> (r: bool)
    ensures
        r == exists|i: int| 0 <= i < age_limits@.len() && #[trigger] age_limits@[i] > 0,
{
    let n = age_limits.len();
    let mut i: usize = 0;
    while i < n
        invariant
            n == age_limits@.len(),
            i <= n,
            forall|j: int| 0 <= j < i ==> age_limits@[j] <= 0,
        decreases n - i,
    {
        if age_limits[i] > 0 {
            return true;
        }
        i = i + 1;
    }
    false
}

impl Session {
    /// Handles a message on the scanning screen. `total` is the text of the checkout
    /// list's total (`0` before any checkout).
    /// - `STATUS<token><user><store id>`: a status check;
    /// - `ITEM<id>`: an item lookup (an id that is not an `i32` is answered `4INVALID`);
    /// - `CHECKOUT<json>`: the checkout list;
    /// - `NEXT<total>`: on to payment, when the total is the checkout list's;
    /// - anything else ends the session.
    pub fn scanner_screen(&mut self, msg: &str, total: &str, table: &mut ConnectionTable) -> (r: Result<ScannerAction, ProtocolError>)
        requires
            old(self).wf(),
            old(table).wf(),
        ensures
            final(self).wf(),
            final(table).wf(),
            starts_with(msg@, "STATUS"@) ==> if drop_chars(msg@, 6) == old(self).token@ + old(self).username@ + int_decimal(old(self).shop_id as int) {
                &&& r matches Ok(ScannerAction::Reply(reply))
                &&& status_accepted(old(self), final(self), reply@)
            } else {
                r == Err::<ScannerAction, ProtocolError>(ProtocolError::InvalidStatusCheck) && *final(self) == *old(self)
            },
            !starts_with(msg@, "STATUS"@) ==> *final(self) == *old(self),
            !starts_with(msg@, "STATUS"@) && starts_with(msg@, "ITEM"@) ==> match parse_i32_spec(drop_chars(msg@, 4)) {
                Some(id) => r == Ok::<ScannerAction, ProtocolError>(ScannerAction::LookUpItem(id)),
                None => r matches Ok(ScannerAction::Reply(reply)) && reply@ == "4INVALID"@,
            },
            !starts_with(msg@, "STATUS"@) && !starts_with(msg@, "ITEM"@) && starts_with(msg@, "CHECKOUT"@) ==> {
                r matches Ok(ScannerAction::Checkout(json)) && json@ == drop_chars(msg@, 8)
            },
            !starts_with(msg@, "STATUS"@) && !starts_with(msg@, "ITEM"@) && !starts_with(msg@, "CHECKOUT"@)
                && starts_with(msg@, "NEXT"@) ==> if drop_chars(msg@, 4) == total@ {
                &&& r matches Ok(ScannerAction::Reply(reply)) && reply@ == "4NEXT"@
                &&& old(table).moved(final(table), old(self).addr@, ScreenState::Payment)
            } else {
                r == Err::<ScannerAction, ProtocolError>(ProtocolError::InvalidTotal)
            },
            !starts_with(msg@, "STATUS"@) && !starts_with(msg@, "ITEM"@) && !starts_with(msg@, "CHECKOUT"@)
                && !starts_with(msg@, "NEXT"@) ==> r == Err::<ScannerAction, ProtocolError>(ProtocolError::UnknownMessage),
            !(r matches Ok(ScannerAction::Reply(reply)) && reply@ == "4NEXT"@) ==> final(table).entries@ == old(table).entries@,
    {
        proof {
            reveal_strlit("STATUS");
            reveal_strlit("ITEM");
            reveal_strlit("CHECKOUT");
            reveal_strlit("NEXT");
            reveal_strlit("4INVALID");
            reveal_strlit("4NEXT");
        }
        if has_prefix(msg, "STATUS") {
            let items = skip_chars(msg, 6);
            let mut expected = self.token.clone();
            expected.append(self.username.as_str());
            let id = int_to_text(self.shop_id);
            expected.append(id.as_str());
            match self.status_check(items.as_str(), expected.as_str()) {
                Ok(reply) => {
                    assert(reply@ != "4NEXT"@) by {
                        reveal_strlit("STATUS");
                        assert(reply@[1] == 'T');
                    }
                    Ok(ScannerAction::Reply(reply))
                },
                Err(e) => Err(e),
            }
        } else if has_prefix(msg, "ITEM") {
            let text = skip_chars(msg, 4);
            match parse_i32(text.as_str()) {
                Some(id) => Ok(ScannerAction::LookUpItem(id)),
                None => Ok(ScannerAction::Reply(String::from_str("4INVALID"))),
            }
        } else if has_prefix(msg, "CHECKOUT") {
            Ok(ScannerAction::Checkout(skip_chars(msg, 8)))
        } else if has_prefix(msg, "NEXT") {
            let text = skip_chars(msg, 4);
            if same_text(text.as_str(), total) {
                table.set_screen(self.addr.as_str(), ScreenState::Payment);
                Ok(ScannerAction::Reply(String::from_str("4NEXT")))
            } else {
                Err(ProtocolError::InvalidTotal)
            }
        } else {
            Err(ProtocolError::UnknownMessage)
        }
    }
}

} // verus!
