use vstd::prelude::*;
use crate::connection::ConnectionTable;
use crate::error::ProtocolError;
use crate::screen::ScreenState;
use crate::session::{Session, status_accepted};
use crate::text::{
    drop_chars, has_prefix, int_decimal, int_to_text, parse_i32, parse_i32_spec, same_text,
    skip_chars, starts_with,
};

verus! {

/// What the store locator screen asks of the server next.
pub enum StoreAction {
    /// Send this reply.
    Reply(String),
    /// Nothing to do.
    Nothing,
    /// Send the list of stores (`shop_list_message` of the stores' JSON texts).
    ListShops,
}

/// The texts separated by commas.
pub open spec fn joined_by_commas(items: Seq<Seq<char>>) -> Seq<char>
    decreases items.len(),
{
    if items.len() == 0 {
        Seq::empty()
    } else if items.len() == 1 {
        items[0]
    } else {
        joined_by_commas(items.drop_last()) + seq![','] + items.last()
    }
}

/// Total length of the texts.
pub open spec fn total_len(items: Seq<Seq<char>>) -> nat
    decreases items.len(),
{
    if items.len() == 0 {
        0
    } else {
        total_len(items.drop_last()) + items.last().len()
    }
}

/// How the store list grows: one store's text is the list body by itself, and adding a
/// store to a non-empty list appends exactly one comma and the store's text. So the body
/// of `n >= 1` stores is as long as their texts together plus `n - 1` commas.
pub proof fn lemma_store_list_body(items: Seq<Seq<char>>, x: Seq<char>)
    ensures
        joined_by_commas(seq![x]) == x,
        items.len() > 0 ==> joined_by_commas(items.push(x)) == joined_by_commas(items) + seq![','] + x,
        items.len() > 0 ==> joined_by_commas(items).len() == total_len(items) + items.len() - 1,
    decreases items.len(),
{
    if items.len() > 0 {
        assert(items.push(x).drop_last() =~= items);
        if items.len() > 1 {
            lemma_store_list_body(items.drop_last(), items.last());
        }
    }
}

/// The opening of the store list message.
pub open spec fn shop_list_head() -> Seq<char> {
    "{\"list\": ["@
}

/// The message that sends the store list: `3LIST` and a JSON object whose `list` is the
/// array of the stores' JSON texts (`{"list": []}` when there are none).
pub open spec fn shop_list_spec(items: Seq<Seq<char>>) -> Seq<char> {
    "3LIST"@ + shop_list_head() + joined_by_commas(items) + "]}"@
}

/// The store list message for the stores' JSON texts.
pub fn shop_list_message(shop_jsons: &Vec<String>) -> (m: String)
    ensures
        m@ == shop_list_spec(shop_jsons@.map_values(|s: String| s@)),
{
    proof {
        reveal_strlit("{\"list\": [");
        reveal_strlit("3LIST");
        reveal_strlit("]}");
    }
    let ghost items = shop_jsons@.map_values(|s: String| s@);
    let mut m = String::from_str("3LIST");
    m.append("{\"list\": [");
    let ghost start = m@;
    let n = shop_jsons.len();
    let mut i: usize = 0;
    while i < n
        invariant
            n == shop_jsons@.len(),
            items == shop_jsons@.map_values(|s: String| s@),
            i <= n,
            m@ == start + joined_by_commas(items.subrange(0, i as int)),
        decreases n - i,
    {
        let ghost prev = m@;
        if i > 0 {
            m.append(",");
        }
        m.append(shop_jsons[i].as_str());
        proof {
            reveal_strlit(",");
            assert(","@ =~= seq![',']);
            let sub = items.subrange(0, i + 1);
            assert(sub.drop_last() =~= items.subrange(0, i as int));
            assert(sub.last() == shop_jsons@[i as int]@);
            if i == 0 {
                assert(sub.len() == 1);
                assert(joined_by_commas(sub) == sub[0]);
                assert(items.subrange(0, 0) =~= Seq::<Seq<char>>::empty());
                assert(m@ =~= start + joined_by_commas(sub));
            } else {
                assert(joined_by_commas(sub) == joined_by_commas(sub.drop_last()) + seq![','] + sub.last());
                assert(m@ =~= start + joined_by_commas(sub));
            }
        }
        i = i + 1;
    }
    assert(items.subrange(0, n as int) =~= items);
    m.append("]}");
    assert(m@ =~= shop_list_spec(items));
    m
}

impl Session {
    /// Handles a message on the store locator screen.
    /// - `STATUS<token><user>`: a status check;
    /// - `NEXT<store id>`: on to scanning, when the id is the chosen store's;
    /// - `ACK`: nothing to do; `LIST`: send the store list;
    /// - `STORE<id>`: choose a store (the id must be an `i32`);
    /// - anything else ends the session.
    pub fn store_locator_screen(&mut self, msg: &str, table: &mut ConnectionTable) -> (r: Result<StoreAction, ProtocolError>)
        requires
            old(self).wf(),
            old(table).wf(),
        ensures
            final(self).wf(),
            final(table).wf(),
            starts_with(msg@, "STATUS"@) ==> if drop_chars(msg@, 6) == old(self).token@ + old(self).username@ {
                &&& r matches Ok(StoreAction::Reply(reply))
                &&& status_accepted(old(self), final(self), reply@)
            } else {
                r == Err::<StoreAction, ProtocolError>(ProtocolError::InvalidStatusCheck) && *final(self) == *old(self)
            },
            !starts_with(msg@, "STATUS"@) && starts_with(msg@, "NEXT"@) ==> if drop_chars(msg@, 4) == int_decimal(old(self).shop_id as int) {
                &&& r matches Ok(StoreAction::Reply(reply)) && reply@ == "3NEXT"@
                &&& old(table).moved(final(table), old(self).addr@, ScreenState::Scanner)
            } else {
                r == Err::<StoreAction, ProtocolError>(ProtocolError::InvalidStoreId)
            },
            !starts_with(msg@, "STATUS"@) && !starts_with(msg@, "NEXT"@) ==> {
                if msg@ == "ACK"@ {
                    r matches Ok(StoreAction::Nothing)
                } else if msg@ == "LIST"@ {
                    r matches Ok(StoreAction::ListShops)
                } else if starts_with(msg@, "STORE"@) {
                    match parse_i32_spec(drop_chars(msg@, 5)) {
                        Some(id) => {
                            &&& r matches Ok(StoreAction::Reply(reply)) && reply@ == "3ACK"@
                            &&& final(self).shop_id == id
                        },
                        None => r == Err::<StoreAction, ProtocolError>(ProtocolError::InvalidStoreId),
                    }
                } else {
                    r == Err::<StoreAction, ProtocolError>(ProtocolError::UnknownMessage)
                }
            },
            !starts_with(msg@, "STATUS"@) && !(starts_with(msg@, "STORE"@) && !starts_with(msg@, "NEXT"@) && r is Ok)
                ==> *final(self) == *old(self),
            !starts_with(msg@, "STATUS"@) ==> {
                &&& final(self).addr == old(self).addr
                &&& final(self).token == old(self).token
                &&& final(self).token_exchanged == old(self).token_exchanged
                &&& final(self).nonce == old(self).nonce
                &&& final(self).username == old(self).username
                &&& final(self).status_check_timer == old(self).status_check_timer
                &&& final(self).sign_up_form == old(self).sign_up_form
            },
            !starts_with(msg@, "NEXT"@) || r is Err ==> final(table).entries@ == old(table).entries@,
    {
        proof {
            reveal_strlit("STATUS");
            reveal_strlit("NEXT");
            reveal_strlit("ACK");
            reveal_strlit("LIST");
            reveal_strlit("STORE");
            reveal_strlit("3NEXT");
            reveal_strlit("3ACK");
        }
        if has_prefix(msg, "STATUS") {
            let items = skip_chars(msg, 6);
            let mut expected = self.token.clone();
            expected.append(self.username.as_str());
            match self.status_check(items.as_str(), expected.as_str()) {
                Ok(reply) => Ok(StoreAction::Reply(reply)),
                Err(e) => Err(e),
            }
        } else if has_prefix(msg, "NEXT") {
            let id = skip_chars(msg, 4);
            let current = int_to_text(self.shop_id);
            if same_text(id.as_str(), current.as_str()) {
                table.set_screen(self.addr.as_str(), ScreenState::Scanner);
                Ok(StoreAction::Reply(String::from_str("3NEXT")))
            } else {
                Err(ProtocolError::InvalidStoreId)
            }
        } else if same_text(msg, "ACK") {
            Ok(StoreAction::Nothing)
        } else if same_text(msg, "LIST") {
            Ok(StoreAction::ListShops)
        } else if has_prefix(msg, "STORE") {
            let text = skip_chars(msg, 5);
            match parse_i32(text.as_str()) {
                Some(id) => {
                    self.shop_id = id;
                    Ok(StoreAction::Reply(String::from_str("3ACK")))
                },
                None => Err(ProtocolError::InvalidStoreId),
            }
        } else {
            Err(ProtocolError::UnknownMessage)
        }
    }
}

} // verus!
