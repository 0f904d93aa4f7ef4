use scanning_backend::connection::{ConnectionTable, TOKEN_LENGTH, TOKEN_SPACE};
use scanning_backend::error::ProtocolError;
use scanning_backend::screen::{handled_screen, ScreenState};
use scanning_backend::session::{
    fresh_nonce, nonce_check, screen_check, ClientEvent, LoopStep, Session, StopReason,
};

fn table_with(addrs: &[&str]) -> ConnectionTable {
    let mut t = ConnectionTable::new();
    for a in addrs {
        assert!(t.register(a.to_string()));
    }
    t
}

#[test]
fn screen_codes_and_labels() {
    assert_eq!(ScreenState::TokenHandshake.as_i32(), 0);
    assert_eq!(ScreenState::Start.as_i32(), 1);
    assert_eq!(ScreenState::SignUp.as_i32(), 2);
    assert_eq!(ScreenState::StoreLocator.as_i32(), 3);
    assert_eq!(ScreenState::Scanner.as_i32(), 4);
    assert_eq!(ScreenState::Payment.as_i32(), 5);
    assert_eq!(ScreenState::Transfer.as_i32(), 6);
    assert_eq!(ScreenState::End.as_i32(), 7);
    assert_eq!(ScreenState::TokenHandshake.label(), "Token Handshake");
    assert_eq!(ScreenState::StoreLocator.label(), "Store Locator");
    assert_eq!(ScreenState::SignUp.label(), "SignUp");
}

#[test]
fn register_refuses_duplicate_addresses() {
    let mut t = ConnectionTable::new();
    assert!(t.register("1.2.3.4:5".to_string()));
    assert!(!t.register("1.2.3.4:5".to_string()));
    assert!(t.register("1.2.3.4:6".to_string()));
    assert_eq!(t.entries.len(), 2);
    assert_eq!(t.entries[0].token, "-1");
    assert_eq!(t.entries[0].screen, ScreenState::TokenHandshake);
    assert!(t.contains_addr("1.2.3.4:6"));
    assert!(!t.contains_addr("1.2.3.4:7"));
}

#[test]
fn fresh_tokens_are_unused_and_alphanumeric() {
    let mut t = table_with(&["a", "b"]);
    t.set_token("a", &"AAAAAAAAAA".to_string());
    for _ in 0..50 {
        let tok = t.fresh_token();
        assert_eq!(tok.chars().count(), TOKEN_LENGTH);
        assert!(tok.chars().all(|c| c.is_ascii_alphanumeric()));
        assert!(!t.token_in_use(&tok));
    }
    assert!(t.token_in_use("AAAAAAAAAA"));
}

#[test]
fn numbered_tokens_count_in_base_62() {
    assert_eq!(ConnectionTable::token_of_number(0), "AAAAAAAAAA");
    assert_eq!(ConnectionTable::token_of_number(1), "BAAAAAAAAA");
    assert_eq!(ConnectionTable::token_of_number(26), "aAAAAAAAAA");
    assert_eq!(ConnectionTable::token_of_number(61), "9AAAAAAAAA");
    assert_eq!(ConnectionTable::token_of_number(62), "ABAAAAAAAA");
    assert_eq!(ConnectionTable::token_of_number(TOKEN_SPACE - 1), "9999999999");
}

#[test]
fn first_free_numbered_token_skips_tokens_in_use() {
    let mut t = table_with(&["a", "b", "c"]);
    assert_eq!(t.first_free_numbered_token(), "AAAAAAAAAA");
    t.set_token("a", &"AAAAAAAAAA".to_string());
    t.set_token("b", &"BAAAAAAAAA".to_string());
    t.set_token("c", &"DAAAAAAAAA".to_string());
    assert_eq!(t.first_free_numbered_token(), "CAAAAAAAAA");
    let tok = t.fresh_token();
    assert!(!t.token_in_use(&tok));
}

#[test]
fn set_screen_moves_only_that_client() {
    let mut t = table_with(&["a", "b"]);
    t.set_screen("b", ScreenState::Payment);
    assert_eq!(t.screen_of("a"), Some(ScreenState::TokenHandshake));
    assert_eq!(t.screen_of("b"), Some(ScreenState::Payment));
    assert_eq!(t.screen_of("c"), None);
}

#[test]
fn closing_removes_the_entry_wherever_it_stands() {
    let mut t = table_with(&["a", "b", "c"]);
    t.remove_closed("b");
    assert_eq!(t.entries.len(), 2);
    assert!(!t.contains_addr("b"));
    t.remove_closed("c");
    assert_eq!(t.entries.len(), 1);
    assert!(!t.contains_addr("c"));
    assert_eq!(t.entries[0].client_addr, "a");
    t.remove_closed("zzz");
    assert_eq!(t.entries.len(), 1);
    t.remove_closed("a");
    assert!(t.entries.is_empty());
    t.remove_closed("a");
    assert!(t.entries.is_empty());
}

#[test]
fn nonce_check_strips_the_nonce() {
    assert_eq!(nonce_check("-1", "0NEXT"), Ok("0NEXT".to_string()));
    let n = "abcdefghijklmnopqrst";
    assert_eq!(nonce_check(n, "abcdefghijklmnopqrst1LOGINx y"), Ok("1LOGINx y".to_string()));
    assert_eq!(nonce_check(n, "abcdefghijklmnopqrsX1NEXT2"), Err(ProtocolError::NonceMismatch));
    assert_eq!(nonce_check(n, "short"), Err(ProtocolError::NonceMismatch));
    // 20 bytes but fewer than 20 characters
    assert_eq!(nonce_check(n, "ééééééééééé"), Err(ProtocolError::NonceMismatch));
}

#[test]
fn fresh_nonces_are_printable() {
    for _ in 0..20 {
        let n = fresh_nonce();
        assert_eq!(n.chars().count(), 20);
        assert!(n.chars().all(|c| (32..127).contains(&(c as u32))));
    }
}

#[test]
fn screen_check_compares_digit_and_screen() {
    let mut t = table_with(&["a"]);
    assert_eq!(screen_check("0NEXT", &t, "a"), Ok(('0', "NEXT".to_string())));
    assert_eq!(screen_check("1NEXT", &t, "a"), Err(ProtocolError::WrongScreen));
    assert_eq!(screen_check("", &t, "a"), Err(ProtocolError::EmptyScreenState));
    // a client without an entry is not checked
    assert_eq!(screen_check("x", &t, "b"), Ok(('x', "".to_string())));
    t.set_screen("a", ScreenState::Start);
    assert_eq!(screen_check("1STATUS", &t, "a"), Ok(('1', "STATUS".to_string())));
}

#[test]
fn token_handshake_flow() {
    let mut t = table_with(&["a"]);
    let mut s = Session::new("a".to_string(), "TOKEN12345".to_string());
    assert_eq!(s.token_exchange("NEXT", &mut t), Err(ProtocolError::TokenNotExchanged));
    assert_eq!(s.token_exchange("WRONG", &mut t), Err(ProtocolError::TokenMismatch));
    let reply = s.token_exchange("TOKEN12345", &mut t).unwrap();
    assert!(s.token_exchanged);
    assert_eq!(s.nonce.chars().count(), 20);
    assert_eq!(reply, format!("0{}", s.nonce));
    assert_eq!(t.entries[0].token, "TOKEN12345");
    assert_eq!(t.entries[0].screen, ScreenState::TokenHandshake);
    assert_eq!(s.token_exchange("NEXT", &mut t), Ok("0NEXT".to_string()));
    assert_eq!(t.entries[0].screen, ScreenState::Start);
}

#[test]
fn events_drive_the_connection_loop() {
    let mut t = table_with(&["a", "b"]);
    let mut s = Session::new("a".to_string(), "TOKEN12345".to_string());
    match s.handle_event(ClientEvent::Binary, &mut t) {
        LoopStep::Reply(r) => assert_eq!(r, "are u hacking me UWU"),
        _ => panic!("binary messages get a reply"),
    }
    match s.handle_event(ClientEvent::Text("0TOKEN12345".to_string()), &mut t) {
        LoopStep::Dispatch(c, rest) => {
            assert_eq!(c, '0');
            assert_eq!(rest, "TOKEN12345");
        }
        _ => panic!("expected a dispatch"),
    }
    match s.handle_event(ClientEvent::Text("3LIST".to_string()), &mut t) {
        LoopStep::Stop(StopReason::Protocol(ProtocolError::WrongScreen)) => {}
        _ => panic!("wrong screen must stop the loop"),
    }
    assert!(matches!(s.handle_event(ClientEvent::Other, &mut t), LoopStep::Continue));
    assert!(matches!(s.handle_event(ClientEvent::Failed, &mut t), LoopStep::Stop(StopReason::Failed)));
    assert!(matches!(s.handle_event(ClientEvent::Close, &mut t), LoopStep::Stop(StopReason::Closed)));
    assert!(!t.contains_addr("a"));
    let mut last = Session::new("b".to_string(), "TOKEN54321".to_string());
    assert!(matches!(last.handle_event(ClientEvent::Close, &mut t), LoopStep::Stop(StopReason::Closed)));
    assert!(t.entries.is_empty());
}

#[test]
fn silent_client_times_out_after_three_minutes() {
    let mut t = table_with(&["a"]);
    let mut s = Session::new("a".to_string(), "TOKEN12345".to_string());
    for _ in 0..35 {
        assert!(matches!(s.handle_event(ClientEvent::Timeout, &mut t), LoopStep::Continue));
    }
    assert_eq!(s.status_check_timer, 175);
    assert!(matches!(
        s.handle_event(ClientEvent::Timeout, &mut t),
        LoopStep::Stop(StopReason::TimedOut)
    ));
}

#[test]
fn status_check_restarts_timer_and_refreshes_nonce() {
    let mut s = Session::new("a".to_string(), "TOKEN12345".to_string());
    s.status_check_timer = 100;
    assert_eq!(s.status_check("nope", "TOKEN12345"), Err(ProtocolError::InvalidStatusCheck));
    assert_eq!(s.status_check_timer, 100);
    let reply = s.status_check("TOKEN12345", "TOKEN12345").unwrap();
    assert_eq!(s.status_check_timer, 0);
    assert_eq!(reply, format!("STATUS{}", s.nonce));
    assert_eq!(s.nonce.chars().count(), 20);
}

#[test]
fn screen_characters_name_their_handlers() {
    assert_eq!(handled_screen('0'), Some(ScreenState::TokenHandshake));
    assert_eq!(handled_screen('1'), Some(ScreenState::Start));
    assert_eq!(handled_screen('2'), Some(ScreenState::SignUp));
    assert_eq!(handled_screen('3'), Some(ScreenState::StoreLocator));
    assert_eq!(handled_screen('4'), Some(ScreenState::Scanner));
    assert_eq!(handled_screen('5'), Some(ScreenState::Payment));
    assert_eq!(handled_screen('6'), None);
    assert_eq!(handled_screen('x'), None);
}

#[test]
fn silence_closes_a_session_from_any_timer() {
    let mut t = table_with(&["a"]);
    let mut s = Session::new("a".to_string(), "TOKEN12345".to_string());
    s.status_check_timer = 172;
    assert!(matches!(s.handle_event(ClientEvent::Timeout, &mut t), LoopStep::Continue));
    assert_eq!(s.status_check_timer, 177);
    assert!(matches!(s.handle_event(ClientEvent::Timeout, &mut t), LoopStep::Stop(StopReason::TimedOut)));
}
