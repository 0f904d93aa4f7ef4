use scanning_backend::connection::ConnectionTable;
use scanning_backend::error::{FormField, ProtocolError};
use scanning_backend::login::{guest_account, guest_name_candidate, guest_time_needs_shift, StartAction};
use scanning_backend::main_app::{item_reply, requires_till, ScannerAction};
use scanning_backend::password::hash_new_password;
use scanning_backend::payment::{card_verdict, CardInfo, CardOutcome, PaymentAction};
use scanning_backend::screen::ScreenState;
use scanning_backend::session::Session;
use scanning_backend::sign_up::{
    contains_class, CharClass,
    new_account_from_form, review_sign_up_form, sanitize, FormReview, SignUpAction, SignUpForm,
};
use scanning_backend::store_locator::{shop_list_message, StoreAction};
use scanning_backend::text::{int_to_text, parse_i32, parse_u32};

fn setup(screen: ScreenState) -> (Session, ConnectionTable) {
    let mut t = ConnectionTable::new();
    assert!(t.register("a".to_string()));
    t.set_screen("a", screen);
    let s = Session::new("a".to_string(), "TOKEN12345".to_string());
    (s, t)
}

#[test]
fn integer_text_round_trips() {
    assert_eq!(parse_i32("12"), Some(12));
    assert_eq!(parse_i32("-5"), Some(-5));
    assert_eq!(parse_i32("+7"), Some(7));
    assert_eq!(parse_i32(""), None);
    assert_eq!(parse_i32("+"), None);
    assert_eq!(parse_i32("-"), None);
    assert_eq!(parse_i32("1a"), None);
    assert_eq!(parse_i32("2147483647"), Some(i32::MAX));
    assert_eq!(parse_i32("2147483648"), None);
    assert_eq!(parse_i32("-2147483648"), Some(i32::MIN));
    assert_eq!(parse_i32("٣"), None);
    assert_eq!(parse_u32("-1"), None);
    assert_eq!(parse_u32("+5"), Some(5));
    assert_eq!(parse_u32("4294967295"), Some(u32::MAX));
    for n in [0, 7, 10, -1, 123456, i32::MAX, i32::MIN] {
        assert_eq!(int_to_text(n), n.to_string());
        assert_eq!(parse_i32(&int_to_text(n)), Some(n));
        assert_eq!(parse_i32(&n.to_string()), n.to_string().parse::<i32>().ok());
    }
}

#[test]
fn start_screen_requests() {
    let (mut s, mut t) = setup(ScreenState::Start);
    match s.start_screen("LOGINbob pass word", &mut t).unwrap() {
        StartAction::CheckLogin { username, password } => {
            assert_eq!(username, "bob");
            assert_eq!(password, "pass word");
        }
        _ => panic!("expected a login"),
    }
    match s.start_screen("LOGINéric Secret1", &mut t).unwrap() {
        StartAction::CheckLogin { username, password } => {
            assert_eq!(username, "éric");
            assert_eq!(password, "Secret1");
        }
        _ => panic!("expected a login"),
    }
    match s.start_screen("LOGIN ", &mut t).unwrap() {
        StartAction::CheckLogin { username, password } => {
            assert_eq!(username, "");
            assert_eq!(password, "");
        }
        _ => panic!("expected a login"),
    }
    assert!(matches!(s.start_screen("GUEST", &mut t), Ok(StartAction::CreateGuest)));
    assert_eq!(s.start_screen("NEXT3bob", &mut t).err(), Some(ProtocolError::InvalidSessionUsername));
    assert_eq!(s.start_screen("NEXT9", &mut t).err(), Some(ProtocolError::InvalidMoveCode));
    assert_eq!(s.start_screen("HELLO", &mut t).err(), Some(ProtocolError::UnknownMessage));
    assert_eq!(s.start_screen("STATUSnope", &mut t).err(), Some(ProtocolError::InvalidStatusCheck));
    match s.start_screen("STATUSTOKEN12345", &mut t).unwrap() {
        StartAction::Reply(r) => assert_eq!(r, format!("STATUS{}", s.nonce)),
        _ => panic!("expected a reply"),
    }
    match s.start_screen("NEXT2", &mut t).unwrap() {
        StartAction::Reply(r) => assert_eq!(r, "1NEXT2"),
        _ => panic!("expected a reply"),
    }
    assert_eq!(t.screen_of("a"), Some(ScreenState::SignUp));
}

#[test]
fn login_checks_the_stored_hash() {
    let (mut s, _t) = setup(ScreenState::Start);
    let hash = hash_new_password("Secret123");
    assert!(hash.starts_with("$argon2"));
    assert_eq!(s.finish_login("bob".to_string(), "wrong", &vec![hash.clone()]), Some("1FAIL".to_string()));
    assert_eq!(s.username, "");
    assert_eq!(s.finish_login("bob".to_string(), "Secret123", &vec![]), Some("1FAIL".to_string()));
    assert_eq!(s.finish_login("bob".to_string(), "Secret123", &vec!["not a hash".to_string()]), None);
    assert_eq!(s.finish_login("bob".to_string(), "Secret123", &vec![hash]), Some("1OK".to_string()));
    assert_eq!(s.username, "bob");
    let mut t = ConnectionTable::new();
    assert!(t.register("a".to_string()));
    t.set_screen("a", ScreenState::Start);
    match s.start_screen("NEXT3bob", &mut t).unwrap() {
        StartAction::Reply(r) => assert_eq!(r, "1NEXT3"),
        _ => panic!("expected a reply"),
    }
    assert_eq!(t.screen_of("a"), Some(ScreenState::StoreLocator));
}

#[test]
fn guests_get_random_names_and_a_working_account() {
    let name = guest_name_candidate();
    assert!(name.starts_with("Guest"));
    assert_eq!(name.chars().count(), 15);
    let acct = guest_account(name.clone());
    assert_eq!(acct.username, name);
    assert_eq!(acct.first_name, "Reese");
    assert_eq!(acct.last_name, "Pineda");
    assert_eq!(acct.email, "thisIs@nEmail.com");
    let (mut s, _t) = setup(ScreenState::Start);
    assert_eq!(
        s.finish_login(name.clone(), "this is an amazing password", &vec![acct.password_hash]),
        Some("1OK".to_string())
    );
    assert_eq!(s.finish_guest(name.clone()), format!("1GUEST{}", name));
    assert!(guest_time_needs_shift(0, 0, 0));
    assert!(!guest_time_needs_shift(0, 0, 1));
}

const GOOD_FORM: &str = r#"{"username":"bob","password":"Secret123","first_name":"Bob","last_name":"Smith","dob":"2000-01-31","email":"bob@example.com"}"#;

#[test]
fn good_form_is_accepted() {
    match review_sign_up_form(GOOD_FORM) {
        Some(Ok(FormReview::Accepted(f))) => {
            assert_eq!(f.username, "bob");
            assert_eq!(f.password, "Secret123");
            assert_eq!(f.first_name, "Bob");
            assert_eq!(f.last_name, "Smith");
            assert_eq!(f.dob_string, "\"2000-01-31\"");
            assert_eq!(f.email, "bob@example.com");
            let d = f.dob.unwrap();
            assert_eq!((d.year, d.month, d.day, d.hour, d.minute, d.second), (2000, 1, 31, 0, 0, 0));
        }
        _ => panic!("expected an accepted form"),
    }
}

#[test]
fn bad_forms_are_rejected_with_messages() {
    let form = r#"{"username":"bo b","password":"short","first_name":"Bob","last_name":"Smith","dob":"2000-02-30","email":"not-an-email"}"#;
    match review_sign_up_form(form) {
        Some(Ok(FormReview::Rejected(r))) => assert_eq!(
            r,
            "2BADFORMusername cannot contain whitespace characters\n\
             password cannot be less than 8 characters\n\
             password does not have upper case characters\n\
             password does not have numeric characters\n\
             failed to parse date of birth: input is out of range\n\
             email is not valid\n"
        ),
        _ => panic!("expected a rejected form"),
    }
    let banned = r#"{"username":"b{b}","password":"Secret123","first_name":"Bob","last_name":"Smith","dob":"2000-01-31","email":"bob@example.com"}"#;
    match review_sign_up_form(banned) {
        Some(Ok(FormReview::Rejected(r))) => {
            assert_eq!(r, "2BADFORMusername contains banned characters (\\{}[]:\"')\n")
        }
        _ => panic!("expected a rejected form"),
    }
    assert_eq!(review_sign_up_form("{not json").map(|r| r.err()), Some(Some(ProtocolError::InvalidSignUpForm)));
    let empty = r#"{"username":"","password":"Secret123","first_name":"Bob","last_name":"Smith","dob":"2000-01-31","email":"bob@example.com"}"#;
    assert_eq!(review_sign_up_form(empty).map(|r| r.err()), Some(Some(ProtocolError::EmptyField(FormField::Username))));
    let control = "{\"username\":\"bob\",\"password\":\"Secret123\",\"first_name\":\"B\\u0001\",\"last_name\":\"Smith\",\"dob\":\"2000-01-31\",\"email\":\"bob@example.com\"}";
    // member texts are JSON, so a control character arrives escaped and passes
    match review_sign_up_form(control) {
        Some(Ok(FormReview::Accepted(f))) => assert_eq!(f.first_name, "B\\u0001"),
        _ => panic!("expected an accepted form"),
    }
    let nonascii = r#"{"username":"bob","password":"Sécret123","first_name":"Bob","last_name":"Smith","dob":"2000-01-31","email":"bob@example.com"}"#;
    assert_eq!(
        review_sign_up_form(nonascii).map(|r| r.err()),
        Some(Some(ProtocolError::ControlCharacters(FormField::Password)))
    );
    // a member whose JSON text is a single character cannot lose its quotes
    let digit = r#"{"username":5,"password":"Secret123","first_name":"Bob","last_name":"Smith","dob":"2000-01-31","email":"bob@example.com"}"#;
    assert!(review_sign_up_form(digit).is_none());
}

#[test]
fn sanitize_appends_to_existing_errors() {
    let mut f = SignUpForm::new_empty();
    f.username = "bob".to_string();
    f.password = "secret12".to_string();
    f.first_name = "Bob".to_string();
    f.last_name = "Smith".to_string();
    f.dob_string = "\"1999-12-01\"".to_string();
    f.email = "bob@example.com".to_string();
    let mut errors = "x".to_string();
    assert_eq!(sanitize(&mut f, &mut errors), Ok(()));
    assert_eq!(errors, "xpassword does not have upper case characters\n");
    assert_eq!(f.dob.unwrap().year, 1999);
    f.last_name = "\"\"".to_string();
    assert_eq!(sanitize(&mut f, &mut errors), Err(ProtocolError::EmptyField(FormField::LastName)));
}

#[test]
fn sign_up_name_check_and_email_step() {
    let (mut s, mut t) = setup(ScreenState::SignUp);
    let form = match review_sign_up_form(GOOD_FORM) {
        Some(Ok(FormReview::Accepted(f))) => f,
        _ => panic!("expected an accepted form"),
    };
    let mut pending = vec!["alice".to_string()];
    let acct = new_account_from_form(&form);
    assert_eq!(acct.username, "bob");
    assert_eq!(s.finish_name_check(form, false, &mut pending), "2NAMEOK");
    assert_eq!(pending, vec!["alice".to_string(), "bob".to_string()]);
    let other = match review_sign_up_form(GOOD_FORM) {
        Some(Ok(FormReview::Accepted(f))) => f,
        _ => panic!("expected an accepted form"),
    };
    let mut s2 = Session::new("b".to_string(), "TOKEN99999".to_string());
    assert_eq!(s2.finish_name_check(other, false, &mut pending), "2BADNAME");
    assert_eq!(pending.len(), 2);
    match s.sign_up_screen("EMAILABCDEG", &mut t).unwrap() {
        SignUpAction::Reply(r) => assert_eq!(r, "2BADEMAIL"),
        _ => panic!("expected a reply"),
    }
    assert!(matches!(s.sign_up_screen("EMAILABCDEF", &mut t), Ok(SignUpAction::CreateAccount)));
    match s.sign_up_screen("CHECK{}", &mut t).unwrap() {
        SignUpAction::ReviewForm(j) => assert_eq!(j, "{}"),
        _ => panic!("expected a form"),
    }
    assert_eq!(s.finish_sign_up(&mut pending), "2OK");
    assert_eq!(s.username, "bob");
    assert_eq!(pending, vec!["alice".to_string()]);
    assert_eq!(s.sign_up_form.username, "");
    match s.sign_up_screen("NEXT3bob", &mut t).unwrap() {
        SignUpAction::Reply(r) => assert_eq!(r, "2NEXT3"),
        _ => panic!("expected a reply"),
    }
    assert_eq!(t.screen_of("a"), Some(ScreenState::StoreLocator));
}

#[test]
fn store_locator_requests() {
    let (mut s, mut t) = setup(ScreenState::StoreLocator);
    s.username = "bob".to_string();
    assert!(matches!(s.store_locator_screen("ACK", &mut t), Ok(StoreAction::Nothing)));
    assert!(matches!(s.store_locator_screen("LIST", &mut t), Ok(StoreAction::ListShops)));
    assert_eq!(s.store_locator_screen("STOREx", &mut t).err(), Some(ProtocolError::InvalidStoreId));
    match s.store_locator_screen("STORE42", &mut t).unwrap() {
        StoreAction::Reply(r) => assert_eq!(r, "3ACK"),
        _ => panic!("expected a reply"),
    }
    assert_eq!(s.shop_id, 42);
    assert_eq!(s.store_locator_screen("NEXT41", &mut t).err(), Some(ProtocolError::InvalidStoreId));
    assert!(s.store_locator_screen("STATUSTOKEN12345bob", &mut t).is_ok());
    match s.store_locator_screen("NEXT42", &mut t).unwrap() {
        StoreAction::Reply(r) => assert_eq!(r, "3NEXT"),
        _ => panic!("expected a reply"),
    }
    assert_eq!(t.screen_of("a"), Some(ScreenState::Scanner));
}

#[test]
fn shop_list_framing() {
    let shops = vec![
        r#"{"name":"A","address":"1 Road"}"#.to_string(),
        r#"{"name":"B","address":"2 Road"}"#.to_string(),
    ];
    assert_eq!(
        shop_list_message(&shops),
        r#"3LIST{"list": [{"name":"A","address":"1 Road"},{"name":"B","address":"2 Road"}]}"#
    );
    assert_eq!(shop_list_message(&vec![]), r#"3LIST{"list": []}"#);
    assert_eq!(shop_list_message(&vec!["{}".to_string()]), r#"3LIST{"list": [{}]}"#);
}

#[test]
fn scanner_requests() {
    let (mut s, mut t) = setup(ScreenState::Scanner);
    s.username = "bob".to_string();
    s.shop_id = 3;
    assert!(matches!(s.scanner_screen("ITEM17", "0", &mut t), Ok(ScannerAction::LookUpItem(17))));
    match s.scanner_screen("ITEMabc", "0", &mut t).unwrap() {
        ScannerAction::Reply(r) => assert_eq!(r, "4INVALID"),
        _ => panic!("expected a reply"),
    }
    match s.scanner_screen("CHECKOUT{\"list\":[]}", "0", &mut t).unwrap() {
        ScannerAction::Checkout(j) => assert_eq!(j, "{\"list\":[]}"),
        _ => panic!("expected a checkout"),
    }
    assert!(s.scanner_screen("STATUSTOKEN12345bob3", "0", &mut t).is_ok());
    assert_eq!(s.scanner_screen("NEXT1.5", "2.5", &mut t).err(), Some(ProtocolError::InvalidTotal));
    match s.scanner_screen("NEXT2.5", "2.5", &mut t).unwrap() {
        ScannerAction::Reply(r) => assert_eq!(r, "4NEXT"),
        _ => panic!("expected a reply"),
    }
    assert_eq!(t.screen_of("a"), Some(ScreenState::Payment));
    assert_eq!(item_reply(None), "4INVALID");
    assert_eq!(item_reply(Some("{}".to_string())), "4ITEM{}");
    assert!(requires_till(&vec![0, 18, 0]));
    assert!(!requires_till(&vec![0, 0]));
}

fn card(number: &str, expiry: &str, cvv: &str) -> CardInfo {
    CardInfo { number: number.to_string(), expiry: expiry.to_string(), cvv: cvv.to_string() }
}

#[test]
fn card_judgement() {
    let now = 1_700_000_000;
    assert!(matches!(
        card_verdict(&card("4111111111111111", "01/2099", "123"), now),
        Ok(CardOutcome::Accepted { year: 2099, month: 1 })
    ));
    assert!(matches!(
        card_verdict(&card("4111111111111111", "12/2099", "123"), now),
        Ok(CardOutcome::Accepted { year: 2099, month: 12 })
    ));
    assert!(matches!(card_verdict(&card("4111111111111111", "00/2099", "123"), now), Ok(CardOutcome::Declined)));
    assert!(matches!(card_verdict(&card("4111111111111111", "13/2099", "123"), now), Ok(CardOutcome::Declined)));
    assert!(matches!(card_verdict(&card("4111111111111111", "01/2000", "123"), now), Ok(CardOutcome::Declined)));
    assert!(matches!(card_verdict(&card("4111111111111111", "1/2099", "123"), now), Ok(CardOutcome::Declined)));
    assert!(matches!(card_verdict(&card("4111111111111111", "01/2099", "12"), now), Ok(CardOutcome::Declined)));
    assert!(matches!(card_verdict(&card("4111111111111112", "01/2099", "123"), now), Ok(CardOutcome::Rejected)));
    assert!(matches!(card_verdict(&card("41x1", "01/2099", "123"), now), Err(ProtocolError::BypassedSanitation)));
    assert!(card(" ", "", "").value_is_empty() == false);
    assert!(card("", "", "").value_is_empty());
}

#[test]
fn payment_requests() {
    let (mut s, _t) = setup(ScreenState::Payment);
    s.username = "bob".to_string();
    s.shop_id = 3;
    assert!(matches!(s.payment_screen("APPLE", "2.5", false), Ok(PaymentAction::PayByApp)));
    assert_eq!(s.payment_screen("GOOGLE", "2.5", true).err(), Some(ProtocolError::TillRequired));
    match s.payment_screen("TRANSFER0123456789", "2.5", false).unwrap() {
        PaymentAction::Reply(r) => assert_eq!(r, "5OK"),
        _ => panic!("expected a reply"),
    }
    match s.payment_screen("TRANSFERé12345678", "2.5", false).unwrap() {
        PaymentAction::Reply(r) => assert_eq!(r, "5OK"),
        _ => panic!("expected a reply"),
    }
    match s.payment_screen("TRANSFER012", "2.5", false).unwrap() {
        PaymentAction::Reply(r) => assert_eq!(r, "5INVALID"),
        _ => panic!("expected a reply"),
    }
    assert!(matches!(s.payment_screen("CARDREC", "2.5", false), Ok(PaymentAction::LoadSavedCard)));
    match s.payment_screen("CARD{}", "2.5", false).unwrap() {
        PaymentAction::PayByCard(j) => assert_eq!(j, "{}"),
        _ => panic!("expected a card"),
    }
    assert_eq!(s.payment_screen("CARD{}", "2.5", true).err(), Some(ProtocolError::TillRequired));
    assert!(s.payment_screen("STATUSTOKEN12345bob32.5", "2.5", false).is_ok());
    assert_eq!(s.payment_screen("PAYPAL", "2.5", false).err(), Some(ProtocolError::UnknownMessage));
}

#[test]
fn character_classes() {
    assert!(contains_class("a\u{2003}b", CharClass::Whitespace));
    assert!(!contains_class("ab", CharClass::Whitespace));
    assert!(contains_class("x\u{7f}", CharClass::Control));
    assert!(contains_class("x\u{1f}", CharClass::Control));
    assert!(!contains_class("x\u{80}", CharClass::Control));
    assert!(contains_class("é", CharClass::NonAscii));
    assert!(contains_class("a:b", CharClass::Banned));
    assert!(contains_class("'", CharClass::Banned));
    assert!(!contains_class("abc", CharClass::Banned));
    assert!(contains_class("٣", CharClass::Numeric));
    assert!(!contains_class("abc", CharClass::Numeric));
    assert!(contains_class("aB", CharClass::Uppercase));
    assert!(!contains_class("ab", CharClass::Uppercase));
    assert!(contains_class("Ab", CharClass::Lowercase));
}

#[test]
fn control_characters_end_the_sign_up() {
    let mut f = SignUpForm::new_empty();
    f.username = "bob".to_string();
    f.password = "Secret123".to_string();
    f.first_name = "B\u{1}".to_string();
    f.last_name = "Smith".to_string();
    f.dob_string = "\"1999-12-01\"".to_string();
    f.email = "bob@example.com".to_string();
    let mut errors = String::new();
    assert_eq!(sanitize(&mut f, &mut errors), Err(ProtocolError::ControlCharacters(FormField::FirstName)));
    f.first_name = "Bob".to_string();
    f.email = "bób@example.com".to_string();
    assert_eq!(sanitize(&mut f, &mut errors), Err(ProtocolError::ControlCharacters(FormField::Email)));
    f.email = "bob@example.com".to_string();
    f.dob_string = "\"\"".to_string();
    assert_eq!(sanitize(&mut f, &mut errors), Err(ProtocolError::EmptyField(FormField::DateOfBirth)));
    f.dob_string = "1999-12-01".to_string();
    assert_eq!(sanitize(&mut f, &mut errors), Ok(()));
    assert_eq!(errors, "failed to parse date of birth: input contains invalid characters\n");
}

#[test]
fn hashes_use_fresh_salts() {
    let a = hash_new_password("Secret123");
    let b = hash_new_password("Secret123");
    assert_ne!(a, b);
}
