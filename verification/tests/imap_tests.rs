use certbot_alfahosting::imap::{
    code_from_capture, fallback_login_code, is_login_subject, try_login_code, FetchedMessage,
    ImapError, InboxScan, MessageError, ScanAction,
};

const SUBJECT: &[u8] = b"=?UTF-8?Q?Alfahosting_-_Anmeldung_von_einem_neuen_Ger=C3=A4t?=";

fn login_mail(body: &str) -> FetchedMessage {
    FetchedMessage { subject: Some(SUBJECT.to_vec()), text: Some(body.as_bytes().to_vec()) }
}

fn other_mail() -> FetchedMessage {
    FetchedMessage { subject: Some(b"Newsletter".to_vec()), text: None }
}

#[test]
fn login_subject_is_recognised() {
    assert!(is_login_subject(SUBJECT));
    assert!(!is_login_subject(b"Alfahosting"));
    assert!(!is_login_subject(b""));
}

#[test]
fn code_is_taken_from_the_login_mail() {
    let m = login_mail("Ihr Code lautet:\r\n  123456  \r\nGruss");
    assert_eq!(try_login_code(&m), Ok(Some("123456".to_string())));
    assert_eq!(try_login_code(&login_mail("x  654321  y")), Ok(Some("654321".to_string())));
}

#[test]
fn leftmost_code_wins() {
    let m = login_mail("  111111    222222  ");
    assert_eq!(try_login_code(&m), Ok(Some("111111".to_string())));
}

#[test]
fn other_mails_yield_nothing() {
    assert_eq!(try_login_code(&other_mail()), Ok(None));
    let hello = FetchedMessage { subject: Some(b"Hello".to_vec()), text: Some(vec![0xff]) };
    assert_eq!(try_login_code(&hello), Ok(None));
}

#[test]
fn unreadable_login_mails_are_errors() {
    let no_subject = FetchedMessage { subject: None, text: None };
    assert_eq!(try_login_code(&no_subject), Err(MessageError::MissingSubject));
    let no_body = FetchedMessage { subject: Some(SUBJECT.to_vec()), text: None };
    assert_eq!(try_login_code(&no_body), Err(MessageError::MissingBody));
    let bad = FetchedMessage { subject: Some(SUBJECT.to_vec()), text: Some(vec![0xff, 0xfe]) };
    assert_eq!(try_login_code(&bad), Err(MessageError::NotUtf8));
    assert_eq!(try_login_code(&login_mail(" 123456 ")), Err(MessageError::NoCode));
    assert_eq!(try_login_code(&login_mail("  12345  ")), Err(MessageError::NoCode));
}

#[test]
fn capture_results_map_to_outcomes() {
    assert_eq!(code_from_capture(Some(Some("123456".to_string()))), Ok(Some("123456".to_string())));
    assert_eq!(code_from_capture(Some(None)), Err(MessageError::NoCode));
    assert_eq!(code_from_capture(None), Err(MessageError::PatternRejected));
}

#[test]
fn scan_state_is_exposed() {
    let (mut scan, _) = InboxScan::new(7);
    assert_eq!(scan.newest_message(), 7);
    assert_eq!(scan.scanned_so_far(), 0);
    scan.messages_fetched(&vec![]).unwrap();
    assert_eq!(scan.scanned_so_far(), 1);
}

#[test]
fn scan_fetches_newest_first_and_stops_at_the_code() {
    let (mut scan, action) = InboxScan::new(40);
    assert_eq!(action, ScanAction::Fetch(40));
    assert_eq!(scan.messages_fetched(&vec![other_mail()]), Ok(ScanAction::Fetch(39)));
    assert_eq!(scan.messages_fetched(&vec![]), Ok(ScanAction::Fetch(38)));
    assert_eq!(
        scan.messages_fetched(&vec![other_mail(), login_mail("\n\n987654\n\n")]),
        Ok(ScanAction::Found("987654".to_string()))
    );
}

#[test]
fn scan_gives_up_after_twenty_messages() {
    let (mut scan, _) = InboxScan::new(100);
    for k in 1..20u32 {
        assert_eq!(scan.messages_fetched(&vec![other_mail()]), Ok(ScanAction::Fetch(100 - k)));
    }
    assert_eq!(scan.messages_fetched(&vec![other_mail()]), Ok(ScanAction::Exhausted));
    assert_eq!(fallback_login_code(), "test");
}

#[test]
fn scan_of_a_small_inbox_runs_out_of_messages() {
    let (mut scan, action) = InboxScan::new(1);
    assert_eq!(action, ScanAction::Fetch(1));
    assert_eq!(scan.messages_fetched(&vec![]), Ok(ScanAction::Fetch(0)));
    assert_eq!(scan.messages_fetched(&vec![]), Ok(ScanAction::OutOfMessages));
}

#[test]
fn scan_reports_unreadable_login_mail() {
    let (mut scan, _) = InboxScan::new(5);
    let bad = FetchedMessage { subject: None, text: None };
    assert_eq!(scan.messages_fetched(&vec![bad]), Err(MessageError::MissingSubject));
}

#[test]
fn imap_error_description() {
    let e = ImapError("login failed".to_string());
    assert_eq!(e.description(), "login failed");
}
