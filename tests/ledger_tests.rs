use massage_ledger::credential::{
    classify_credential, is_legacy_sha256_hash, verify_legacy_sha256, CredentialScheme,
};
use massage_ledger::ledger::{admin_command_allowed, Ledger};
use massage_ledger::model::{
    Booking, ErrorKind, LedgerError, Role, StaffAccount, Status,
};
use massage_ledger::text::{same_text, text_less};
use sha2::Digest;

fn sha256_hex(s: &str) -> String {
    let digest = sha2::Sha256::digest(s.as_bytes());
    digest.iter().map(|b| format!("{:02x}", b)).collect()
}

fn account(id: i32, phone: &str, hash: &str) -> StaffAccount {
    StaffAccount {
        id,
        name: "Anna".to_string(),
        phone: phone.to_string(),
        password_hash: hash.to_string(),
        role: Role::Worker,
        registered_at: "2024-01-01 10:00:00".to_string(),
    }
}

fn booking(id: i32, name: &str, phone: &str, date: &str, status: Status) -> Booking {
    Booking {
        id,
        name: name.to_string(),
        phone: phone.to_string(),
        date: date.to_string(),
        bought: 0,
        status,
        created_by: None,
    }
}

#[test]
fn created_booking_is_pending_and_found() {
    let mut l = Ledger::new(4);
    let id = l.save_booking("  Olga ", " 555-01 ", "2024-05-01 10:00", 1, None).unwrap();
    let b = l.find_booking(id).unwrap();
    assert_eq!(b.id, id);
    assert_eq!(b.status, Status::Pending);
    assert_eq!(b.name, "Olga");
    assert_eq!(b.phone, "555-01");
    assert_eq!(b.date, "2024-05-01 10:00");
    assert_eq!(b.bought, 1);
    assert!(l.find_booking(id + 1).is_none());
}

#[test]
fn second_pending_booking_same_slot_conflicts() {
    let mut l = Ledger::new(4);
    let first = l.save_booking("Olga", "555-01", "2024-05-01 10:00", 0, None);
    let second = l.save_booking("Olga B", " 555-01", "2024-05-01 10:00", 0, None);
    assert!(first.is_ok());
    assert_eq!(second, Err(LedgerError::DuplicatePending));
    assert_eq!(second.unwrap_err().kind(), ErrorKind::Conflict);
    assert_eq!(l.get_bookings().len(), 1);
    l.update_status(first.unwrap(), "attended").unwrap();
    assert!(l.save_booking("Olga", "555-01", "2024-05-01 10:00", 0, None).is_ok());
}

#[test]
fn reopening_a_booking_into_a_taken_slot_conflicts() {
    let mut l = Ledger::new(4);
    let a = l.save_booking("Olga", "555-01", "2024-05-01 10:00", 0, None).unwrap();
    l.update_status(a, "missed").unwrap();
    l.save_booking("Olga", "555-01", "2024-05-01 10:00", 0, None).unwrap();
    assert_eq!(l.update_status(a, "pending"), Err(LedgerError::DuplicatePending));
    assert_eq!(l.find_booking(a).unwrap().status, Status::Missed);
}

#[test]
fn status_attended_then_missed_both_succeed() {
    let mut l = Ledger::new(4);
    let id = l.save_booking("Olga", "555-01", "2024-05-01 10:00", 0, None).unwrap();
    assert_eq!(l.update_status(id, "attended"), Ok(()));
    assert_eq!(l.find_booking(id).unwrap().status, Status::Attended);
    assert_eq!(l.update_status(id, "missed"), Ok(()));
    assert_eq!(l.find_booking(id).unwrap().status, Status::Missed);
}

#[test]
fn update_status_rejects_unknown_and_missing() {
    let mut l = Ledger::new(4);
    let id = l.save_booking("Olga", "555-01", "2024-05-01 10:00", 0, None).unwrap();
    assert_eq!(l.update_status(id, "done"), Err(LedgerError::UnknownStatus));
    assert_eq!(l.update_status(id, "Attended"), Err(LedgerError::UnknownStatus));
    assert_eq!(l.update_status(id + 7, "missed"), Err(LedgerError::BookingNotFound));
    assert_eq!(LedgerError::UnknownStatus.kind(), ErrorKind::Validation);
    assert_eq!(LedgerError::BookingNotFound.kind(), ErrorKind::NotFound);
}

#[test]
fn save_booking_validation_errors() {
    let mut l = Ledger::new(4);
    assert_eq!(l.save_booking("  ", "555", "2024", 0, None), Err(LedgerError::EmptyName));
    assert_eq!(l.save_booking("Olga", " \t", "2024", 0, None), Err(LedgerError::EmptyPhone));
    assert_eq!(l.save_booking("Olga", "555", "", 0, None), Err(LedgerError::EmptyDate));
    assert_eq!(l.save_booking("Olga", "555", "2024", 0, Some(3)), Err(LedgerError::UserNotFound));
    assert_eq!(l.get_bookings().len(), 0);
}

#[test]
fn save_booking_with_existing_creator() {
    let mut l = Ledger::new(4);
    l.register_user("Anna", "100", "pass1", "2024-01-01").unwrap();
    let staff = l.get_workers();
    let uid = staff[0].id;
    let id = l.save_booking("Olga", "555", "2024-05-01", 0, Some(uid)).unwrap();
    assert_eq!(l.find_booking(id).unwrap().created_by, Some(uid));
}

#[test]
fn edit_booking_rewrites_fields() {
    let mut l = Ledger::new(4);
    let id = l.save_booking("Olga", "555-01", "2024-05-01 10:00", 0, None).unwrap();
    assert_eq!(l.edit_booking(id, " Olga P ", "555-02 ", "2024-06-01 09:00", 1, "attended"), Ok(()));
    let b = l.find_booking(id).unwrap();
    assert_eq!(b.name, "Olga P");
    assert_eq!(b.phone, "555-02");
    assert_eq!(b.date, "2024-06-01 09:00");
    assert_eq!(b.bought, 1);
    assert_eq!(b.status, Status::Attended);
    assert_eq!(l.edit_booking(id, "", "555", "2024", 0, "pending"), Err(LedgerError::EmptyName));
    assert_eq!(l.edit_booking(id, "A", "", "2024", 0, "pending"), Err(LedgerError::EmptyPhone));
    assert_eq!(l.edit_booking(id, "A", "5", " ", 0, "pending"), Err(LedgerError::EmptyDate));
    assert_eq!(l.edit_booking(id, "A", "5", "2024", 0, "gone"), Err(LedgerError::UnknownStatus));
    assert_eq!(l.edit_booking(id + 1, "A", "5", "2024", 0, "pending"), Err(LedgerError::BookingNotFound));
}

#[test]
fn edit_booking_into_taken_slot_conflicts() {
    let mut l = Ledger::new(4);
    l.save_booking("Olga", "555", "2024-05-01", 0, None).unwrap();
    let b = l.save_booking("Ivan", "777", "2024-05-01", 0, None).unwrap();
    assert_eq!(l.edit_booking(b, "Ivan", "555", "2024-05-01", 0, "pending"), Err(LedgerError::DuplicatePending));
    assert_eq!(l.edit_booking(b, "Ivan", "555", "2024-05-01", 0, "attended"), Ok(()));
}

#[test]
fn delete_missing_booking_not_found() {
    let mut l = Ledger::new(4);
    l.save_booking("Olga", "555", "2024-05-01", 0, None).unwrap();
    assert_eq!(l.delete_booking(99), Err(LedgerError::BookingNotFound));
    assert_eq!(l.get_bookings().len(), 1);
}

#[test]
fn delete_existing_booking() {
    let mut l = Ledger::new(4);
    let a = l.save_booking("Olga", "555", "2024-05-01", 0, None).unwrap();
    let b = l.save_booking("Ivan", "777", "2024-05-02", 0, None).unwrap();
    assert_eq!(l.delete_booking(a), Ok(()));
    assert!(l.find_booking(a).is_none());
    assert!(l.find_booking(b).is_some());
    assert_eq!(l.delete_booking(a), Err(LedgerError::BookingNotFound));
}

#[test]
fn register_then_login_as_worker() {
    let mut l = Ledger::new(4);
    assert_eq!(l.register_user(" Anna ", " 100 ", "pass1", "2024-01-01 10:00:00"), Ok(()));
    let u = l.login_user("100", "pass1").unwrap();
    assert_eq!(u.role, Role::Worker);
    assert_eq!(u.name, "Anna");
    assert_eq!(u.phone, "100");
    assert_eq!(l.login_user("100", "wrong").unwrap_err(), LedgerError::InvalidCredentials);
}

#[test]
fn login_failures_do_not_tell_apart() {
    let mut l = Ledger::new(4);
    l.register_user("Anna", "100", "pass1", "2024-01-01").unwrap();
    let unknown = l.login_user("200", "pass1").unwrap_err();
    let wrong = l.login_user("100", "pass2").unwrap_err();
    assert_eq!(unknown, wrong);
    assert_eq!(unknown.kind(), ErrorKind::Authentication);
    assert_eq!(l.login_user(" ", "pass1").unwrap_err(), LedgerError::MissingCredentials);
    assert_eq!(l.login_user("100", "").unwrap_err(), LedgerError::MissingCredentials);
}

#[test]
fn register_existing_phone_conflicts() {
    let mut l = Ledger::new(4);
    l.register_user("Anna", "100", "pass1", "2024-01-01").unwrap();
    let before = l.get_workers().len();
    assert_eq!(l.register_user("Other", " 100", "pass2", "2024-01-02"), Err(LedgerError::PhoneTaken));
    assert_eq!(LedgerError::PhoneTaken.kind(), ErrorKind::Conflict);
    assert_eq!(l.get_workers().len(), before);
}

#[test]
fn register_validation_errors() {
    let mut l = Ledger::new(4);
    assert_eq!(l.register_user(" ", "100", "pass1", "t"), Err(LedgerError::EmptyName));
    assert_eq!(l.register_user("Anna", "", "pass1", "t"), Err(LedgerError::EmptyPhone));
    assert_eq!(l.register_user("Anna", "100", "abc", "t"), Err(LedgerError::PasswordTooShort));
    assert_eq!(l.register_user("Anna", "100", "абвг", "t"), Ok(()));
    assert_eq!(l.get_workers().len(), 1);
}

#[test]
fn legacy_hash_migrates_on_login() {
    let legacy = sha256_hex("secret123");
    assert_eq!(legacy.len(), 64);
    let mut l = Ledger::restore(Vec::new(), vec![account(1, "100", &legacy)], 4).unwrap();
    let u = l.login_user("100", "secret123").unwrap();
    assert_eq!(u.id, 1);
    let stored = l.account_rows()[0].password_hash.clone();
    assert!(!is_legacy_sha256_hash(&stored));
    assert!(stored.starts_with("$2"));
    assert!(bcrypt::verify("secret123", &stored).unwrap());
    assert!(l.login_user("100", "secret123").is_ok());
}

#[test]
fn legacy_hash_wrong_password_keeps_credential() {
    let legacy = sha256_hex("secret123");
    let mut l = Ledger::restore(Vec::new(), vec![account(1, "100", &legacy)], 4).unwrap();
    assert_eq!(l.login_user("100", "secret124").unwrap_err(), LedgerError::InvalidCredentials);
    assert_eq!(l.account_rows()[0].password_hash, legacy);
}

#[test]
fn unrecognised_credential_never_matches() {
    let mut l = Ledger::restore(Vec::new(), vec![account(1, "100", "secret123")], 4).unwrap();
    assert_eq!(l.login_user("100", "secret123").unwrap_err(), LedgerError::InvalidCredentials);
}

#[test]
fn broken_modern_credential_is_internal_error() {
    let mut l = Ledger::restore(Vec::new(), vec![account(1, "100", "$2b$xx$broken")], 4).unwrap();
    let e = l.login_user("100", "secret123").unwrap_err();
    assert_eq!(e, LedgerError::VerifyFailure);
    assert_eq!(e.kind(), ErrorKind::Internal);
}

#[test]
fn client_history_counts_and_largest_name() {
    let mut l = Ledger::new(4);
    let a = l.save_booking("Maria", "555", "2024-05-01", 0, None).unwrap();
    let b = l.save_booking("Masha", "555", "2024-05-02", 0, None).unwrap();
    let c = l.save_booking("Marie", "555", "2024-05-03", 0, None).unwrap();
    l.save_booking("Zoe", "777", "2024-05-03", 0, None).unwrap();
    l.update_status(a, "attended").unwrap();
    l.update_status(b, "attended").unwrap();
    l.update_status(c, "missed").unwrap();
    let h = l.check_client_history("555");
    assert_eq!(h.attended, 2);
    assert_eq!(h.missed, 1);
    assert_eq!(h.last_name, "Masha");
}

#[test]
fn client_history_unknown_phone_is_empty() {
    let l = Ledger::new(4);
    let h = l.check_client_history("555");
    assert_eq!(h.attended, 0);
    assert_eq!(h.missed, 0);
    assert_eq!(h.last_name, "");
}

#[test]
fn statistics_empty_all_zero() {
    let l = Ledger::new(4);
    let s = l.get_statistics();
    assert_eq!((s.total, s.attended, s.missed, s.pending, s.bought), (0, 0, 0, 0, 0));
}

#[test]
fn statistics_counts_and_bought_flag() {
    let mut l = Ledger::new(4);
    let a = l.save_booking("A", "1", "2024-01-01", 1, None).unwrap();
    let b = l.save_booking("B", "2", "2024-01-01", 2, None).unwrap();
    l.save_booking("C", "3", "2024-01-01", 1, None).unwrap();
    l.save_booking("D", "4", "2024-01-01", 0, None).unwrap();
    l.update_status(a, "attended").unwrap();
    l.update_status(b, "missed").unwrap();
    let s = l.get_statistics();
    assert_eq!(s.total, 4);
    assert_eq!(s.attended, 1);
    assert_eq!(s.missed, 1);
    assert_eq!(s.pending, 2);
    assert_eq!(s.bought, 2);
}

#[test]
fn make_admin_missing_then_idempotent() {
    let mut l = Ledger::new(4);
    assert_eq!(l.make_admin("100"), Err(LedgerError::UserNotFound));
    l.register_user("Anna", "100", "pass1", "2024-01-01").unwrap();
    assert_eq!(l.make_admin(" 100 "), Ok(()));
    assert_eq!(l.get_workers()[0].role, Role::Admin);
    assert_eq!(l.make_admin("100"), Ok(()));
    assert_eq!(l.get_workers()[0].role, Role::Admin);
    assert_eq!(l.get_workers().len(), 1);
}

#[test]
fn bookings_listed_newest_date_first() {
    let mut l = Ledger::new(4);
    l.save_booking("A", "1", "2024-01-02", 0, None).unwrap();
    l.save_booking("B", "2", "2024-03-01", 0, None).unwrap();
    l.save_booking("C", "3", "2023-12-31", 0, None).unwrap();
    let dates: Vec<String> = l.get_bookings().into_iter().map(|b| b.date).collect();
    assert_eq!(dates, vec!["2024-03-01", "2024-01-02", "2023-12-31"]);
}

#[test]
fn worker_history_filters_by_creator() {
    let mut l = Ledger::new(4);
    l.register_user("Anna", "100", "pass1", "2024-01-01").unwrap();
    l.register_user("Ivan", "200", "pass2", "2024-01-02").unwrap();
    let staff = l.get_workers();
    assert_eq!(staff[0].name, "Ivan");
    assert_eq!(staff[1].name, "Anna");
    let ivan = staff[0].id;
    let anna = staff[1].id;
    l.save_booking("A", "1", "2024-01-02", 0, Some(anna)).unwrap();
    l.save_booking("B", "2", "2024-03-01", 0, Some(anna)).unwrap();
    l.save_booking("C", "3", "2024-02-01", 0, Some(ivan)).unwrap();
    let mine: Vec<String> = l.get_worker_history(anna).into_iter().map(|b| b.name).collect();
    assert_eq!(mine, vec!["B", "A"]);
    assert_eq!(l.get_worker_history(ivan).len(), 1);
    assert_eq!(l.get_worker_history(99).len(), 0);
}

#[test]
fn restore_checks_rows() {
    let rows = vec![
        booking(3, "A", "1", "2024", Status::Pending),
        booking(5, "B", "1", "2024", Status::Attended),
    ];
    let mut l = Ledger::restore(rows, Vec::new(), 4).unwrap();
    assert_eq!(l.save_booking("C", "2", "2024", 0, None), Ok(6));
    let clash = vec![
        booking(1, "A", "1", "2024", Status::Pending),
        booking(2, "B", "1", "2024", Status::Pending),
    ];
    assert!(Ledger::restore(clash, Vec::new(), 4).is_none());
    let same_id = vec![
        booking(1, "A", "1", "2024", Status::Missed),
        booking(1, "B", "2", "2025", Status::Missed),
    ];
    assert!(Ledger::restore(same_id, Vec::new(), 4).is_none());
    assert!(Ledger::restore(vec![booking(0, "A", "1", "2024", Status::Missed)], Vec::new(), 4).is_none());
    let phones = vec![account(1, "100", "x"), account(2, "100", "y")];
    assert!(Ledger::restore(Vec::new(), phones, 4).is_none());
}

#[test]
fn legacy_shape_detection() {
    let hex = sha256_hex("abc");
    assert!(is_legacy_sha256_hash(&hex));
    assert!(is_legacy_sha256_hash(&hex.to_uppercase()));
    assert!(!is_legacy_sha256_hash(&hex[..63]));
    let mut bad = hex.clone();
    bad.replace_range(0..1, "g");
    assert!(!is_legacy_sha256_hash(&bad));
    assert_eq!(classify_credential(&hex), CredentialScheme::Legacy);
    assert_eq!(classify_credential("$2b$12$abc"), CredentialScheme::Modern);
    assert_eq!(classify_credential("plain"), CredentialScheme::Unrecognized);
}

#[test]
fn legacy_digest_compared_exactly() {
    let hex = sha256_hex("secret123");
    assert!(verify_legacy_sha256("secret123", &hex));
    assert!(!verify_legacy_sha256("secret123", "secret123"));
    assert!(!verify_legacy_sha256("secret123", &hex.to_uppercase()));
}

#[test]
fn text_helpers() {
    assert!(same_text("abc", "abc"));
    assert!(!same_text("abc", "abd"));
    assert!(text_less("2024-01-01", "2024-01-02"));
    assert!(text_less("ab", "abc"));
    assert!(!text_less("abc", "abc"));
    assert!(!text_less("b", "abc"));
}

#[test]
fn status_and_role_texts() {
    assert_eq!(Status::parse("pending"), Some(Status::Pending));
    assert_eq!(Status::parse("attended"), Some(Status::Attended));
    assert_eq!(Status::parse("missed"), Some(Status::Missed));
    assert_eq!(Status::parse("MISSED"), None);
    assert_eq!(Status::Attended.as_text(), "attended");
    assert_eq!(Role::Admin.as_text(), "admin");
    assert_eq!(Role::Worker.as_text(), "worker");
}

#[test]
fn admin_command_gate() {
    assert!(admin_command_allowed(true, None));
    assert!(admin_command_allowed(false, Some("1")));
    assert!(!admin_command_allowed(false, Some("true")));
    assert!(!admin_command_allowed(false, None));
}
