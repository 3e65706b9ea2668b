use xauthenticator::account::AccountChanges;
use xauthenticator::base32::base32_decode;
use xauthenticator::config::{Builder, Config, Settings};
use xauthenticator::entity::PageParam;
use xauthenticator::error::CommonError;
use xauthenticator::otp::{hotp, totp, Algorithm};
use xauthenticator::vault::{AppState, MasterKeyRecord};

const PASSWORD: &str = "Str0ng!Passw0rd";
const URI: &str = "otpauth://totp/Example:alice@example.com?secret=JBSWY3DPEHPK3PXP&issuer=Example";

fn config(auto_lock: bool, timeout: u64) -> Config {
    let mut c = Config::init("config.yaml".to_string());
    let mut b = Builder::default();
    b.settings(Settings {
        theme: "system".to_string(),
        language: "en".to_string(),
        auto_lock,
        auto_lock_timeout: timeout,
    });
    c.set_builder(b);
    c
}

fn unlocked_vault(auto_lock: bool, timeout: u64) -> AppState {
    let mut s = AppState::new(config(auto_lock, timeout));
    s.init_app(PASSWORD, 100).unwrap().expect("a new record");
    s.unlock_with_password(PASSWORD, 100).unwrap();
    s
}

fn changes(id: &str) -> AccountChanges {
    AccountChanges {
        id: id.to_string(),
        issuer: None,
        label: None,
        algorithm: None,
        digits: None,
        period: None,
        counter: None,
        secret: None,
        note: None,
        icon: None,
    }
}

#[test]
fn initialize_then_unlock() {
    let mut s = AppState::new(config(false, 10));
    assert!(!s.is_initialized());
    let rec = s.init_app(PASSWORD, 100).unwrap().expect("a new record");
    assert_eq!(rec.salt.len(), 16);
    assert_eq!(rec.nonce.len(), 24);
    assert_eq!(rec.ciphertext.len(), 48);
    assert!(s.is_initialized());
    assert!(s.is_locked());
    assert_eq!(s.unlock_with_password(PASSWORD, 200), Ok(()));
    assert!(!s.is_locked());
    assert_eq!(s.runtime_timestamp(), 200);
}

#[test]
fn wrong_password_is_refused() {
    let mut s = AppState::new(config(false, 10));
    s.init_app(PASSWORD, 100).unwrap();
    assert_eq!(s.unlock_with_password("wrong", 200), Err(CommonError::InvalidMasterKey));
    assert!(s.is_locked());
}

#[test]
fn weak_passwords_are_refused_at_setup() {
    let mut s = AppState::new(config(false, 10));
    assert_eq!(s.init_app("short1!A", 1).err(), Some(CommonError::InvalidPassword));
    assert_eq!(s.init_app("alllowercase1!", 1).err(), Some(CommonError::InvalidPassword));
    assert!(!s.is_initialized());
}

#[test]
fn setup_is_a_no_op_the_second_time() {
    let mut s = AppState::new(config(false, 10));
    let first = s.init_app(PASSWORD, 1).unwrap().unwrap();
    assert!(s.init_app("Other!Passw0rd1", 2).unwrap().is_none());
    assert_eq!(s.init_app("weak", 3).err(), Some(CommonError::InvalidPassword));
    let kept = s.record().unwrap();
    assert_eq!(kept.salt, first.salt);
    assert_eq!(kept.ciphertext, first.ciphertext);
}

#[test]
fn uninitialized_vault_refuses() {
    let mut s = AppState::new(config(false, 10));
    assert_eq!(s.unlock_with_password(PASSWORD, 1), Err(CommonError::MasterKeyNotInitialized));
    assert_eq!(s.get_code("x", 1), Err(CommonError::MasterKeyNotInitialized));
    assert_eq!(s.add_account(URI, 1).err(), Some(CommonError::MasterKeyNotInitialized));
}

#[test]
fn added_account_gives_the_code_of_its_secret() {
    let mut s = unlocked_vault(false, 10);
    let m = s.add_account(URI, 1_000).unwrap();
    assert_eq!(m.issuer, "Example");
    assert_eq!(m.label, "alice@example.com");
    assert_eq!(m.id.len(), 36);
    assert_eq!(m.created_at, Some(1_000));
    assert_ne!(m.secret_cipher, b"JBSWY3DPEHPK3PXP".to_vec());
    let secret = base32_decode(b"JBSWY3DPEHPK3PXP").unwrap();
    let code = s.get_code(&m.id, 1_111_111_109).unwrap();
    assert_eq!(code.len(), 6);
    assert!(code.chars().all(|c| c.is_ascii_digit()));
    assert_eq!(code, totp(&secret, 30, 6, Algorithm::Sha1, 1_111_111_109));
}

#[test]
fn hotp_account_uses_its_counter() {
    let mut s = unlocked_vault(false, 10);
    let m = s
        .add_account("otpauth://hotp/x?secret=GEZDGNBVGY3TQOJQGEZDGNBVGY3TQOJQ&counter=1", 5)
        .unwrap();
    assert_eq!(s.get_code(&m.id, 99), Ok("287082".to_string()));
    assert_eq!(hotp(b"12345678901234567890", 1, 6, Algorithm::Sha1), "287082");
}

#[test]
fn bad_uris_and_secrets_are_refused() {
    let mut s = unlocked_vault(false, 10);
    assert!(matches!(s.add_account("otpauth://totp/x?issuer=a", 1), Err(CommonError::RequestError(_))));
    assert_eq!(s.add_account("otpauth://totp/x?secret=not*base32", 1).err(), Some(CommonError::InvalidSecretFormat));
    assert!(matches!(s.add_account("otpauth://totp/x?secret=AAAA&digits=11", 1), Err(CommonError::RequestError(_))));
    assert!(matches!(s.add_account("otpauth://totp/x?secret=AAAA&period=0", 1), Err(CommonError::RequestError(_))));
    assert_eq!(s.accounts().len(), 0);
}

#[test]
fn lock_denies_every_secret_operation() {
    let mut s = unlocked_vault(false, 10);
    let m = s.add_account(URI, 1).unwrap();
    s.lock(2);
    assert!(s.is_locked());
    assert_eq!(s.locked_timestamp(), Some(2));
    assert_eq!(s.get_code(&m.id, 3), Err(CommonError::AppIsLocked));
    assert_eq!(s.add_account(URI, 3).err(), Some(CommonError::AppIsLocked));
    assert_eq!(s.update_account(changes(&m.id), 3).err(), Some(CommonError::AppIsLocked));
    assert_eq!(s.remove_account(&m.id, 3), Err(CommonError::AppIsLocked));
    assert_eq!(s.list_accounts(PageParam { current: 0, size: 10 }, 3).err(), Some(CommonError::AppIsLocked));
    s.lock(4);
    assert!(s.is_locked());
}

#[test]
fn idle_session_locks_itself() {
    let mut s = unlocked_vault(true, 60);
    let m = s.add_account(URI, 130).unwrap();
    assert!(s.get_code(&m.id, 189).is_ok());
    assert_eq!(s.get_code(&m.id, 249), Err(CommonError::AppIsLocked));
    assert!(s.is_locked());
    assert_eq!(s.locked_timestamp(), Some(249));
}

#[test]
fn app_state_reports_and_auto_locks() {
    let mut s = unlocked_vault(true, 60);
    let st = s.app_state(120).unwrap();
    assert!(st.is_initialized);
    assert!(!st.is_locked);
    assert_eq!(st.runtime_timestamp, 100);
    assert_eq!(s.app_state(160), Err(CommonError::AppIsLocked));
    let after = s.app_state(161).unwrap();
    assert!(after.is_locked);
    assert_eq!(after.locked_timestamp, Some(160));
}

#[test]
fn remove_and_not_found() {
    let mut s = unlocked_vault(false, 10);
    let m = s.add_account(URI, 1).unwrap();
    assert_eq!(s.remove_account("no-such-id", 2), Err(CommonError::NotFound));
    assert_eq!(s.remove_account(&m.id, 2), Ok(()));
    assert_eq!(s.get_code(&m.id, 3), Err(CommonError::NotFound));
    assert_eq!(s.remove_account(&m.id, 3), Err(CommonError::NotFound));
}

#[test]
fn update_changes_fields_and_secret() {
    let mut s = unlocked_vault(false, 10);
    let m = s.add_account(URI, 1).unwrap();
    let mut c = changes(&m.id);
    c.label = Some("bob".to_string());
    c.digits = Some(8);
    let u = s.update_account(c, 50).unwrap();
    assert_eq!(u.label, "bob");
    assert_eq!(u.issuer, "Example");
    assert_eq!(u.digits, 8);
    assert_eq!(u.secret_cipher, m.secret_cipher);
    assert_eq!(u.created_at, Some(1));
    assert_eq!(u.updated_at, Some(50));

    let mut c2 = changes(&m.id);
    c2.secret = Some("GEZDGNBVGY3TQOJQGEZDGNBVGY3TQOJQ".to_string());
    let u2 = s.update_account(c2, 60).unwrap();
    assert_ne!(u2.secret_cipher, m.secret_cipher);
    assert_eq!(s.get_code(&m.id, 59), Ok("94287082".to_string()));

    let mut bad = changes(&m.id);
    bad.secret = Some("1111".to_string());
    assert_eq!(s.update_account(bad, 70).err(), Some(CommonError::InvalidSecretFormat));
    assert_eq!(s.update_account(changes("missing"), 70).err(), Some(CommonError::NotFound));
    let mut zero = changes(&m.id);
    zero.digits = Some(0);
    assert!(matches!(s.update_account(zero, 70), Err(CommonError::RequestError(_))));
}

#[test]
fn listing_pages() {
    let mut s = unlocked_vault(false, 10);
    let a = s.add_account(URI, 1).unwrap();
    let b = s.add_account("otpauth://totp/b?secret=AAAA", 2).unwrap();
    let c = s.add_account("otpauth://totp/c?secret=AAAA", 3).unwrap();
    let first = s.list_accounts(PageParam { current: 0, size: 2 }, 4).unwrap();
    assert_eq!(first.iter().map(|m| m.id.clone()).collect::<Vec<_>>(), vec![a.id.clone(), b.id.clone()]);
    let second = s.list_accounts(PageParam { current: 1, size: 2 }, 4).unwrap();
    assert_eq!(second.iter().map(|m| m.id.clone()).collect::<Vec<_>>(), vec![c.id.clone()]);
    assert!(s.list_accounts(PageParam { current: 5, size: 2 }, 4).unwrap().is_empty());
}

#[test]
fn launch_restores_persisted_state_locked() {
    let mut s = unlocked_vault(false, 10);
    let m = s.add_account(URI, 1).unwrap();
    let rec = s.record();
    let rows = s.accounts();
    let mut t = AppState::new(config(false, 10));
    assert_eq!(t.launch_app(config(false, 10), rec, rows, 500), Ok(()));
    assert!(t.is_initialized());
    assert!(t.is_locked());
    assert_eq!(t.get_code(&m.id, 501), Err(CommonError::AppIsLocked));
    t.unlock_with_password(PASSWORD, 502).unwrap();
    assert_eq!(t.get_code(&m.id, 503), s.get_code(&m.id, 503));
}

#[test]
fn launch_refuses_duplicate_ids() {
    let mut s = unlocked_vault(false, 10);
    let m = s.add_account(URI, 1).unwrap();
    let mut t = AppState::new(config(false, 10));
    let r = t.launch_app(config(false, 10), s.record(), vec![m.clone(), m], 5);
    assert!(matches!(r, Err(CommonError::StorageError(_))));
    assert!(!t.is_initialized());
}

#[test]
fn record_layout_round_trips() {
    let rec = MasterKeyRecord { salt: vec![1; 16], nonce: vec![2; 24], ciphertext: vec![3; 48] };
    let bytes = rec.to_bytes();
    assert_eq!(bytes.len(), 88);
    assert_eq!(&bytes[..16], &[1u8; 16][..]);
    let back = MasterKeyRecord::from_bytes(&bytes).unwrap();
    assert_eq!(back.salt, rec.salt);
    assert_eq!(back.nonce, rec.nonce);
    assert_eq!(back.ciphertext, rec.ciphertext);
    assert!(MasterKeyRecord::from_bytes(&bytes[..39]).is_none());
}

#[test]
fn restore_puts_rows_back() {
    let mut s = unlocked_vault(false, 10);
    let before = s.accounts();
    let m = s.add_account(URI, 1).unwrap();
    assert_eq!(s.accounts().len(), 1);
    assert_eq!(s.restore_accounts(before), Ok(()));
    assert_eq!(s.accounts().len(), 0);
    assert_eq!(s.get_code(&m.id, 2), Err(CommonError::NotFound));
    assert!(!s.is_locked());
}
