use vstd::prelude::*;
use vstd::string::StringSliceAdditionalSpecFns;
use crate::account::{AccountChanges, AccountStore, Model, ModelView, has_id, page_of, views, with_changes};
use crate::base32::{base32_decode, base32_spec};
use crate::config::Config;
use crate::crypto::{
    decrypt_xchacha20poly1305, encrypt_xchacha20poly1305, key_from_vec, opens_to, os_random_bytes,
    bytes_result,
};
use crate::entity::PageParam;
use crate::error::CommonError;
use crate::kdf::{argon2id_of, derive_key, salt_ok, SALT_LEN};
use crate::otp::{algorithm_of, hotp, hotp_spec, totp, totp_spec, Algorithm};
use crate::password::{password_ok, validate_password};
use crate::uri::{otpauth_spec, parse_otpauth, OtpUriError, ParsedOtpView};

verus! {

/// The persisted record that wraps the master key: the salt of the password
/// derivation, and the sealed key with its nonce.
#[derive(Debug, Clone)]
pub struct MasterKeyRecord {
    pub salt: Vec<u8>,
    pub nonce: Vec<u8>,
    pub ciphertext: Vec<u8>,
}

pub struct RecordView {
    pub salt: Seq<u8>,
    pub nonce: Seq<u8>,
    pub ciphertext: Seq<u8>,
}

impl View for MasterKeyRecord {
    type V = RecordView;

    open spec fn view(&self) -> RecordView {
        RecordView { salt: self.salt@, nonce: self.nonce@, ciphertext: self.ciphertext@ }
    }
}

/// The fixed layout of a stored record: the 16-byte salt, the 24-byte
/// nonce, then the sealed key.
pub open spec fn record_bytes(r: RecordView) -> Seq<u8> {
    r.salt + r.nonce + r.ciphertext
}

impl MasterKeyRecord {
    /// The record in its fixed layout (see `record_bytes`).
    pub fn to_bytes(&self) -> (r: Vec<u8>)
        ensures
            r@ == record_bytes(self@),
    {
        let mut out = crate::account::copy_bytes(&self.salt);
        let mut nonce = crate::account::copy_bytes(&self.nonce);
        let mut ct = crate::account::copy_bytes(&self.ciphertext);
        out.append(&mut nonce);
        out.append(&mut ct);
        out
    }

    /// Reads the fixed layout back; `None` when fewer than 40 bytes are
    /// given.
    pub fn from_bytes(b: &[u8]) -> (r: Option<MasterKeyRecord>)
        ensures
            match r {
                Some(rec) => b@.len() >= 40 && rec.salt@ == b@.subrange(0, 16) && rec.nonce@ == b@.subrange(16, 40)
                    && rec.ciphertext@ == b@.subrange(40, b@.len() as int) && record_bytes(rec@) == b@,
                None => b@.len() < 40,
            },
    {
        if b.len() < 40 {
            return None;
        }
        let salt = slice_range(b, 0, 16);
        let nonce = slice_range(b, 16, 40);
        let ciphertext = slice_range(b, 40, b.len());
        let rec = MasterKeyRecord { salt, nonce, ciphertext };
        assert(record_bytes(rec@) =~= b@);
        Some(rec)
    }
}

/// A copy of `b[from..to]`.
fn slice_range(b: &[u8], from: usize, to: usize) -> (r: Vec<u8>)
    requires
        from <= to <= b@.len(),
    ensures
        r@ == b@.subrange(from as int, to as int),
{
    let mut out: Vec<u8> = Vec::new();
    let mut i = from;
    while i < to
        invariant
            from <= i <= to <= b@.len(),
            out@ == b@.subrange(from as int, i as int),
        decreases to - i,
    {
        out.push(b[i]);
        assert(out@ =~= b@.subrange(from as int, i + 1));
        i = i + 1;
    }
    out
}

pub open spec fn record_view(r: Option<MasterKeyRecord>) -> Option<RecordView> {
    match r {
        Some(rec) => Some(rec@),
        None => None,
    }
}

/// The master key that `rec` wraps for password bytes `pw`: the 32-byte
/// message that the key derived from `pw` and the salt opens the ciphertext to.
pub open spec fn unwrapped_key(rec: RecordView, pw: Seq<u8>) -> Option<Seq<u8>> {
    let wk = argon2id_of(pw, rec.salt);
    if salt_ok(rec.salt) && pw.len() <= 0xFFFF_FFFF && exists|p: Seq<u8>| #[trigger] opens_to(wk, rec.nonce, rec.ciphertext, Ok(p)) {
        let p = choose|p: Seq<u8>| #[trigger] opens_to(wk, rec.nonce, rec.ciphertext, Ok(p));
        if p.len() == 32 {
            Some(p)
        } else {
            None
        }
    } else {
        None
    }
}

/// The state of the vault, as the contracts see it.
pub struct VaultView {
    pub initialized: bool,
    pub locked: bool,
    pub last_activity: u64,
    pub locked_at: Option<u64>,
    pub auto_lock: bool,
    pub timeout: u64,
    pub record: Option<RecordView>,
    pub key: Option<Seq<u8>>,
    pub accounts: Seq<ModelView>,
}

/// The snapshot of the session that the UI polls.
#[derive(Debug, Clone, Copy, PartialEq, Eq, Structural)]
pub struct AppStatus {
    pub is_initialized: bool,
    pub runtime_timestamp: u64,
    pub is_locked: bool,
    pub locked_timestamp: Option<u64>,
}

/// The vault session: the master-key record, the master key while
/// unlocked, the accounts, and the idle auto-lock.
pub struct AppState {
    is_initialized: bool,
    runtime_timestamp: u64,
    is_locked: bool,
    locked_timestamp: Option<u64>,
    config: Config,
    record: Option<MasterKeyRecord>,
    master_key: Option<[u8; 32]>,
    accounts: AccountStore,
}

pub open spec fn key_view(k: Option<[u8; 32]>) -> Option<Seq<u8>> {
    match k {
        Some(a) => Some(a@),
        None => None,
    }
}

/// `now - since`, or 0 when the clock went back.
pub open spec fn elapsed(now: u64, since: u64) -> nat {
    if now >= since {
        (now - since) as nat
    } else {
        0
    }
}

/// Whether an unlocked session has been idle for its timeout.
pub open spec fn idle(v: VaultView, now: u64) -> bool {
    v.auto_lock && elapsed(now, v.last_activity) >= v.timeout
}

/// The state after locking at `now`: the key is gone.
pub open spec fn locked_view(v: VaultView, now: u64) -> VaultView {
    VaultView { locked: true, locked_at: Some(now), key: None, ..v }
}

/// The refusal, if any, of an operation on secrets at `now`.
pub open spec fn refusal(v: VaultView, now: u64) -> Option<CommonError> {
    if !v.initialized {
        Some(CommonError::MasterKeyNotInitialized)
    } else if v.locked {
        Some(CommonError::AppIsLocked)
    } else if idle(v, now) {
        Some(CommonError::AppIsLocked)
    } else {
        None
    }
}

/// The state that the lock check leaves: locked when it found the session idle.
pub open spec fn after_check(v: VaultView, now: u64) -> VaultView {
    if v.initialized && !v.locked && idle(v, now) {
        locked_view(v, now)
    } else {
        v
    }
}

/// The state after a successful operation at `now`.
pub open spec fn touched(v: VaultView, now: u64) -> VaultView {
    VaultView { last_activity: now, ..v }
}

/// What unlocking with password bytes `pw` at `now` gives, and the state after.
pub open spec fn unlock_spec(v: VaultView, pw: Seq<u8>, now: u64) -> (Result<(), CommonError>, VaultView) {
    match v.record {
        None => (Err(CommonError::MasterKeyNotInitialized), v),
        Some(rec) => match unwrapped_key(rec, pw) {
            None => (Err(CommonError::InvalidMasterKey), v),
            Some(k) => (Ok(()), VaultView { locked: false, locked_at: None, key: Some(k), last_activity: now, ..v }),
        },
    }
}

/// A timestamp as stored in a row.
pub open spec fn stamp(now: u64) -> i64 {
    if now <= i64::MAX as u64 {
        now as i64
    } else {
        i64::MAX
    }
}

impl AppState {
    pub closed spec fn view(&self) -> VaultView {
        VaultView {
            initialized: self.is_initialized,
            locked: self.is_locked,
            last_activity: self.runtime_timestamp,
            locked_at: self.locked_timestamp,
            auto_lock: self.config.spec_builder().settings.auto_lock,
            timeout: self.config.spec_builder().settings.auto_lock_timeout,
            record: record_view(self.record),
            key: key_view(self.master_key),
            accounts: self.accounts@,
        }
    }

    /// The session invariant: initialized exactly when a record is held;
    /// the key is held exactly while unlocked; never unlocked before
    /// initialization; account ids unique.
    pub closed spec fn wf(&self) -> bool {
        &&& self.is_initialized == self.record.is_some()
        &&& self.master_key.is_some() == !self.is_locked
        &&& (!self.is_initialized ==> self.is_locked)
        &&& self.accounts.wf()
    }

    /// A fresh session that has no record yet.
    pub fn new(config: Config) -> (r: AppState)
        ensures
            r.wf(),
            !r.view().initialized,
            r.view().locked,
            r.view().record is None,
            r.view().accounts == Seq::<ModelView>::empty(),
            r.view().auto_lock == config.spec_builder().settings.auto_lock,
            r.view().timeout == config.spec_builder().settings.auto_lock_timeout,
    {
        AppState {
            is_initialized: false,
            runtime_timestamp: 0,
            is_locked: true,
            locked_timestamp: None,
            config,
            record: None,
            master_key: None,
            accounts: AccountStore::new(),
        }
    }

    pub fn is_initialized(&self) -> (r: bool)
        ensures
            r == self.view().initialized,
    {
        self.is_initialized
    }

    pub fn is_locked(&self) -> (r: bool)
        ensures
            r == self.view().locked,
    {
        self.is_locked
    }

    pub fn runtime_timestamp(&self) -> (r: u64)
        ensures
            r == self.view().last_activity,
    {
        self.runtime_timestamp
    }

    pub fn locked_timestamp(&self) -> (r: Option<u64>)
        ensures
            r == self.view().locked_at,
    {
        self.locked_timestamp
    }

    pub fn config(&self) -> (r: &Config)
        ensures
            r.spec_builder().settings.auto_lock == self.view().auto_lock,
            r.spec_builder().settings.auto_lock_timeout == self.view().timeout,
    {
        &self.config
    }

    /// A copy of the master-key record, for persisting it.
    pub fn record(&self) -> (r: Option<MasterKeyRecord>)
        ensures
            record_view(r) == self.view().record,
    {
        match &self.record {
            Some(rec) => Some(MasterKeyRecord {
                salt: crate::account::copy_bytes(&rec.salt),
                nonce: crate::account::copy_bytes(&rec.nonce),
                ciphertext: crate::account::copy_bytes(&rec.ciphertext),
            }),
            None => None,
        }
    }

    /// Copies of all account rows, for persisting them.
    pub fn accounts(&self) -> (r: Vec<Model>)
        ensures
            views(r@) == self.view().accounts,
    {
        self.accounts.rows()
    }

    /// Overwrites the key bytes, then drops the key.
    fn erase_key(&mut self)
        ensures
            final(self).master_key is None,
            final(self).is_initialized == old(self).is_initialized,
            final(self).is_locked == old(self).is_locked,
            final(self).runtime_timestamp == old(self).runtime_timestamp,
            final(self).locked_timestamp == old(self).locked_timestamp,
            final(self).config == old(self).config,
            final(self).record == old(self).record,
            final(self).accounts == old(self).accounts,
    {
        if self.master_key.is_some() {
            self.master_key = Some([0u8; 32]);
        }
        self.master_key = None;
    }

    /// Locks the vault: the key is overwritten and dropped. Always succeeds.
    pub fn lock(&mut self, now: u64)
        requires
            old(self).wf(),
        ensures
            final(self).wf(),
            final(self).view() == locked_view(old(self).view(), now),
    {
        self.erase_key();
        self.is_locked = true;
        self.locked_timestamp = Some(now);
    }

    /// The check in front of every operation on secrets: refuses when the
    /// vault was never initialized or is locked, and locks it (refusing too)
    /// when it has been idle for the configured timeout.
    pub fn require_unlocked(&mut self, now: u64) -> (r: Result<(), CommonError>)
        requires
            old(self).wf(),
        ensures
            final(self).wf(),
            match refusal(old(self).view(), now) {
                Some(e) => r == Err::<(), CommonError>(e) && final(self).view() == after_check(old(self).view(), now),
                None => r is Ok && final(self).view() == old(self).view(),
            },
    {
        if !self.is_initialized {
            return Err(CommonError::MasterKeyNotInitialized);
        }
        if self.is_locked {
            return Err(CommonError::AppIsLocked);
        }
        let auto_lock = self.config.builder().settings.auto_lock;
        let timeout = self.config.builder().settings.auto_lock_timeout;
        let since = if now >= self.runtime_timestamp { now - self.runtime_timestamp } else { 0 };
        if auto_lock && since >= timeout {
            self.lock(now);
            return Err(CommonError::AppIsLocked);
        }
        Ok(())
    }

    /// The session snapshot; an unlocked session that has been idle for
    /// its timeout is locked first, and `AppIsLocked` returned.
    pub fn app_state(&mut self, now: u64) -> (r: Result<AppStatus, CommonError>)
        requires
            old(self).wf(),
        ensures
            final(self).wf(),
            final(self).view() == after_check(old(self).view(), now),
            old(self).view().initialized && !old(self).view().locked && idle(old(self).view(), now)
                ==> r == Err::<AppStatus, CommonError>(CommonError::AppIsLocked),
            !(old(self).view().initialized && !old(self).view().locked && idle(old(self).view(), now))
                ==> r == Ok::<AppStatus, CommonError>(AppStatus {
                    is_initialized: old(self).view().initialized,
                    runtime_timestamp: old(self).view().last_activity,
                    is_locked: old(self).view().locked,
                    locked_timestamp: old(self).view().locked_at,
                }),
    {
        if self.is_initialized && !self.is_locked {
            match self.require_unlocked(now) {
                Ok(()) => {},
                Err(e) => {
                    return Err(e);
                },
            }
        }
        Ok(AppStatus {
            is_initialized: self.is_initialized,
            runtime_timestamp: self.runtime_timestamp,
            is_locked: self.is_locked,
            locked_timestamp: self.locked_timestamp,
        })
    }

    /// Loads what was persisted, at start-up: the record (if the vault was
    /// ever set up), the account rows and the configuration. The session
    /// starts locked. `StorageError` (and nothing changed) when two rows
    /// share an id.
    pub fn launch_app(&mut self, config: Config, record: Option<MasterKeyRecord>, rows: Vec<Model>, now: u64) -> (r: Result<(), CommonError>)
        requires
            old(self).wf(),
        ensures
            final(self).wf(),
            r is Ok ==> final(self).view() == (VaultView {
                initialized: record.is_some(),
                locked: true,
                last_activity: now,
                locked_at: Some(now),
                auto_lock: config.spec_builder().settings.auto_lock,
                timeout: config.spec_builder().settings.auto_lock_timeout,
                record: record_view(record),
                key: None,
                accounts: views(rows@),
            }),
            r matches Err(e) ==> e is StorageError && final(self).view() == old(self).view(),
            r is Err <==> !crate::account::unique_ids(views(rows@)),
    {
        let store = match AccountStore::from_rows(rows) {
            Ok(s) => s,
            Err(e) => {
                return Err(e);
            },
        };
        self.erase_key();
        self.is_initialized = record.is_some();
        self.record = record;
        self.is_locked = true;
        self.locked_timestamp = Some(now);
        self.runtime_timestamp = now;
        self.config = config;
        self.accounts = store;
        Ok(())
    }

    /// Puts back a table of account rows taken earlier with `accounts`,
    /// when persisting a change failed; the session is left as it is.
    /// `StorageError` (and nothing changed) when two rows share an id.
    pub fn restore_accounts(&mut self, rows: Vec<Model>) -> (r: Result<(), CommonError>)
        requires
            old(self).wf(),
        ensures
            final(self).wf(),
            r is Ok ==> final(self).view() == (VaultView { accounts: views(rows@), ..old(self).view() }),
            r matches Err(e) ==> e is StorageError && final(self).view() == old(self).view(),
            r is Err <==> !crate::account::unique_ids(views(rows@)),
    {
        match AccountStore::from_rows(rows) {
            Ok(store) => {
                self.accounts = store;
                Ok(())
            },
            Err(e) => Err(e),
        }
    }

    /// First-time setup. The password must meet the policy
    /// (`InvalidPassword`); when a record is already held this is then a
    /// no-op (`Ok(None)`). Otherwise a random 32-byte master key is made, sealed
    /// under the key derived from the password and a fresh salt, and the
    /// new record is returned for persisting. The vault is then locked.
    pub fn init_app(&mut self, password: &str, now: u64) -> (r: Result<Option<MasterKeyRecord>, CommonError>)
        requires
            old(self).wf(),
        ensures
            final(self).wf(),
            !password_ok(password@) ==> r == Err::<Option<MasterKeyRecord>, CommonError>(CommonError::InvalidPassword),
            password_ok(password@) && old(self).view().record is Some ==> (r matches Ok(None)) && final(self).view() == old(self).view(),
            password_ok(password@) && old(self).view().record is None && password.spec_bytes().len() <= 0xFFFF_FFFF
                ==> (r matches Ok(Some(_))) || (r matches Err(e) && e is UnexpectedError),
            r is Err ==> final(self).view() == old(self).view(),
            r matches Err(e) ==> e == CommonError::InvalidPassword || e is UnexpectedError,
            old(self).view().record is None ==> (r is Ok <==> (r matches Ok(Some(_)))),
            r matches Ok(Some(rec)) ==> {
                &&& password_ok(password@)
                &&& rec.salt@.len() == SALT_LEN
                &&& rec.nonce@.len() == 24
                &&& unwrapped_key(rec@, password.spec_bytes()) is Some
                &&& final(self).view() == (VaultView {
                    initialized: true,
                    locked: true,
                    locked_at: Some(now),
                    key: None,
                    record: Some(rec@),
                    ..old(self).view()
                })
            },
    {
        match validate_password(password) {
            Ok(()) => {},
            Err(e) => {
                return Err(e);
            },
        }
        if self.record.is_some() {
            return Ok(None);
        }
        let (wrapping, salt) = match derive_key(password, None) {
            Ok(pair) => pair,
            Err(e) => {
                return Err(e);
            },
        };
        let master = match os_random_bytes(32) {
            Some(b) => b,
            None => {
                return Err(CommonError::UnexpectedError(String::from_str("random source failed")));
            },
        };
        let (nonce, ciphertext) = match encrypt_xchacha20poly1305(master.as_slice(), &wrapping) {
            Ok(pair) => pair,
            Err(e) => {
                return Err(e);
            },
        };
        let ghost pw = password.spec_bytes();
        let ghost rv = RecordView { salt: salt@, nonce: nonce@, ciphertext: ciphertext@ };
        assert(opens_to(argon2id_of(pw, rv.salt), rv.nonce, rv.ciphertext, Ok(master@)));
        let rec = MasterKeyRecord { salt, nonce, ciphertext };
        proof {
            let wk = argon2id_of(pw, rv.salt);
            let p = choose|p: Seq<u8>| #[trigger] opens_to(wk, rv.nonce, rv.ciphertext, Ok(p));
            assert(opens_to(wk, rv.nonce, rv.ciphertext, Ok(p)));
            assert(p == master@);
        }
        self.record = Some(rec);
        self.is_initialized = true;
        self.erase_key();
        self.is_locked = true;
        self.locked_timestamp = Some(now);
        Ok(self.record())
    }

    /// Unlocks with the master password (see `unlock_spec`): the record's
    /// salt and the password give the wrapping key, which must open the
    /// sealed master key. `InvalidMasterKey` stands for a wrong password and
    /// for a damaged record alike.
    pub fn unlock_with_password(&mut self, password: &str, now: u64) -> (r: Result<(), CommonError>)
        requires
            old(self).wf(),
        ensures
            final(self).wf(),
            (r, final(self).view()) == unlock_spec(old(self).view(), password.spec_bytes(), now),
    {
        let (salt, nonce, ciphertext) = match &self.record {
            Some(rec) => (
                crate::account::copy_bytes(&rec.salt),
                crate::account::copy_bytes(&rec.nonce),
                crate::account::copy_bytes(&rec.ciphertext),
            ),
            None => {
                return Err(CommonError::MasterKeyNotInitialized);
            },
        };
        let ghost pw = password.spec_bytes();
        let ghost rec = RecordView { salt: salt@, nonce: nonce@, ciphertext: ciphertext@ };
        let wrapping = match derive_key(password, Some(salt.as_slice())) {
            Ok((k, _s)) => k,
            Err(_) => {
                assert(unwrapped_key(rec, pw) is None);
                return Err(CommonError::InvalidMasterKey);
            },
        };
        let opened = decrypt_xchacha20poly1305(ciphertext.as_slice(), nonce.as_slice(), &wrapping);
        let plain = match opened {
            Ok(p) => p,
            Err(_) => {
                assert(!exists|p: Seq<u8>| #[trigger] opens_to(wrapping@, rec.nonce, rec.ciphertext, Ok(p)));
                assert(unwrapped_key(rec, pw) is None);
                return Err(CommonError::InvalidMasterKey);
            },
        };
        proof {
            let wk = argon2id_of(pw, rec.salt);
            assert(opens_to(wk, rec.nonce, rec.ciphertext, Ok(plain@)));
            let p = choose|p: Seq<u8>| #[trigger] opens_to(wk, rec.nonce, rec.ciphertext, Ok(p));
            assert(opens_to(wk, rec.nonce, rec.ciphertext, Ok(p)));
            assert(p == plain@);
        }
        if plain.len() != 32 {
            return Err(CommonError::InvalidMasterKey);
        }
        let key = key_from_vec(&plain);
        self.master_key = Some(key);
        self.is_locked = false;
        self.locked_timestamp = None;
        self.runtime_timestamp = now;
        Ok(())
    }
}

} // verus!

verus! {

/// Whether a row's parameters can give a code: 1 to 10 digits; a
/// non-negative counter for HOTP; a positive period for TOTP.
pub open spec fn params_ok(type_: Seq<char>, digits: i32, period: Option<i32>, counter: Option<i32>) -> bool {
    &&& 1 <= digits <= 10
    &&& if type_ == "HOTP"@ {
        counter matches Some(c) && c >= 0
    } else {
        period matches Some(p) && p > 0
    }
}

pub open spec fn row_params_ok(m: ModelView) -> bool {
    params_ok(m.type_, m.digits, m.period, m.counter)
}

/// The code of row `m` whose decrypted secret is `secret`, at Unix time `now`.
pub open spec fn expected_code(m: ModelView, secret: Seq<u8>, now: u64) -> Seq<char> {
    if m.type_ == "HOTP"@ {
        hotp_spec(secret, m.counter->0 as u64, m.digits as nat, algorithm_of(m.algorithm))
    } else {
        totp_spec(secret, m.period->0 as u64, m.digits as nat, algorithm_of(m.algorithm), now)
    }
}

fn check_params(type_: &String, digits: i32, period: Option<i32>, counter: Option<i32>) -> (r: bool)
    ensures
        r == params_ok(type_@, digits, period, counter),
{
    let hotp_name = String::from_str("HOTP");
    if digits < 1 || digits > 10 {
        return false;
    }
    if *type_ == hotp_name {
        match counter {
            Some(c) => c >= 0,
            None => false,
        }
    } else {
        match period {
            Some(p) => p > 0,
            None => false,
        }
    }
}

/// The code of an account row from its decrypted secret: HOTP at the
/// row's counter, or TOTP at `now` with the row's period; `RequestError`
/// when the row's parameters cannot give a code.
pub fn code_for_secret(m: &Model, secret: &[u8], now: u64) -> (r: Result<String, CommonError>)
    ensures
        match r {
            Ok(c) => row_params_ok(m@) && c@ == expected_code(m@, secret@, now),
            Err(e) => !row_params_ok(m@) && e is RequestError,
        },
{
    if !check_params(&m.type_, m.digits, m.period, m.counter) {
        return Err(CommonError::RequestError(String::from_str("invalid OTP parameters")));
    }
    let alg = Algorithm::from_name(m.algorithm.as_str());
    let hotp_name = String::from_str("HOTP");
    if m.type_ == hotp_name {
        let counter = match m.counter {
            Some(c) => c,
            None => 0,
        };
        Ok(hotp(secret, counter as u64, m.digits as u32, alg))
    } else {
        let period = match m.period {
            Some(p) => p,
            None => 1,
        };
        Ok(totp(secret, period as u64, m.digits as u32, alg, now))
    }
}

fn stamp_of(now: u64) -> (r: i64)
    ensures
        r == stamp(now),
{
    if now <= i64::MAX as u64 {
        now as i64
    } else {
        i64::MAX
    }
}

/// The Base32-decoded secret of Base32 text.
pub open spec fn secret_of_text(s: Seq<char>) -> Option<Seq<u8>> {
    base32_spec(vstd::utf8::encode_utf8(s))
}

pub open spec fn text_result(r: Result<String, CommonError>) -> Result<Seq<char>, CommonError> {
    match r {
        Ok(s) => Ok(s@),
        Err(e) => Err(e),
    }
}

/// What asking row `m` for its code at `now` gives, under master key
/// `key`: `AuthenticationFailed` when its ciphertext does not open; else,
/// for the secret it opens to, the code, or `RequestError` when the row's
/// parameters cannot give one.
pub open spec fn row_outcome(key: Seq<u8>, m: ModelView, now: u64, r: Result<Seq<char>, CommonError>) -> bool {
    &&& opens_to(key, m.secret_nonce, m.secret_cipher, Err(CommonError::AuthenticationFailed))
        ==> r == Err::<Seq<char>, CommonError>(CommonError::AuthenticationFailed)
    &&& forall|secret: Seq<u8>| #[trigger] opens_to(key, m.secret_nonce, m.secret_cipher, Ok(secret)) ==> {
        if row_params_ok(m) {
            r == Ok::<Seq<char>, CommonError>(expected_code(m, secret, now))
        } else {
            r matches Err(e) && e is RequestError
        }
    }
}

/// What asking for the code of account `id` at `now` gives: the lock check's
/// refusal, `NotFound`, or what its row gives (see `row_outcome`).
pub open spec fn code_outcome(v: VaultView, id: Seq<char>, now: u64, r: Result<Seq<char>, CommonError>) -> bool {
    match refusal(v, now) {
        Some(e) => r == Err::<Seq<char>, CommonError>(e),
        None => if !has_id(v.accounts, id) {
            r == Err::<Seq<char>, CommonError>(CommonError::NotFound)
        } else {
            forall|i: int| 0 <= i < v.accounts.len() && #[trigger] v.accounts[i].id == id ==> row_outcome(v.key->0, v.accounts[i], now, r)
        },
    }
}

impl AppState {
    /// The master key of an unlocked session.
    fn key(&self) -> (r: [u8; 32])
        requires
            self.wf(),
            !self.view().locked,
        ensures
            self.view().key == Some(r@),
    {
        match &self.master_key {
            Some(k) => *k,
            None => {
                proof {
                    assert(false);
                }
                [0u8; 32]
            },
        }
    }

    /// A new account id, not held by any row.
    fn fresh_id(&self) -> (r: Result<String, CommonError>)
        requires
            self.wf(),
        ensures
            r matches Ok(id) ==> !has_id(self.view().accounts, id@) && exists|b: Seq<u8>| crate::account::uuid_v4_bytes(b) && id@ == crate::account::uuid_text(b),
            r matches Err(e) ==> e is UnexpectedError || e is StorageError,
    {
        let mut bytes = match os_random_bytes(16) {
            Some(b) => b,
            None => {
                return Err(CommonError::UnexpectedError(String::from_str("random source failed")));
            },
        };
        crate::account::set_uuid_v4_bits(&mut bytes);
        let id = crate::account::format_uuid(bytes.as_slice());
        match self.accounts.find(&id) {
            Some(_) => Err(CommonError::StorageError(String::from_str("account id already taken"))),
            None => Ok(id),
        }
    }

    /// Adds the account that an `otpauth://` URI describes (see
    /// `otpauth_spec`). Its decoded secret is sealed under the
    /// master key; the row gets a new id and `now` as its timestamps, and a
    /// copy is returned for persisting. Refusals: the lock check; `RequestError`
    /// for a URI that gives no descriptor or parameters that cannot give a
    /// code; `InvalidSecretFormat` for a secret that is not Base32.
    pub fn add_account(&mut self, uri: &str, now: u64) -> (r: Result<Model, CommonError>)
        requires
            old(self).wf(),
        ensures
            final(self).wf(),
            refusal(old(self).view(), now) matches Some(e) ==> r == Err::<Model, CommonError>(e) && final(self).view() == after_check(old(self).view(), now),
            refusal(old(self).view(), now) is None && r is Err ==> final(self).view() == old(self).view(),
            refusal(old(self).view(), now) is None ==> (otpauth_spec(uri@) == Err::<ParsedOtpView, OtpUriError>(OtpUriError::InvalidSecret)
                ==> r == Err::<Model, CommonError>(CommonError::InvalidSecretFormat)),
            refusal(old(self).view(), now) is None ==> (otpauth_spec(uri@) matches Err(e) && e != OtpUriError::InvalidSecret
                ==> (r matches Err(e) && e is RequestError)),
            refusal(old(self).view(), now) is None ==> (otpauth_spec(uri@) matches Ok(d)
                && !params_ok(d.type_, d.digits, d.period, d.counter) ==> (r matches Err(e) && e is RequestError)),
            refusal(old(self).view(), now) is None ==> (otpauth_spec(uri@) matches Ok(d)
                && params_ok(d.type_, d.digits, d.period, d.counter) ==> (r is Ok || (r matches Err(e) && (e is UnexpectedError || e is StorageError)))),
            r matches Err(e) ==> refusal(old(self).view(), now) == Some(e) || e is RequestError || e == CommonError::InvalidSecretFormat
                || e is UnexpectedError || e is StorageError,
            r matches Ok(m) ==> {
                &&& refusal(old(self).view(), now) is None
                &&& otpauth_spec(uri@) matches Ok(d)
                &&& params_ok(d.type_, d.digits, d.period, d.counter)
                &&& m@.issuer == d.issuer && m@.label == d.label && m@.type_ == d.type_
                &&& m@.algorithm == d.algorithm && m@.digits == d.digits && m@.period == d.period
                &&& m@.counter == d.counter
                &&& m@.icon is None && m@.note is None
                &&& m@.created_at == Some(stamp(now)) && m@.updated_at == Some(stamp(now))
                &&& opens_to(old(self).view().key->0, m@.secret_nonce, m@.secret_cipher, Ok(d.secret))
                &&& !has_id(old(self).view().accounts, m@.id)
                &&& final(self).view() == (VaultView {
                    accounts: old(self).view().accounts.push(m@),
                    last_activity: now,
                    ..old(self).view()
                })
            },
    {
        match self.require_unlocked(now) {
            Ok(()) => {},
            Err(e) => {
                return Err(e);
            },
        }
        let d = match parse_otpauth(uri) {
            Ok(d) => d,
            Err(OtpUriError::InvalidSecret) => {
                return Err(CommonError::InvalidSecretFormat);
            },
            Err(_) => {
                return Err(CommonError::RequestError(String::from_str("invalid otpauth URI")));
            },
        };
        if !check_params(&d.type_, d.digits, d.period, d.counter) {
            return Err(CommonError::RequestError(String::from_str("invalid OTP parameters")));
        }
        let key = self.key();
        let (nonce, cipher) = match encrypt_xchacha20poly1305(d.secret.as_slice(), &key) {
            Ok(pair) => pair,
            Err(e) => {
                return Err(e);
            },
        };
        let id = match self.fresh_id() {
            Ok(id) => id,
            Err(e) => {
                return Err(e);
            },
        };
        let stamp = stamp_of(now);
        let m = Model {
            id,
            issuer: d.issuer,
            label: d.label,
            type_: d.type_,
            algorithm: d.algorithm,
            digits: d.digits,
            period: d.period,
            counter: d.counter,
            secret_cipher: cipher,
            secret_nonce: nonce,
            icon: None,
            note: None,
            created_at: Some(stamp),
            updated_at: Some(stamp),
        };
        let out = m.copy();
        self.accounts.push(m);
        self.runtime_timestamp = now;
        Ok(out)
    }

    /// Changes the account `changes.id`: the plain fields given are set and
    /// `updated_at` becomes `now`; the secret is decoded and sealed anew
    /// only when a new one is given, else the stored ciphertext stays.
    /// Refusals: the lock check; `NotFound`; `InvalidSecretFormat` for a new
    /// secret that is not Base32; `RequestError` when the changed parameters
    /// cannot give a code.
    pub fn update_account(&mut self, changes: AccountChanges, now: u64) -> (r: Result<Model, CommonError>)
        requires
            old(self).wf(),
        ensures
            final(self).wf(),
            refusal(old(self).view(), now) matches Some(e) ==> r == Err::<Model, CommonError>(e) && final(self).view() == after_check(old(self).view(), now),
            refusal(old(self).view(), now) is None && r is Err ==> final(self).view() == old(self).view(),
            refusal(old(self).view(), now) is None && !has_id(old(self).view().accounts, changes.id@) ==> r == Err::<Model, CommonError>(CommonError::NotFound),
            refusal(old(self).view(), now) is None && has_id(old(self).view().accounts, changes.id@) ==> (changes.secret matches Some(s)
                && secret_of_text(s@) is None ==> r == Err::<Model, CommonError>(CommonError::InvalidSecretFormat)),
            refusal(old(self).view(), now) is None ==> forall|i: int| 0 <= i < old(self).view().accounts.len()
                && #[trigger] old(self).view().accounts[i].id == changes.id@
                && (changes.secret matches Some(s) ==> secret_of_text(s@) is Some)
                && !row_params_ok(with_changes(old(self).view().accounts[i], changes, stamp(now)))
                ==> (r matches Err(e) && e is RequestError),
            refusal(old(self).view(), now) is None ==> forall|i: int| 0 <= i < old(self).view().accounts.len()
                && #[trigger] old(self).view().accounts[i].id == changes.id@
                && changes.secret is None
                && row_params_ok(with_changes(old(self).view().accounts[i], changes, stamp(now)))
                ==> r is Ok,
            refusal(old(self).view(), now) is None ==> forall|i: int| 0 <= i < old(self).view().accounts.len()
                && #[trigger] old(self).view().accounts[i].id == changes.id@
                && (changes.secret matches Some(s) && secret_of_text(s@) is Some)
                && row_params_ok(with_changes(old(self).view().accounts[i], changes, stamp(now)))
                ==> (r is Ok || (r matches Err(e) && e is UnexpectedError)),
            r matches Err(e) ==> refusal(old(self).view(), now) == Some(e) || e == CommonError::NotFound
                || e == CommonError::InvalidSecretFormat || e is RequestError || e is UnexpectedError,
            r matches Ok(m) ==> exists|i: int| {
                &&& 0 <= i < old(self).view().accounts.len()
                &&& old(self).view().accounts[i].id == changes.id@
                &&& refusal(old(self).view(), now) is None
                &&& row_params_ok(m@)
                &&& m@ == (ModelView {
                    secret_cipher: m@.secret_cipher,
                    secret_nonce: m@.secret_nonce,
                    ..with_changes(old(self).view().accounts[i], changes, stamp(now))
                })
                &&& (changes.secret is None ==> m@.secret_cipher == old(self).view().accounts[i].secret_cipher
                    && m@.secret_nonce == old(self).view().accounts[i].secret_nonce)
                &&& (changes.secret matches Some(s) ==> secret_of_text(s@) matches Some(secret)
                    && opens_to(old(self).view().key->0, m@.secret_nonce, m@.secret_cipher, Ok(secret)))
                &&& final(self).view() == (VaultView {
                    accounts: old(self).view().accounts.update(i, m@),
                    last_activity: now,
                    ..old(self).view()
                })
            },
    {
        match self.require_unlocked(now) {
            Ok(()) => {},
            Err(e) => {
                return Err(e);
            },
        }
        let i = match self.accounts.find(&changes.id) {
            Some(i) => i,
            None => {
                return Err(CommonError::NotFound);
            },
        };
        let old_row = self.accounts.get(i).copy();
        let new_secret = match &changes.secret {
            Some(text) => match base32_decode(text.as_str().as_bytes()) {
                Some(s) => Some(s),
                None => {
                    return Err(CommonError::InvalidSecretFormat);
                },
            },
            None => None,
        };
        let digits = match changes.digits {
            Some(d) => d,
            None => old_row.digits,
        };
        let period = match changes.period {
            Some(p) => Some(p),
            None => old_row.period,
        };
        let counter = match changes.counter {
            Some(c) => Some(c),
            None => old_row.counter,
        };
        if !check_params(&old_row.type_, digits, period, counter) {
            return Err(CommonError::RequestError(String::from_str("invalid OTP parameters")));
        }
        let (secret_cipher, secret_nonce) = match new_secret {
            Some(secret) => {
                let key = self.key();
                match encrypt_xchacha20poly1305(secret.as_slice(), &key) {
                    Ok((nonce, cipher)) => (cipher, nonce),
                    Err(e) => {
                        return Err(e);
                    },
                }
            },
            None => (
                crate::account::copy_bytes(&old_row.secret_cipher),
                crate::account::copy_bytes(&old_row.secret_nonce),
            ),
        };
        let m = Model {
            id: old_row.id,
            issuer: match &changes.issuer {
                Some(s) => s.clone(),
                None => old_row.issuer,
            },
            label: match &changes.label {
                Some(s) => s.clone(),
                None => old_row.label,
            },
            type_: old_row.type_,
            algorithm: match &changes.algorithm {
                Some(s) => s.clone(),
                None => old_row.algorithm,
            },
            digits,
            period,
            counter,
            secret_cipher,
            secret_nonce,
            icon: match &changes.icon {
                Some(v) => Some(crate::account::copy_bytes(v)),
                None => old_row.icon,
            },
            note: match &changes.note {
                Some(s) => Some(s.clone()),
                None => old_row.note,
            },
            created_at: old_row.created_at,
            updated_at: Some(stamp_of(now)),
        };
        let out = m.copy();
        self.accounts.replace(i, m);
        self.runtime_timestamp = now;
        Ok(out)
    }

    /// Removes the account with id `id`. Refusals: the lock check; `NotFound`.
    pub fn remove_account(&mut self, id: &str, now: u64) -> (r: Result<(), CommonError>)
        requires
            old(self).wf(),
        ensures
            final(self).wf(),
            refusal(old(self).view(), now) matches Some(e) ==> r == Err::<(), CommonError>(e) && final(self).view() == after_check(old(self).view(), now),
            refusal(old(self).view(), now) is None && !has_id(old(self).view().accounts, id@) ==> r == Err::<(), CommonError>(CommonError::NotFound)
                && final(self).view() == old(self).view(),
            refusal(old(self).view(), now) is None && has_id(old(self).view().accounts, id@) ==> r is Ok,
            r is Ok ==> exists|i: int| 0 <= i < old(self).view().accounts.len() && old(self).view().accounts[i].id == id@
                && final(self).view() == (VaultView {
                    accounts: old(self).view().accounts.remove(i),
                    last_activity: now,
                    ..old(self).view()
                }),
    {
        match self.require_unlocked(now) {
            Ok(()) => {},
            Err(e) => {
                return Err(e);
            },
        }
        let key = String::from_str(id);
        match self.accounts.find(&key) {
            Some(i) => {
                self.accounts.delete(i);
                self.runtime_timestamp = now;
                Ok(())
            },
            None => Err(CommonError::NotFound),
        }
    }

    /// One page of the account rows (see `page_of`). Refusals: the lock check.
    pub fn list_accounts(&mut self, page: PageParam, now: u64) -> (r: Result<Vec<Model>, CommonError>)
        requires
            old(self).wf(),
        ensures
            final(self).wf(),
            refusal(old(self).view(), now) matches Some(e) ==> r == Err::<Vec<Model>, CommonError>(e) && final(self).view() == after_check(old(self).view(), now),
            refusal(old(self).view(), now) is None ==> r is Ok && final(self).view() == touched(old(self).view(), now),
            r matches Ok(rows) ==> views(rows@) == page_of(old(self).view().accounts, page.current, page.size),
    {
        match self.require_unlocked(now) {
            Ok(()) => {},
            Err(e) => {
                return Err(e);
            },
        }
        let rows = self.accounts.page(page.current, page.size);
        self.runtime_timestamp = now;
        Ok(rows)
    }

    /// The current code of the account with id `id` (see `code_outcome`):
    /// its secret is opened with the master key only for this computation.
    pub fn get_code(&mut self, id: &str, now: u64) -> (r: Result<String, CommonError>)
        requires
            old(self).wf(),
        ensures
            final(self).wf(),
            code_outcome(old(self).view(), id@, now, text_result(r)),
            refusal(old(self).view(), now) is Some ==> final(self).view() == after_check(old(self).view(), now),
            refusal(old(self).view(), now) is None && r is Err ==> final(self).view() == old(self).view(),
            r is Ok ==> final(self).view() == touched(old(self).view(), now),
    {
        match self.require_unlocked(now) {
            Ok(()) => {},
            Err(e) => {
                return Err(e);
            },
        }
        let wanted = String::from_str(id);
        let i = match self.accounts.find(&wanted) {
            Some(i) => i,
            None => {
                return Err(CommonError::NotFound);
            },
        };
        let key = self.key();
        let m = self.accounts.get(i);
        let ghost v = self.view();
        let ghost mv = m@;
        assert(forall|j: int| 0 <= j < v.accounts.len() && #[trigger] v.accounts[j].id == id@ ==> j == i);
        let opened = decrypt_xchacha20poly1305(m.secret_cipher.as_slice(), m.secret_nonce.as_slice(), &key);
        let secret = match opened {
            Ok(s) => s,
            Err(e) => {
                assert forall|p: Seq<u8>| !opens_to(key@, mv.secret_nonce, mv.secret_cipher, Ok(p)) by {
                    if opens_to(key@, mv.secret_nonce, mv.secret_cipher, Ok(p)) {
                        crate::crypto::lemma_opens_to_unique(key@, mv.secret_nonce, mv.secret_cipher, Ok(p), bytes_result(opened));
                    }
                }
                return Err(e);
            },
        };
        assert forall|p: Seq<u8>| opens_to(key@, mv.secret_nonce, mv.secret_cipher, Ok(p)) implies p == secret@ by {
            crate::crypto::lemma_opens_to_unique(key@, mv.secret_nonce, mv.secret_cipher, Ok(p), bytes_result(opened));
        }
        proof {
            if opens_to(key@, mv.secret_nonce, mv.secret_cipher, Err(CommonError::AuthenticationFailed)) {
                crate::crypto::lemma_opens_to_unique(key@, mv.secret_nonce, mv.secret_cipher,
                    Err(CommonError::AuthenticationFailed), bytes_result(opened));
            }
        }
        let code = match code_for_secret(m, secret.as_slice(), now) {
            Ok(c) => c,
            Err(e) => {
                return Err(e);
            },
        };
        self.runtime_timestamp = now;
        Ok(code)
    }
}

} // verus!

verus! {

/// After `lock`, every operation on secrets of an initialized vault is
/// refused with `AppIsLocked`, at any later time, and no key is held.
pub proof fn lemma_locked_refuses(v: VaultView, locked_at: u64, now: u64)
    requires
        v.initialized,
    ensures
        refusal(locked_view(v, locked_at), now) == Some(CommonError::AppIsLocked),
        locked_view(v, locked_at).key is None,
{
}

/// A record made by `init_app` for a password unlocks with that password:
/// the session then holds the wrapped key, and operations on secrets pass
/// the lock check at the moment of unlocking (unless auto-lock is on with a
/// timeout of zero).
pub proof fn lemma_unlock_after_init(v: VaultView, pw: Seq<u8>, now: u64)
    requires
        v.record matches Some(rec) && unwrapped_key(rec, pw) is Some,
        v.initialized,
    ensures
        unlock_spec(v, pw, now).0 is Ok,
        unlock_spec(v, pw, now).1.key == unwrapped_key(v.record->0, pw),
        !(v.auto_lock && v.timeout == 0) ==> refusal(unlock_spec(v, pw, now).1, now) is None,
{
}

/// The code that `get_code` gives for a stored account is the one computed
/// directly from the secret that its row was sealed with.
pub proof fn lemma_code_of_stored(v: VaultView, i: int, secret: Seq<u8>, now: u64, r: Result<Seq<char>, CommonError>)
    requires
        refusal(v, now) is None,
        crate::account::unique_ids(v.accounts),
        0 <= i < v.accounts.len(),
        opens_to(v.key->0, v.accounts[i].secret_nonce, v.accounts[i].secret_cipher, Ok(secret)),
        row_params_ok(v.accounts[i]),
        code_outcome(v, v.accounts[i].id, now, r),
    ensures
        r == Ok::<Seq<char>, CommonError>(expected_code(v.accounts[i], secret, now)),
{
    assert(has_id(v.accounts, v.accounts[i].id));
    assert(row_outcome(v.key->0, v.accounts[i], now, r));
}

} // verus!

verus! {

/// End to end: after `add_account` stored row `m` for a URI whose decoded
/// secret is `secret`, `get_code` for `m`'s id gives the code computed
/// directly from that secret (whenever the lock check lets it through).
pub proof fn lemma_code_after_add(v: VaultView, m: ModelView, secret: Seq<u8>, added_at: u64, now: u64, r: Result<Seq<char>, CommonError>)
    requires
        crate::account::unique_ids(v.accounts),
        !has_id(v.accounts, m.id),
        opens_to(v.key->0, m.secret_nonce, m.secret_cipher, Ok(secret)),
        params_ok(m.type_, m.digits, m.period, m.counter),
        refusal(VaultView { accounts: v.accounts.push(m), last_activity: added_at, ..v }, now) is None,
        code_outcome(VaultView { accounts: v.accounts.push(m), last_activity: added_at, ..v }, m.id, now, r),
    ensures
        r == Ok::<Seq<char>, CommonError>(expected_code(m, secret, now)),
        expected_code(m, secret, now).len() == m.digits,
        forall|k: int| 0 <= k < m.digits ==> '0' <= #[trigger] expected_code(m, secret, now)[k] <= '9',
{
    let w = VaultView { accounts: v.accounts.push(m), last_activity: added_at, ..v };
    let n = v.accounts.len() as int;
    assert(w.accounts[n] == m);
    assert forall|i: int, j: int| 0 <= i < w.accounts.len() && 0 <= j < w.accounts.len() && i != j implies #[trigger] w.accounts[i].id
        != #[trigger] w.accounts[j].id by {
        if i == n {
            assert(v.accounts[j] == w.accounts[j]);
        } else if j == n {
            assert(v.accounts[i] == w.accounts[i]);
        } else {
            assert(v.accounts[i] == w.accounts[i] && v.accounts[j] == w.accounts[j]);
        }
    }
    lemma_code_of_stored(w, n, secret, now, r);
}

} // verus!
