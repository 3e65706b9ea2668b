use vstd::prelude::*;

verus! {

/// Every failure the vault and its command surface can report.
#[derive(Debug, Clone, PartialEq, Eq)]
pub enum CommonError {
    UnexpectedError(String),
    MasterKeyNotInitialized,
    InvalidMasterKey,
    AppNotInitialized,
    AppIsLocked,
    InvalidPassword,
    BiometricAuthFailed,
    RequestError(String),
    TokenExpired,
    NotFound,
    InvalidSecretFormat,
    AuthenticationFailed,
    StorageError(String),
    MutexLockFailed,
}

/// The stable machine-readable code of an error.
pub open spec fn code_of(e: CommonError) -> Seq<char> {
    match e {
        CommonError::UnexpectedError(_) => "UnexpectedError"@,
        CommonError::MasterKeyNotInitialized => "MasterKeyNotInitialized"@,
        CommonError::InvalidMasterKey => "InvalidMasterKey"@,
        CommonError::AppNotInitialized => "AppNotInitialized"@,
        CommonError::AppIsLocked => "AppIsLocked"@,
        CommonError::InvalidPassword => "InvalidPassword"@,
        CommonError::BiometricAuthFailed => "BiometricAuthFailed"@,
        CommonError::RequestError(_) => "RequestError"@,
        CommonError::TokenExpired => "TokenExpired"@,
        CommonError::NotFound => "NotFound"@,
        CommonError::InvalidSecretFormat => "InvalidSecretFormat"@,
        CommonError::AuthenticationFailed => "AuthenticationFailed"@,
        CommonError::StorageError(_) => "StorageError"@,
        CommonError::MutexLockFailed => "MutexLockFailed"@,
    }
}

/// The human-readable message of an error.
pub open spec fn message_of(e: CommonError) -> Seq<char> {
    match e {
        CommonError::UnexpectedError(s) => s@,
        CommonError::MasterKeyNotInitialized => "Master key not initialized"@,
        CommonError::InvalidMasterKey => "Invalid master key"@,
        CommonError::AppNotInitialized => "App not initialized"@,
        CommonError::AppIsLocked => "App is locked"@,
        CommonError::InvalidPassword => "Invalid password"@,
        CommonError::BiometricAuthFailed => "Biometric authentication failed"@,
        CommonError::RequestError(s) => "Request error: "@ + s@,
        CommonError::TokenExpired => "Token expired"@,
        CommonError::NotFound => "Not found"@,
        CommonError::InvalidSecretFormat => "Invalid secret format"@,
        CommonError::AuthenticationFailed => "Authentication failed"@,
        CommonError::StorageError(s) => "Storage error: "@ + s@,
        CommonError::MutexLockFailed => "Mutex lock failed"@,
    }
}

impl CommonError {
    pub fn code(&self) -> (r: &'static str)
        ensures
            r@ == code_of(*self),
    {
        match self {
            CommonError::UnexpectedError(_) => "UnexpectedError",
            CommonError::MasterKeyNotInitialized => "MasterKeyNotInitialized",
            CommonError::InvalidMasterKey => "InvalidMasterKey",
            CommonError::AppNotInitialized => "AppNotInitialized",
            CommonError::AppIsLocked => "AppIsLocked",
            CommonError::InvalidPassword => "InvalidPassword",
            CommonError::BiometricAuthFailed => "BiometricAuthFailed",
            CommonError::RequestError(_) => "RequestError",
            CommonError::TokenExpired => "TokenExpired",
            CommonError::NotFound => "NotFound",
            CommonError::InvalidSecretFormat => "InvalidSecretFormat",
            CommonError::AuthenticationFailed => "AuthenticationFailed",
            CommonError::StorageError(_) => "StorageError",
            CommonError::MutexLockFailed => "MutexLockFailed",
        }
    }

    /// The message shown to the user; stands where a `Display` impl would.
    pub fn to_string(&self) -> (r: String)
        ensures
            r@ == message_of(*self),
    {
        match self {
            CommonError::UnexpectedError(s) => s.clone(),
            CommonError::MasterKeyNotInitialized => String::from_str("Master key not initialized"),
            CommonError::InvalidMasterKey => String::from_str("Invalid master key"),
            CommonError::AppNotInitialized => String::from_str("App not initialized"),
            CommonError::AppIsLocked => String::from_str("App is locked"),
            CommonError::InvalidPassword => String::from_str("Invalid password"),
            CommonError::BiometricAuthFailed => String::from_str("Biometric authentication failed"),
            CommonError::RequestError(s) => String::from_str("Request error: ").concat(s.as_str()),
            CommonError::TokenExpired => String::from_str("Token expired"),
            CommonError::NotFound => String::from_str("Not found"),
            CommonError::InvalidSecretFormat => String::from_str("Invalid secret format"),
            CommonError::AuthenticationFailed => String::from_str("Authentication failed"),
            CommonError::StorageError(s) => String::from_str("Storage error: ").concat(s.as_str()),
            CommonError::MutexLockFailed => String::from_str("Mutex lock failed"),
        }
    }
}

/// The text of an error followed by its chain of causes, outermost first.
pub open spec fn chain_text(messages: Seq<Seq<char>>) -> Seq<char>
    decreases messages.len(),
{
    if messages.len() == 0 {
        Seq::empty()
    } else if messages.len() == 1 {
        messages[0] + "\n\n"@
    } else {
        chain_text(messages.drop_last()) + "Caused by:\n\t"@ + messages.last() + "\n"@
    }
}

/// Renders an error (the first message) and the causes that follow it, one
/// "Caused by:" paragraph each.
pub fn error_chain_fmt(messages: &Vec<String>) -> (r: String)
    ensures
        r@ == chain_text(messages@.map_values(|m: String| m@)),
{
    let ghost views = messages@.map_values(|m: String| m@);
    if messages.len() == 0 {
        return String::new();
    }
    let mut out = messages[0].clone().concat("\n\n");
    let mut i: usize = 1;
    assert(views.subrange(0, 1).drop_last() =~= Seq::<Seq<char>>::empty());
    while i < messages.len()
        invariant
            1 <= i <= messages.len(),
            views == messages@.map_values(|m: String| m@),
            out@ == chain_text(views.subrange(0, i as int)),
        decreases messages.len() - i,
    {
        assert(views.subrange(0, i + 1).drop_last() =~= views.subrange(0, i as int));
        out = out.concat("Caused by:\n\t").concat(messages[i].as_str()).concat("\n");
        i = i + 1;
    }
    assert(views.subrange(0, messages.len() as int) =~= views);
    out
}

} // verus!
