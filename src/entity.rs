use vstd::prelude::*;

verus! {

/// A page request: page `current` (counted from 0) of `size` rows.
#[derive(Debug, Clone, Copy, PartialEq, Eq, Structural)]
pub struct PageParam {
    pub current: u32,
    pub size: u32,
}

/// A page of results and the total number of rows.
#[derive(Debug, Clone)]
pub struct Response<T> {
    pub data: T,
    pub total: u64,
}

/// A request for the page after `cursor`.
#[derive(Debug, Clone)]
pub struct CursorPageParam {
    pub page_size: u32,
    pub cursor: String,
    pub create_id: Option<String>,
    pub create_time: Option<i64>,
    pub update_time: Option<i64>,
}

/// A page of results with the cursor of the next one.
#[derive(Debug, Clone)]
pub struct CursorPageResp<T> {
    pub cursor: String,
    pub is_last: bool,
    pub list: Option<T>,
    pub total: u64,
}

/// What a first launch proposes: where to keep the account database.
#[derive(Debug, Clone)]
pub struct AppDefault {
    pub kdbx_path: String,
}

/// The first-time setup request: where to keep the database, and the
/// master password.
#[derive(Debug, Clone)]
pub struct InitRequest {
    pub kdbx_path: String,
    pub password: String,
}

/// A password-manager entry as the UI shows it.
#[derive(Debug, Clone, PartialEq)]
pub struct Account {
    pub id: String,
    pub title: String,
    pub username: String,
    pub password: String,
    pub url: String,
    pub notes: String,
    pub totp: Option<String>,
}

/// The fields of a new password-manager entry.
#[derive(Debug, Clone)]
pub struct CreateAccountRequest {
    pub title: String,
    pub username: String,
    pub password: String,
    pub url: String,
    pub notes: String,
    pub totp: Option<String>,
}

/// The new fields of the password-manager entry `id`.
#[derive(Debug, Clone)]
pub struct UpdateAccountRequest {
    pub id: String,
    pub title: String,
    pub username: String,
    pub password: String,
    pub url: String,
    pub notes: String,
    pub totp: Option<String>,
}

} // verus!
