use xauthenticator::version::{needs_initialization, version_tag};
use xauthenticator::config::{Builder, Config, Settings};
use xauthenticator::error::{error_chain_fmt, CommonError};
use xauthenticator::password::validate_password;
use xauthenticator::paths::AppDataDir;
use xauthenticator::window::{WebviewWindow, WebviewWindowLabels};

#[test]
fn error_codes_and_messages() {
    assert_eq!(CommonError::AppIsLocked.code(), "AppIsLocked");
    assert_eq!(CommonError::InvalidMasterKey.code(), "InvalidMasterKey");
    assert_eq!(CommonError::NotFound.code(), "NotFound");
    assert_eq!(CommonError::RequestError("x".to_string()).code(), "RequestError");
    assert_eq!(CommonError::AppIsLocked.to_string(), "App is locked");
    assert_eq!(CommonError::RequestError("bad id".to_string()).to_string(), "Request error: bad id");
    assert_eq!(CommonError::UnexpectedError("boom".to_string()).to_string(), "boom");
    assert_eq!(CommonError::MasterKeyNotInitialized.to_string(), "Master key not initialized");
}

#[test]
fn error_chain_lists_causes() {
    let msgs = vec!["outer".to_string(), "middle".to_string(), "root".to_string()];
    assert_eq!(error_chain_fmt(&msgs), "outer\n\nCaused by:\n\tmiddle\nCaused by:\n\troot\n");
    assert_eq!(error_chain_fmt(&vec!["only".to_string()]), "only\n\n");
}

#[test]
fn password_policy() {
    assert_eq!(validate_password("Str0ng!Passw0rd"), Ok(()));
    assert_eq!(validate_password("Sh0rt!"), Err(CommonError::InvalidPassword));
    assert_eq!(validate_password("NoDigitsHere!!"), Err(CommonError::InvalidPassword));
    assert_eq!(validate_password("n0upper!letters"), Err(CommonError::InvalidPassword));
    assert_eq!(validate_password("N0LOWER!LETTERS"), Err(CommonError::InvalidPassword));
    assert_eq!(validate_password("N0specialLetters"), Err(CommonError::InvalidPassword));
    assert_eq!(validate_password("Sp ace0nlyNoSym"), Err(CommonError::InvalidPassword));
    assert_eq!(validate_password("Ünïcödé1€abcd"), Ok(()));
}

#[test]
fn builder_defaults_and_setters() {
    let b = Builder::default();
    assert_eq!(b.kdbx_path, "");
    assert_eq!(b.settings.theme, "system");
    assert_eq!(b.settings.language, "en");
    assert!(!b.settings.auto_lock);
    assert_eq!(b.settings.auto_lock_timeout, 10);
    let b = b.set_kdbx_path("/data/accounts.kdbx".to_string());
    assert_eq!(b.kdbx_path, "/data/accounts.kdbx");
    let mut b2 = b.clone();
    b2.settings(Settings { theme: "dark".to_string(), language: "zh".to_string(), auto_lock: true, auto_lock_timeout: 300 });
    assert_eq!(b2.settings.theme, "dark");
    assert_eq!(b2.kdbx_path, "/data/accounts.kdbx");
}

#[test]
fn config_init_and_setters() {
    let mut c = Config::init("/tmp/config.yaml".to_string());
    assert_eq!(c.path(), "/tmp/config.yaml");
    assert_eq!(c.builder(), &Builder::default());
    c.set_path("/etc/other.yaml".to_string()).set_builder(Builder::default().set_kdbx_path("x".to_string()));
    assert_eq!(c.path(), "/etc/other.yaml");
    assert_eq!(c.builder().kdbx_path, "x");
}

#[test]
fn app_data_dir_files() {
    let d = AppDataDir::new("/home/u/.local/share/app".to_string());
    assert_eq!(d.app(), "/home/u/.local/share/app");
    assert_eq!(d.config(), "/home/u/.local/share/app/config.yaml");
    assert_eq!(d.version(), "/home/u/.local/share/app/version.txt");
    assert_eq!(d.accounts(), "/home/u/.local/share/app/accounts.kdbx");
    let e = AppDataDir::new("/srv/".to_string());
    assert_eq!(e.config(), "/srv/config.yaml");
    let f = AppDataDir::new(String::new());
    assert_eq!(f.version(), "version.txt");
}

#[test]
fn window_labels() {
    assert_eq!(WebviewWindow::Main.to_string(), "main");
    assert_eq!(WebviewWindow::Launch.to_string(), "launch");
    assert_eq!(WebviewWindow::Settings.to_string(), "settings");
    assert_eq!(WebviewWindow::from_label("settings"), Some(WebviewWindow::Settings));
    assert_eq!(WebviewWindow::from_label("initialization"), None);
    assert_eq!(WebviewWindowLabels::Initialization.to_string(), "initialization");
    assert_eq!(WebviewWindowLabels::from_label("initialization"), Some(WebviewWindowLabels::Initialization));
    assert_eq!(WebviewWindowLabels::from_label("Main"), None);
}

#[test]
fn version_file_decisions() {
    assert_eq!(version_tag("0.1.0"), "v0.1.0");
    assert!(needs_initialization(None, "v0.1.0"));
    assert!(!needs_initialization(Some("v0.1.0\n"), "v0.1.0"));
    assert!(!needs_initialization(Some("  v0.1.0 "), "v0.1.0"));
    assert!(needs_initialization(Some("v0.0.9"), "v0.1.0"));
}
