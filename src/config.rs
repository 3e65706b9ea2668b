use vstd::prelude::*;

verus! {

/// User preferences: theme, language and the idle auto-lock.
#[derive(Clone, Debug, PartialEq)]
pub struct Settings {
    pub theme: String,
    pub language: String,
    pub auto_lock: bool,
    /// Seconds of inactivity after which an unlocked vault locks itself.
    pub auto_lock_timeout: u64,
}

/// The stored configuration: where the account database lives, and the
/// settings.
#[derive(Clone, Debug, PartialEq)]
pub struct Builder {
    pub kdbx_path: String,
    pub settings: Settings,
}

impl Builder {
    pub fn set_kdbx_path(self, p: String) -> (r: Self)
        ensures
            r.kdbx_path == p,
            r.settings == self.settings,
    {
        Builder { kdbx_path: p, settings: self.settings }
    }

    pub fn settings(&mut self, settings: Settings) -> (r: &mut Self)
        ensures
            r.settings == settings,
            r.kdbx_path == old(self).kdbx_path,
            *final(self) == *final(r),
    {
        self.settings = settings;
        self
    }
}

/// The defaults: no database path, the system theme, English, auto-lock
/// off with a timeout of 10.
pub open spec fn is_default_builder(b: Builder) -> bool {
    &&& b.kdbx_path@ == Seq::<char>::empty()
    &&& b.settings.theme@ == "system"@
    &&& b.settings.language@ == "en"@
    &&& !b.settings.auto_lock
    &&& b.settings.auto_lock_timeout == 10
}

impl Default for Builder {
    fn default() -> (r: Self)
        ensures
            is_default_builder(r),
    {
        Builder {
            kdbx_path: String::new(),
            settings: Settings {
                theme: String::from_str("system"),
                language: String::from_str("en"),
                auto_lock: false,
                auto_lock_timeout: 10,
            },
        }
    }
}

/// The configuration together with the file it is kept in.
#[derive(Clone, Debug, PartialEq)]
pub struct Config {
    path: String,
    builder: Builder,
}

impl Config {
    pub closed spec fn spec_path(&self) -> String {
        self.path
    }

    pub closed spec fn spec_builder(&self) -> Builder {
        self.builder
    }

    /// A configuration kept at `path`, holding the defaults.
    pub fn init(path: String) -> (r: Self)
        ensures
            r.spec_path() == path,
            is_default_builder(r.spec_builder()),
    {
        Config { path, builder: Builder::default() }
    }

    pub fn set_path(&mut self, path: String) -> (r: &mut Self)
        ensures
            r.spec_path() == path,
            r.spec_builder() == old(self).spec_builder(),
            *final(self) == *final(r),
    {
        self.path = path;
        self
    }

    pub fn set_builder(&mut self, builder: Builder) -> (r: &mut Self)
        ensures
            r.spec_builder() == builder,
            r.spec_path() == old(self).spec_path(),
            *final(self) == *final(r),
    {
        self.builder = builder;
        self
    }

    pub fn path(&self) -> (r: &String)
        ensures
            *r == self.spec_path(),
    {
        &self.path
    }

    pub fn builder(&self) -> (r: &Builder)
        ensures
            *r == self.spec_builder(),
    {
        &self.builder
    }
}

} // verus!
