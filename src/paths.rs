use vstd::prelude::*;

verus! {

/// `name` placed under directory `base`, with one `/` between them.
pub open spec fn joined(base: Seq<char>, name: Seq<char>) -> Seq<char> {
    if base.len() == 0 {
        name
    } else if base.last() == '/' {
        base + name
    } else {
        base + seq!['/'] + name
    }
}

pub fn join(base: &String, name: &str) -> (r: String)
    ensures
        r@ == joined(base@, name@),
{
    let b = crate::text::chars_of(base.as_str());
    if b.len() == 0 {
        String::from_str(name)
    } else if b[b.len() - 1] == '/' {
        base.clone().concat(name)
    } else {
        proof {
            reveal_strlit("/");
        }
        let r = base.clone().concat("/").concat(name);
        assert(r@ =~= base@ + seq!['/'] + name@);
        r
    }
}

/// The files of the application's data directory.
pub struct AppDataDir {
    app_data_dir: String,
}

impl AppDataDir {
    pub closed spec fn dir(&self) -> Seq<char> {
        self.app_data_dir@
    }

    pub fn new(app_data_dir: String) -> (r: Self)
        ensures
            r.dir() == app_data_dir@,
    {
        AppDataDir { app_data_dir }
    }

    pub fn app(&self) -> (r: String)
        ensures
            r@ == self.dir(),
    {
        self.app_data_dir.clone()
    }

    pub fn config(&self) -> (r: String)
        ensures
            r@ == joined(self.dir(), "config.yaml"@),
    {
        join(&self.app_data_dir, "config.yaml")
    }

    pub fn version(&self) -> (r: String)
        ensures
            r@ == joined(self.dir(), "version.txt"@),
    {
        join(&self.app_data_dir, "version.txt")
    }

    pub fn accounts(&self) -> (r: String)
        ensures
            r@ == joined(self.dir(), "accounts.kdbx"@),
    {
        join(&self.app_data_dir, "accounts.kdbx")
    }
}

} // verus!
