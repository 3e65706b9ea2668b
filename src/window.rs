use vstd::prelude::*;
use crate::text::chars_of;

verus! {

/// The application's windows.
#[derive(Clone, Copy, Debug, PartialEq, Eq, Structural)]
pub enum WebviewWindow {
    Launch,
    Main,
    Settings,
}

pub open spec fn window_label(w: WebviewWindow) -> Seq<char> {
    match w {
        WebviewWindow::Launch => "launch"@,
        WebviewWindow::Main => "main"@,
        WebviewWindow::Settings => "settings"@,
    }
}

impl WebviewWindow {
    /// The window's label.
    pub fn to_string(&self) -> (r: String)
        ensures
            r@ == window_label(*self),
    {
        match self {
            WebviewWindow::Launch => String::from_str("launch"),
            WebviewWindow::Main => String::from_str("main"),
            WebviewWindow::Settings => String::from_str("settings"),
        }
    }

    /// The window with label `label`; `None` for any other text.
    pub fn from_label(label: &str) -> (r: Option<WebviewWindow>)
        ensures
            match r {
                Some(w) => window_label(w) == label@,
                None => forall|w: WebviewWindow| window_label(w) != label@,
            },
    {
        proof {
            reveal_strlit("launch");
            reveal_strlit("main");
            reveal_strlit("settings");
        }
        let v = chars_of(label);
        assert(v@.subrange(0, v.len() as int) =~= v@);
        if exactly(&v, "launch") {
            Some(WebviewWindow::Launch)
        } else if exactly(&v, "main") {
            Some(WebviewWindow::Main)
        } else if exactly(&v, "settings") {
            Some(WebviewWindow::Settings)
        } else {
            None
        }
    }
}

/// The labels of the application's windows, the setup window included.
#[derive(Clone, Copy, Debug, PartialEq, Eq, Structural)]
pub enum WebviewWindowLabels {
    Launch,
    Initialization,
    Main,
    Settings,
}

pub open spec fn label_text(w: WebviewWindowLabels) -> Seq<char> {
    match w {
        WebviewWindowLabels::Launch => "launch"@,
        WebviewWindowLabels::Initialization => "initialization"@,
        WebviewWindowLabels::Main => "main"@,
        WebviewWindowLabels::Settings => "settings"@,
    }
}

impl WebviewWindowLabels {
    /// The label's text.
    pub fn to_string(&self) -> (r: String)
        ensures
            r@ == label_text(*self),
    {
        match self {
            WebviewWindowLabels::Launch => String::from_str("launch"),
            WebviewWindowLabels::Initialization => String::from_str("initialization"),
            WebviewWindowLabels::Main => String::from_str("main"),
            WebviewWindowLabels::Settings => String::from_str("settings"),
        }
    }

    /// The label whose text is `label`; `None` for any other text.
    pub fn from_label(label: &str) -> (r: Option<WebviewWindowLabels>)
        ensures
            match r {
                Some(w) => label_text(w) == label@,
                None => forall|w: WebviewWindowLabels| label_text(w) != label@,
            },
    {
        proof {
            reveal_strlit("launch");
            reveal_strlit("initialization");
            reveal_strlit("main");
            reveal_strlit("settings");
        }
        let v = chars_of(label);
        if exactly(&v, "launch") {
            Some(WebviewWindowLabels::Launch)
        } else if exactly(&v, "initialization") {
            Some(WebviewWindowLabels::Initialization)
        } else if exactly(&v, "main") {
            Some(WebviewWindowLabels::Main)
        } else if exactly(&v, "settings") {
            Some(WebviewWindowLabels::Settings)
        } else {
            None
        }
    }
}

/// Whether the characters `v` are exactly those of `lit`.
fn exactly(v: &Vec<char>, lit: &str) -> (r: bool)
    ensures
        r == (v@ == lit@),
{
    let l = chars_of(lit);
    if l.len() != v.len() {
        return false;
    }
    let mut i: usize = 0;
    while i < l.len()
        invariant
            i <= l.len() == v.len(),
            l@ == lit@,
            forall|k: int| 0 <= k < i ==> v@[k] == l@[k],
        decreases l.len() - i,
    {
        if v[i] != l[i] {
            return false;
        }
        i = i + 1;
    }
    assert(v@ =~= lit@);
    true
}

} // verus!
