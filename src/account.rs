use vstd::prelude::*;
use crate::error::CommonError;

verus! {

/// One stored OTP credential. The secret is kept only as AEAD ciphertext
/// (`secret_cipher`, under the master key and `secret_nonce`).
#[derive(Debug, Clone)]
pub struct Model {
    pub id: String,
    pub issuer: String,
    pub label: String,
    pub type_: String,
    pub algorithm: String,
    pub digits: i32,
    pub period: Option<i32>,
    pub counter: Option<i32>,
    pub secret_cipher: Vec<u8>,
    pub secret_nonce: Vec<u8>,
    pub icon: Option<Vec<u8>>,
    pub note: Option<String>,
    pub created_at: Option<i64>,
    pub updated_at: Option<i64>,
}

pub struct ModelView {
    pub id: Seq<char>,
    pub issuer: Seq<char>,
    pub label: Seq<char>,
    pub type_: Seq<char>,
    pub algorithm: Seq<char>,
    pub digits: i32,
    pub period: Option<i32>,
    pub counter: Option<i32>,
    pub secret_cipher: Seq<u8>,
    pub secret_nonce: Seq<u8>,
    pub icon: Option<Seq<u8>>,
    pub note: Option<Seq<char>>,
    pub created_at: Option<i64>,
    pub updated_at: Option<i64>,
}

pub open spec fn opt_bytes(o: Option<Vec<u8>>) -> Option<Seq<u8>> {
    match o {
        Some(v) => Some(v@),
        None => None,
    }
}

pub open spec fn opt_text(o: Option<String>) -> Option<Seq<char>> {
    match o {
        Some(s) => Some(s@),
        None => None,
    }
}

impl View for Model {
    type V = ModelView;

    open spec fn view(&self) -> ModelView {
        ModelView {
            id: self.id@,
            issuer: self.issuer@,
            label: self.label@,
            type_: self.type_@,
            algorithm: self.algorithm@,
            digits: self.digits,
            period: self.period,
            counter: self.counter,
            secret_cipher: self.secret_cipher@,
            secret_nonce: self.secret_nonce@,
            icon: opt_bytes(self.icon),
            note: opt_text(self.note),
            created_at: self.created_at,
            updated_at: self.updated_at,
        }
    }
}

pub fn copy_bytes(v: &Vec<u8>) -> (r: Vec<u8>)
    ensures
        r@ == v@,
{
    vstd::slice::slice_to_vec(v.as_slice())
}

pub fn copy_opt_bytes(o: &Option<Vec<u8>>) -> (r: Option<Vec<u8>>)
    ensures
        opt_bytes(r) == opt_bytes(*o),
{
    match o {
        Some(v) => Some(copy_bytes(v)),
        None => None,
    }
}

pub fn copy_opt_text(o: &Option<String>) -> (r: Option<String>)
    ensures
        opt_text(r) == opt_text(*o),
{
    match o {
        Some(s) => Some(s.clone()),
        None => None,
    }
}

impl Model {
    /// A field-by-field copy.
    pub fn copy(&self) -> (r: Model)
        ensures
            r@ == self@,
    {
        Model {
            id: self.id.clone(),
            issuer: self.issuer.clone(),
            label: self.label.clone(),
            type_: self.type_.clone(),
            algorithm: self.algorithm.clone(),
            digits: self.digits,
            period: self.period,
            counter: self.counter,
            secret_cipher: copy_bytes(&self.secret_cipher),
            secret_nonce: copy_bytes(&self.secret_nonce),
            icon: copy_opt_bytes(&self.icon),
            note: copy_opt_text(&self.note),
            created_at: self.created_at,
            updated_at: self.updated_at,
        }
    }
}

/// The views of a sequence of rows.
pub open spec fn views(rows: Seq<Model>) -> Seq<ModelView> {
    rows.map_values(|x: Model| x@)
}

proof fn lemma_views_push(rows: Seq<Model>, m: Model)
    ensures
        views(rows.push(m)) == views(rows).push(m@),
{
    assert(views(rows.push(m)) =~= views(rows).push(m@));
}

/// No two rows share an id.
pub open spec fn unique_ids(rows: Seq<ModelView>) -> bool {
    forall|i: int, j: int| 0 <= i < rows.len() && 0 <= j < rows.len() && i != j ==> #[trigger] rows[i].id != #[trigger] rows[j].id
}

pub open spec fn has_id(rows: Seq<ModelView>, id: Seq<char>) -> bool {
    exists|i: int| 0 <= i < rows.len() && #[trigger] rows[i].id == id
}

/// The rows of page `current` (counted from 0) of `size` rows each.
pub open spec fn page_of(rows: Seq<ModelView>, current: u32, size: u32) -> Seq<ModelView> {
    let lo = current as int * size as int;
    let hi = lo + size as int;
    if lo >= rows.len() {
        Seq::empty()
    } else if hi >= rows.len() {
        rows.subrange(lo, rows.len() as int)
    } else {
        rows.subrange(lo, hi)
    }
}

/// The account rows, kept in insertion order, with unique ids.
pub struct AccountStore {
    rows: Vec<Model>,
}

impl View for AccountStore {
    type V = Seq<ModelView>;

    closed spec fn view(&self) -> Seq<ModelView> {
        views(self.rows@)
    }
}

impl AccountStore {
    pub open spec fn wf(&self) -> bool {
        unique_ids(self@)
    }

    pub fn new() -> (r: AccountStore)
        ensures
            r@ == Seq::<ModelView>::empty(),
            r.wf(),
    {
        let r = AccountStore { rows: Vec::new() };
        assert(r@ =~= Seq::<ModelView>::empty());
        r
    }

    pub fn len(&self) -> (r: usize)
        ensures
            r == self@.len(),
    {
        self.rows.len()
    }

    /// The index of the row whose id is `id`.
    pub fn find(&self, id: &String) -> (r: Option<usize>)
        requires
            self.wf(),
        ensures
            match r {
                Some(i) => i < self@.len() && self@[i as int].id == id@,
                None => !has_id(self@, id@),
            },
    {
        let mut i: usize = 0;
        while i < self.rows.len()
            invariant
                i <= self.rows.len(),
                self@ == views(self.rows@),
                forall|k: int| 0 <= k < i ==> self@[k].id != id@,
            decreases self.rows.len() - i,
        {
            if self.rows[i].id == *id {
                return Some(i);
            }
            i = i + 1;
        }
        None
    }

    pub fn get(&self, i: usize) -> (r: &Model)
        requires
            i < self@.len(),
        ensures
            r@ == self@[i as int],
    {
        &self.rows[i]
    }

    /// Appends a row whose id is new.
    pub fn push(&mut self, m: Model)
        requires
            old(self).wf(),
            !has_id(old(self)@, m@.id),
        ensures
            final(self)@ == old(self)@.push(m@),
            final(self).wf(),
    {
        let ghost mv = m@;
        self.rows.push(m);
        assert(self@ =~= old(self)@.push(mv));
        assert forall|i: int, j: int| 0 <= i < self@.len() && 0 <= j < self@.len() && i != j implies #[trigger] self@[i].id
            != #[trigger] self@[j].id by {
            if i == old(self)@.len() as int {
                assert(old(self)@[j].id == self@[j].id);
            } else if j == old(self)@.len() as int {
                assert(old(self)@[i].id == self@[i].id);
            }
        }
    }

    /// Puts `m` in place of row `i`, whose id it keeps.
    pub fn replace(&mut self, i: usize, m: Model)
        requires
            old(self).wf(),
            i < old(self)@.len(),
            m@.id == old(self)@[i as int].id,
        ensures
            final(self)@ == old(self)@.update(i as int, m@),
            final(self).wf(),
    {
        let ghost mv = m@;
        self.rows.remove(i);
        self.rows.insert(i, m);
        assert(self@ =~= old(self)@.update(i as int, mv));
    }

    /// Takes row `i` out.
    pub fn delete(&mut self, i: usize)
        requires
            old(self).wf(),
            i < old(self)@.len(),
        ensures
            final(self)@ == old(self)@.remove(i as int),
            final(self).wf(),
    {
        self.rows.remove(i);
        assert(self@ =~= old(self)@.remove(i as int));
    }

    /// Copies of the rows of one page (see `page_of`).
    pub fn page(&self, current: u32, size: u32) -> (r: Vec<Model>)
        ensures
            views(r@) == page_of(self@, current, size),
    {
        let n = self.rows.len();
        assert((current as int) * (size as int) <= 0xFFFF_FFFF * 0xFFFF_FFFF) by (nonlinear_arith)
            requires
                current <= 0xFFFF_FFFF,
                size <= 0xFFFF_FFFF,
        ;
        let lo_wide: u128 = (current as u128) * (size as u128);
        let mut out: Vec<Model> = Vec::new();
        if lo_wide >= n as u128 {
            assert(views(out@) =~= page_of(self@, current, size));
            return out;
        }
        let lo = lo_wide as usize;
        let hi = if lo_wide + size as u128 >= n as u128 {
            n
        } else {
            (lo_wide + size as u128) as usize
        };
        let mut i = lo;
        while i < hi
            invariant
                lo <= i <= hi <= n,
                n == self.rows.len(),
                self@ == views(self.rows@),
                views(out@) == self@.subrange(lo as int, i as int),
            decreases hi - i,
        {
            let m = self.rows[i].copy();
            let ghost before = out@;
            out.push(m);
            assert(out@ == before.push(m));
            assert(self@[i as int] == m@);
            proof {
                lemma_views_push(before, m);
            }
            assert(views(out@) =~= self@.subrange(lo as int, i + 1));
            i = i + 1;
        }
        assert(views(out@) =~= page_of(self@, current, size));
        out
    }

    /// Copies of all rows, in order.
    pub fn rows(&self) -> (r: Vec<Model>)
        ensures
            views(r@) == self@,
    {
        let mut out: Vec<Model> = Vec::new();
        let mut i: usize = 0;
        while i < self.rows.len()
            invariant
                i <= self.rows.len(),
                self@ == views(self.rows@),
                views(out@) == self@.subrange(0, i as int),
            decreases self.rows.len() - i,
        {
            let m = self.rows[i].copy();
            let ghost before = out@;
            out.push(m);
            assert(out@ == before.push(m));
            assert(self@[i as int] == m@);
            proof {
                lemma_views_push(before, m);
            }
            assert(views(out@) =~= self@.subrange(0, i + 1));
            i = i + 1;
        }
        assert(self@.subrange(0, i as int) =~= self@);
        out
    }

    /// A store holding `rows`; `StorageError` when two of them share an id.
    pub fn from_rows(rows: Vec<Model>) -> (r: Result<AccountStore, CommonError>)
        ensures
            match r {
                Ok(s) => s@ == views(rows@) && s.wf(),
                Err(e) => e is StorageError && !unique_ids(views(rows@)),
            },
    {
        let ghost all = views(rows@);
        let mut i: usize = 0;
        while i < rows.len()
            invariant
                i <= rows.len(),
                all == views(rows@),
                forall|a: int, b: int| 0 <= a < i && 0 <= b < rows.len() && a != b ==> #[trigger] all[a].id != #[trigger] all[b].id,
            decreases rows.len() - i,
        {
            let mut j: usize = 0;
            while j < rows.len()
                invariant
                    i < rows.len(),
                    j <= rows.len(),
                    all == views(rows@),
                    forall|a: int, b: int| 0 <= a < i && 0 <= b < rows.len() && a != b ==> #[trigger] all[a].id != #[trigger] all[b].id,
                    forall|b: int| 0 <= b < j && b != i ==> all[i as int].id != #[trigger] all[b].id,
                decreases rows.len() - j,
            {
                if j != i && rows[i].id == rows[j].id {
                    assert(all[i as int].id == all[j as int].id);
                    return Err(CommonError::StorageError(String::from_str("duplicate account id")));
                }
                j = j + 1;
            }
            i = i + 1;
        }
        let s = AccountStore { rows };
        assert(s@ =~= all);
        Ok(s)
    }
}

} // verus!

verus! {

/// A lower-case hex digit.
pub open spec fn hex_char(d: nat) -> char {
    if d < 10 {
        ((48 + d) as u8) as char
    } else {
        ((87 + d) as u8) as char
    }
}

/// The text of bytes `i..` of a UUID: two hex digits a byte, with a hyphen
/// before bytes 4, 6, 8 and 10.
pub open spec fn uuid_from(b: Seq<u8>, i: nat) -> Seq<char>
    decreases 16 - i,
{
    if i >= 16 {
        Seq::empty()
    } else {
        let dash: Seq<char> = if i == 4 || i == 6 || i == 8 || i == 10 {
            seq!['-']
        } else {
            Seq::empty()
        };
        dash + seq![hex_char(b[i as int] as nat / 16), hex_char(b[i as int] as nat % 16)] + uuid_from(b, i + 1)
    }
}

pub open spec fn uuid_text(b: Seq<u8>) -> Seq<char> {
    uuid_from(b, 0)
}

fn hex_digit_char(d: u8) -> (r: char)
    requires
        d < 16,
    ensures
        r == hex_char(d as nat),
{
    if d < 10 {
        (48u8 + d) as char
    } else {
        (87u8 + d) as char
    }
}

/// The hyphenated hex text of 16 bytes (see `uuid_text`).
pub fn format_uuid(b: &[u8]) -> (r: String)
    requires
        b@.len() == 16,
    ensures
        r@ == uuid_text(b@),
{
    let mut out = String::new();
    let mut i: usize = 0;
    while i < 16
        invariant
            i <= 16,
            b@.len() == 16,
            out@ + uuid_from(b@, i as nat) == uuid_text(b@),
        decreases 16 - i,
    {
        let ghost before = out@;
        if i == 4 || i == 6 || i == 8 || i == 10 {
            crate::text::push_char(&mut out, '-');
        }
        crate::text::push_char(&mut out, hex_digit_char(b[i] / 16));
        crate::text::push_char(&mut out, hex_digit_char(b[i] % 16));
        let ghost dash: Seq<char> = if i == 4 || i == 6 || i == 8 || i == 10 {
            seq!['-']
        } else {
            Seq::empty()
        };
        assert(out@ =~= before + (dash + seq![hex_char(b@[i as int] as nat / 16), hex_char(b@[i as int] as nat % 16)]));
        assert(uuid_from(b@, i as nat) == dash + seq![hex_char(b@[i as int] as nat / 16), hex_char(b@[i as int] as nat % 16)]
            + uuid_from(b@, (i + 1) as nat));
        assert(out@ + uuid_from(b@, (i + 1) as nat) =~= before + uuid_from(b@, i as nat));
        i = i + 1;
    }
    assert(out@ + Seq::<char>::empty() =~= out@);
    out
}

/// Bytes of a version-4 UUID: the version nibble set to 4 and the variant
/// bits to 10.
pub open spec fn uuid_v4_bytes(b: Seq<u8>) -> bool {
    &&& b.len() == 16
    &&& b[6] / 16 == 4
    &&& b[8] / 64 == 2
}

/// Turns 16 random bytes into those of a version-4 UUID.
pub fn set_uuid_v4_bits(b: &mut Vec<u8>)
    requires
        old(b)@.len() == 16,
    ensures
        uuid_v4_bytes(final(b)@),
        final(b)@ == old(b)@.update(6, (old(b)@[6] % 16 + 64) as u8).update(8, (old(b)@[8] % 64 + 128) as u8),
{
    let b6 = b[6] % 16 + 64;
    let b8 = b[8] % 64 + 128;
    b.set(6, b6);
    b.set(8, b8);
}

} // verus!

verus! {

/// The fields of an account to change; `None` leaves a field as it is.
/// A new `secret` is Base32 text.
#[derive(Debug, Clone)]
pub struct AccountChanges {
    pub id: String,
    pub issuer: Option<String>,
    pub label: Option<String>,
    pub algorithm: Option<String>,
    pub digits: Option<i32>,
    pub period: Option<i32>,
    pub counter: Option<i32>,
    pub secret: Option<String>,
    pub note: Option<String>,
    pub icon: Option<Vec<u8>>,
}

/// `m` with the plain fields of `c` applied and `updated_at` set; the
/// secret fields are left to the caller.
pub open spec fn with_changes(m: ModelView, c: AccountChanges, updated: i64) -> ModelView {
    ModelView {
        issuer: match c.issuer { Some(s) => s@, None => m.issuer },
        label: match c.label { Some(s) => s@, None => m.label },
        algorithm: match c.algorithm { Some(s) => s@, None => m.algorithm },
        digits: match c.digits { Some(d) => d, None => m.digits },
        period: match c.period { Some(p) => Some(p), None => m.period },
        counter: match c.counter { Some(n) => Some(n), None => m.counter },
        note: match c.note { Some(s) => Some(s@), None => m.note },
        icon: match c.icon { Some(v) => Some(v@), None => m.icon },
        updated_at: Some(updated),
        ..m
    }
}

} // verus!
