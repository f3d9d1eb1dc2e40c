//! The store form of the admin pages: what it accepts and why it refuses.

use vstd::prelude::*;
use crate::text::{chars_of, string_of_range, trim, trim_bounds};
use crate::voucher_issue::{parse_u64, parse_u64_text};

verus! {

/// Images larger than this (5 MiB) are refused before upload.
pub const SERVER_FN_BODY_SAFE_LIMIT_BYTES: usize = 5_242_880;

/// The bytes that UTF-8 takes for `c`.
pub open spec fn utf8_width(c: char) -> nat {
    if (c as u32) < 0x80 { 1 } else if (c as u32) < 0x800 { 2 } else if (c as u32) < 0x10000 { 3 } else { 4 }
}

/// The bytes that UTF-8 takes for `s` (what `str::len` counts).
pub open spec fn utf8_len(s: Seq<char>) -> nat
    decreases s.len(),
{
    if s.len() == 0 { 0 } else { utf8_len(s.drop_last()) + utf8_width(s.last()) }
}

proof fn lemma_utf8_len_prefix(s: Seq<char>, k: int)
    requires
        0 <= k <= s.len(),
    ensures
        utf8_len(s.take(k)) <= utf8_len(s),
    decreases s.len() - k,
{
    if k < s.len() {
        lemma_utf8_len_prefix(s, k + 1);
        assert(s.take(k + 1).drop_last() == s.take(k));
    } else {
        assert(s.take(k) == s);
    }
}

/// The UTF-8 length of `v[from..to]`, held at 256 (every limit of the form is lower).
fn utf8_len_of(v: &Vec<char>, from: usize, to: usize) -> (n: usize)
    requires
        from <= to <= v@.len(),
    ensures
        n == if utf8_len(v@.subrange(from as int, to as int)) > 256 { 256 } else { utf8_len(v@.subrange(from as int, to as int)) },
{
    let ghost s = v@.subrange(from as int, to as int);
    let mut n: usize = 0;
    let mut i = from;
    while i < to && n <= 256
        invariant
            from <= i <= to <= v@.len(),
            s == v@.subrange(from as int, to as int),
            n == utf8_len(v@.subrange(from as int, i as int)),
            n <= 260,
        decreases to - i,
    {
        proof {
            assert(v@.subrange(from as int, i + 1).drop_last() == v@.subrange(from as int, i as int));
        }
        let c = v[i] as u32;
        let w: usize = if c < 0x80 { 1 } else if c < 0x800 { 2 } else if c < 0x10000 { 3 } else { 4 };
        n = n + w;
        i = i + 1;
    }
    proof {
        assert(s.take(i - from) == v@.subrange(from as int, i as int));
        lemma_utf8_len_prefix(s, i - from);
        if i == to {
            assert(s.take(i - from) == s);
        }
    }
    if n > 256 { 256 } else { n }
}

/// `s` as `u8::from_str` reads it.
pub open spec fn parse_u8_text(s: Seq<char>) -> Option<u8> {
    match parse_u64_text(s) {
        Some(v) => if v <= 255 { Some(v as u8) } else { None },
        None => None,
    }
}

/// A character a store number may hold: ASCII letters and digits, `-`, `_`, `/`, space.
pub open spec fn store_number_char(c: char) -> bool {
    ('a' <= c <= 'z') || ('A' <= c <= 'Z') || ('0' <= c <= '9') || c == '-' || c == '_' || c == '/' || c == ' '
}

/// A character a phone number may hold: ASCII digits, `+`, space, `-`, `(`, `)`.
pub open spec fn phone_char(c: char) -> bool {
    ('0' <= c <= '9') || c == '+' || c == ' ' || c == '-' || c == '(' || c == ')'
}

/// Why the store form is refused.
#[derive(PartialEq, Eq, Structural, Clone, Copy, Debug)]
pub enum StoreFormError {
    NameRequired,
    NameTooShort,
    NameTooLong,
    LevelOutOfRange,
    LevelNotNumber,
    StoreNumberTooLong,
    StoreNumberInvalid,
    PhoneTooLong,
    PhoneInvalid,
    WebsiteTooLong,
    WebsiteScheme,
}

impl StoreFormError {
    /// The text shown: a translation key for the two errors that have one,
    /// the French message otherwise.
    pub fn message(&self) -> (s: &'static str)
        ensures
            s@ == match *self {
                StoreFormError::NameRequired => "stores_admin.error.name_required"@,
                StoreFormError::NameTooShort => "Le nom du magasin doit contenir au moins 2 caracteres."@,
                StoreFormError::NameTooLong => "Le nom du magasin ne peut pas depasser 120 caracteres."@,
                StoreFormError::LevelOutOfRange => "Le niveau doit etre compris entre 0 et 20."@,
                StoreFormError::LevelNotNumber => "stores_admin.error.level_number"@,
                StoreFormError::StoreNumberTooLong => "Le numero de magasin ne peut pas depasser 32 caracteres."@,
                StoreFormError::StoreNumberInvalid => "Le numero de magasin contient des caracteres invalides."@,
                StoreFormError::PhoneTooLong => "Le telephone ne peut pas depasser 32 caracteres."@,
                StoreFormError::PhoneInvalid => "Le telephone contient des caracteres invalides."@,
                StoreFormError::WebsiteTooLong => "Le site web ne peut pas depasser 255 caracteres."@,
                StoreFormError::WebsiteScheme => "Le site web doit commencer par http:// ou https://"@,
            },
    {
        match self {
            StoreFormError::NameRequired => "stores_admin.error.name_required",
            StoreFormError::NameTooShort => "Le nom du magasin doit contenir au moins 2 caracteres.",
            StoreFormError::NameTooLong => "Le nom du magasin ne peut pas depasser 120 caracteres.",
            StoreFormError::LevelOutOfRange => "Le niveau doit etre compris entre 0 et 20.",
            StoreFormError::LevelNotNumber => "stores_admin.error.level_number",
            StoreFormError::StoreNumberTooLong => "Le numero de magasin ne peut pas depasser 32 caracteres.",
            StoreFormError::StoreNumberInvalid => "Le numero de magasin contient des caracteres invalides.",
            StoreFormError::PhoneTooLong => "Le telephone ne peut pas depasser 32 caracteres.",
            StoreFormError::PhoneInvalid => "Le telephone contient des caracteres invalides.",
            StoreFormError::WebsiteTooLong => "Le site web ne peut pas depasser 255 caracteres.",
            StoreFormError::WebsiteScheme => "Le site web doit commencer par http:// ou https://",
        }
    }
}

/// The store as the form sends it, every text trimmed, empty fields absent.
pub struct StoreForm {
    pub name: String,
    pub level: Option<u8>,
    pub store_number: Option<String>,
    pub phone: Option<String>,
    pub website: Option<String>,
    pub icon_path: Option<String>,
}

/// `t` begins with `p`.
pub open spec fn has_prefix(t: Seq<char>, p: Seq<char>) -> bool {
    p.len() <= t.len() && t.take(p.len() as int) == p
}

/// An optional field: absent when blank, else trimmed.
pub open spec fn field(s: Seq<char>) -> Option<Seq<char>> {
    if trim(s).len() == 0 { None } else { Some(trim(s)) }
}

/// The form's verdict, checks in the order the page makes them.
pub open spec fn form_check(
    name: Seq<char>,
    level: Seq<char>,
    store_number: Seq<char>,
    phone: Seq<char>,
    website: Seq<char>,
) -> Option<StoreFormError> {
    let n = trim(name);
    if n.len() == 0 {
        Some(StoreFormError::NameRequired)
    } else if utf8_len(n) < 2 {
        Some(StoreFormError::NameTooShort)
    } else if utf8_len(n) > 120 {
        Some(StoreFormError::NameTooLong)
    } else if field(level) is Some && parse_u8_text(trim(level)) is None {
        Some(StoreFormError::LevelNotNumber)
    } else if field(level) is Some && parse_u8_text(trim(level))->0 > 20 {
        Some(StoreFormError::LevelOutOfRange)
    } else if field(store_number) is Some && utf8_len(trim(store_number)) > 32 {
        Some(StoreFormError::StoreNumberTooLong)
    } else if field(store_number) is Some && !(forall|i: int| 0 <= i < trim(store_number).len() ==> store_number_char(#[trigger] trim(store_number)[i])) {
        Some(StoreFormError::StoreNumberInvalid)
    } else if field(phone) is Some && utf8_len(trim(phone)) > 32 {
        Some(StoreFormError::PhoneTooLong)
    } else if field(phone) is Some && !(forall|i: int| 0 <= i < trim(phone).len() ==> phone_char(#[trigger] trim(phone)[i])) {
        Some(StoreFormError::PhoneInvalid)
    } else if field(website) is Some && utf8_len(trim(website)) > 255 {
        Some(StoreFormError::WebsiteTooLong)
    } else if field(website) is Some && !(has_prefix(trim(website), "http://"@) || has_prefix(trim(website), "https://"@)) {
        Some(StoreFormError::WebsiteScheme)
    } else {
        None
    }
}

fn trimmed(s: &str) -> (r: (Vec<char>, usize, usize))
    ensures
        r.1 <= r.2 <= r.0@.len(),
        r.0@.subrange(r.1 as int, r.2 as int) == trim(s@),
{
    let v = chars_of(s);
    let (a, b) = trim_bounds(&v, 0, v.len());
    assert(v@.subrange(0, v@.len() as int) == v@);
    (v, a, b)
}

fn all_store_number_chars(v: &Vec<char>, from: usize, to: usize) -> (b: bool)
    requires
        from <= to <= v@.len(),
    ensures
        b == forall|i: int| 0 <= i < to - from ==> store_number_char(#[trigger] v@.subrange(from as int, to as int)[i]),
{
    let mut i = from;
    while i < to
        invariant
            from <= i <= to <= v@.len(),
            forall|j: int| from <= j < i ==> store_number_char(#[trigger] v@[j]),
        decreases to - i,
    {
        let c = v[i];
        if !(('a' <= c && c <= 'z') || ('A' <= c && c <= 'Z') || ('0' <= c && c <= '9') || c == '-' || c == '_' || c == '/' || c == ' ') {
            assert(v@.subrange(from as int, to as int)[i - from] == c);
            return false;
        }
        i = i + 1;
    }
    assert forall|j: int| 0 <= j < to - from implies store_number_char(#[trigger] v@.subrange(from as int, to as int)[j]) by {
        assert(v@.subrange(from as int, to as int)[j] == v@[from + j]);
    }
    true
}

fn all_phone_chars(v: &Vec<char>, from: usize, to: usize) -> (b: bool)
    requires
        from <= to <= v@.len(),
    ensures
        b == forall|i: int| 0 <= i < to - from ==> phone_char(#[trigger] v@.subrange(from as int, to as int)[i]),
{
    let mut i = from;
    while i < to
        invariant
            from <= i <= to <= v@.len(),
            forall|j: int| from <= j < i ==> phone_char(#[trigger] v@[j]),
        decreases to - i,
    {
        let c = v[i];
        if !(('0' <= c && c <= '9') || c == '+' || c == ' ' || c == '-' || c == '(' || c == ')') {
            assert(v@.subrange(from as int, to as int)[i - from] == c);
            return false;
        }
        i = i + 1;
    }
    assert forall|j: int| 0 <= j < to - from implies phone_char(#[trigger] v@.subrange(from as int, to as int)[j]) by {
        assert(v@.subrange(from as int, to as int)[j] == v@[from + j]);
    }
    true
}

fn starts_with_at(v: &Vec<char>, from: usize, to: usize, prefix: &str) -> (b: bool)
    requires
        from <= to <= v@.len(),
    ensures
        b == has_prefix(v@.subrange(from as int, to as int), prefix@),
{
    let p = chars_of(prefix);
    if p.len() > to - from {
        return false;
    }
    let r = crate::text::range_equals(v, from, from + p.len(), &p);
    assert(v@.subrange(from as int, to as int).take(prefix@.len() as int) == v@.subrange(from as int, from + p@.len()));
    r
}

/// Checks the store form and gives what it sends.
pub fn validate_store_form(
    name: &str,
    level: &str,
    store_number: &str,
    phone: &str,
    website: &str,
    icon_path: &str,
) -> (r: Result<StoreForm, StoreFormError>)
    ensures
        match form_check(name@, level@, store_number@, phone@, website@) {
            Some(e) => r == Err::<StoreForm, StoreFormError>(e),
            None => r matches Ok(f) && {
                &&& f.name@ == trim(name@)
                &&& f.level == match field(level@) {
                    Some(t) => parse_u8_text(t),
                    None => None::<u8>,
                }
                &&& crate::text::opt_view(f.store_number) == field(store_number@)
                &&& crate::text::opt_view(f.phone) == field(phone@)
                &&& crate::text::opt_view(f.website) == field(website@)
                &&& crate::text::opt_view(f.icon_path) == field(icon_path@)
            },
        },
{
    let (nv, na, nb) = trimmed(name);
    if na == nb {
        return Err(StoreFormError::NameRequired);
    }
    let name_len = utf8_len_of(&nv, na, nb);
    if name_len < 2 {
        return Err(StoreFormError::NameTooShort);
    }
    if name_len > 120 {
        return Err(StoreFormError::NameTooLong);
    }
    let (lv, la, lb) = trimmed(level);
    let lvl: Option<u8> = if la == lb {
        None
    } else {
        let t = string_of_range(&lv, la, lb);
        match parse_u64(t.as_str()) {
            Some(v) => {
                if v > 255 {
                    return Err(StoreFormError::LevelNotNumber);
                }
                if v > 20 {
                    return Err(StoreFormError::LevelOutOfRange);
                }
                Some(v as u8)
            },
            None => return Err(StoreFormError::LevelNotNumber),
        }
    };
    let (sv, sa, sb) = trimmed(store_number);
    let sn: Option<String> = if sa == sb {
        None
    } else {
        if utf8_len_of(&sv, sa, sb) > 32 {
            return Err(StoreFormError::StoreNumberTooLong);
        }
        if !all_store_number_chars(&sv, sa, sb) {
            return Err(StoreFormError::StoreNumberInvalid);
        }
        Some(string_of_range(&sv, sa, sb))
    };
    let (pv, pa, pb) = trimmed(phone);
    let ph: Option<String> = if pa == pb {
        None
    } else {
        if utf8_len_of(&pv, pa, pb) > 32 {
            return Err(StoreFormError::PhoneTooLong);
        }
        if !all_phone_chars(&pv, pa, pb) {
            return Err(StoreFormError::PhoneInvalid);
        }
        Some(string_of_range(&pv, pa, pb))
    };
    let (wv, wa, wb) = trimmed(website);
    let web: Option<String> = if wa == wb {
        None
    } else {
        if utf8_len_of(&wv, wa, wb) > 255 {
            return Err(StoreFormError::WebsiteTooLong);
        }
        let http = starts_with_at(&wv, wa, wb, "http://");
        let https = starts_with_at(&wv, wa, wb, "https://");
        if !http && !https {
            return Err(StoreFormError::WebsiteScheme);
        }
        Some(string_of_range(&wv, wa, wb))
    };
    let (iv, ia, ib) = trimmed(icon_path);
    let icon: Option<String> = if ia == ib {
        None
    } else {
        Some(string_of_range(&iv, ia, ib))
    };
    Ok(StoreForm { name: string_of_range(&nv, na, nb), level: lvl, store_number: sn, phone: ph, website: web, icon_path: icon })
}

/// An image is refused before upload when it is over the limit.
pub fn image_too_large(len: usize) -> (b: bool)
    ensures
        b == (len > SERVER_FN_BODY_SAFE_LIMIT_BYTES),
{
    len > SERVER_FN_BODY_SAFE_LIMIT_BYTES
}

} // verus!
