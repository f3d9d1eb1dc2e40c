//! Locales and translations: codes, the choice of a visitor's locale, the
//! lookup of a text with its fallbacks, and named placeholders.

use vstd::prelude::*;
use crate::cookies::{build_cookie_header, cookie_header, cookie_value, parse_cookie_value};
use crate::text::{chars_of, push_str, range_equals, str_eq, string_from, string_of};

verus! {

/// The site's languages.
#[derive(Clone, Copy, Debug, PartialEq, Eq, Structural)]
pub enum Locale {
    En,
    It,
    De,
    Fr,
}

/// The two-letter code of a locale.
pub open spec fn locale_code(l: Locale) -> Seq<char> {
    match l {
        Locale::En => "en"@,
        Locale::It => "it"@,
        Locale::De => "de"@,
        Locale::Fr => "fr"@,
    }
}

/// The locale of a code, if it is one of the four.
pub open spec fn locale_of_code(c: Seq<char>) -> Option<Locale> {
    if c == "en"@ {
        Some(Locale::En)
    } else if c == "it"@ {
        Some(Locale::It)
    } else if c == "de"@ {
        Some(Locale::De)
    } else if c == "fr"@ {
        Some(Locale::Fr)
    } else {
        None
    }
}

impl Locale {
    pub fn code(self) -> (s: &'static str)
        ensures
            s@ == locale_code(self),
    {
        match self {
            Locale::En => "en",
            Locale::It => "it",
            Locale::De => "de",
            Locale::Fr => "fr",
        }
    }

    pub fn from_code(code: &str) -> (r: Option<Locale>)
        ensures
            r == locale_of_code(code@),
    {
        if str_eq(code, "en") {
            Some(Locale::En)
        } else if str_eq(code, "it") {
            Some(Locale::It)
        } else if str_eq(code, "de") {
            Some(Locale::De)
        } else if str_eq(code, "fr") {
            Some(Locale::Fr)
        } else {
            None
        }
    }
}

/// A locale's code reads back as that locale.
pub proof fn law_locale_code_roundtrip(l: Locale)
    ensures
        locale_of_code(locale_code(l)) == Some(l),
{
    reveal_strlit("en");
    reveal_strlit("it");
    reveal_strlit("de");
    reveal_strlit("fr");
    assert("en"@[0] == 'e' && "it"@[0] == 'i' && "de"@[0] == 'd' && "fr"@[0] == 'f');
}

/// The key under which the locale is kept in the browser's storage.
pub const LOCALE_KEY: &'static str = "locale";

/// The cookie that keeps the locale.
pub const LOCALE_COOKIE: &'static str = "foxtown_locale";

/// A visitor's locale: the locale cookie when it names a locale, else the
/// stored code when it names one, else English.
pub open spec fn chosen_locale(cookies: Option<Seq<char>>, stored: Option<Seq<char>>) -> Locale {
    let from_cookie = match cookies {
        Some(h) => match cookie_value(h, "foxtown_locale"@) {
            Some(c) => locale_of_code(c),
            None => None,
        },
        None => None,
    };
    match from_cookie {
        Some(l) => l,
        None => match stored {
            Some(c) => match locale_of_code(c) {
                Some(l) => l,
                None => Locale::En,
            },
            None => Locale::En,
        },
    }
}

pub fn read_locale(cookies: Option<&str>, stored: Option<&str>) -> (l: Locale)
    ensures
        l == chosen_locale(
            match cookies { Some(h) => Some(h@), None => None },
            match stored { Some(c) => Some(c@), None => None },
        ),
{
    if let Some(h) = cookies {
        if let Some(code) = parse_cookie_value(h, LOCALE_COOKIE) {
            if let Some(l) = Locale::from_code(code.as_str()) {
                return l;
            }
        }
    }
    if let Some(c) = stored {
        if let Some(l) = Locale::from_code(c) {
            return l;
        }
    }
    Locale::En
}

/// The cookie that keeps the locale for a year.
pub fn locale_cookie_header(locale: Locale) -> (h: String)
    ensures
        h@ == cookie_header("foxtown_locale"@, locale_code(locale), 365),
{
    build_cookie_header(LOCALE_COOKIE, locale.code(), 365)
}

/// A translated text under its key.
pub struct Entry {
    pub key: String,
    pub text: String,
}

/// The text of the first entry under `key`, if any.
pub open spec fn lookup(t: Seq<Entry>, key: Seq<char>) -> Option<Seq<char>>
    decreases t.len(),
{
    if t.len() == 0 {
        None
    } else if t[0].key@ == key {
        Some(t[0].text@)
    } else {
        lookup(t.drop_first(), key)
    }
}

fn find_entry(t: &Vec<Entry>, key: &str) -> (r: Option<String>)
    ensures
        match r {
            Some(x) => lookup(t@, key@) == Some(x@),
            None => lookup(t@, key@) is None,
        },
{
    let mut i: usize = 0;
    assert(t@.skip(0) == t@);
    while i < t.len()
        invariant
            i <= t@.len(),
            lookup(t@, key@) == lookup(t@.skip(i as int), key@),
        decreases t@.len() - i,
    {
        assert(t@.skip(i as int)[0] == t@[i as int]);
        if str_eq(t[i].key.as_str(), key) {
            return Some(t[i].text.clone());
        }
        assert(t@.skip(i as int).drop_first() == t@.skip(i + 1));
        i = i + 1;
    }
    None
}

/// The translation tables of the four locales.
pub struct Catalog {
    pub en: Vec<Entry>,
    pub it: Vec<Entry>,
    pub de: Vec<Entry>,
    pub fr: Vec<Entry>,
}

pub open spec fn table_of(c: &Catalog, l: Locale) -> Seq<Entry> {
    match l {
        Locale::En => c.en@,
        Locale::It => c.it@,
        Locale::De => c.de@,
        Locale::Fr => c.fr@,
    }
}

/// The text for `key` in `locale`: its own table's, else the English one,
/// else the key itself.
pub open spec fn translation(c: &Catalog, locale: Locale, key: Seq<char>) -> Seq<char> {
    match lookup(table_of(c, locale), key) {
        Some(t) => t,
        None => match lookup(c.en@, key) {
            Some(t) => t,
            None => key,
        },
    }
}

pub fn translate(catalog: &Catalog, locale: Locale, key: &str) -> (r: String)
    ensures
        r@ == translation(catalog, locale, key@),
{
    let table = match locale {
        Locale::En => &catalog.en,
        Locale::It => &catalog.it,
        Locale::De => &catalog.de,
        Locale::Fr => &catalog.fr,
    };
    match find_entry(table, key) {
        Some(t) => t,
        None => match find_entry(&catalog.en, key) {
            Some(t) => t,
            None => string_from(key),
        },
    }
}

/// `s` with every occurrence of `pat` replaced by `rep`, left to right,
/// as `str::replace` does for a pattern that is not empty.
pub open spec fn replace_all(s: Seq<char>, pat: Seq<char>, rep: Seq<char>) -> Seq<char>
    decreases s.len(),
{
    if pat.len() == 0 || s.len() < pat.len() {
        s
    } else if s.take(pat.len() as int) == pat {
        rep + replace_all(s.skip(pat.len() as int), pat, rep)
    } else {
        seq![s[0]] + replace_all(s.drop_first(), pat, rep)
    }
}

/// Replaces every occurrence of `pat` (not empty) in `s` by `rep`.
pub fn replace_text(s: &str, pat: &str, rep: &str) -> (r: String)
    requires
        pat@.len() > 0,
    ensures
        r@ == replace_all(s@, pat@, rep@),
{
    let v = chars_of(s);
    let p = chars_of(pat);
    let mut out: Vec<char> = Vec::new();
    let mut i: usize = 0;
    assert(s@.skip(0) == s@);
    while i < v.len()
        invariant
            i <= v@.len(),
            v@ == s@,
            p@ == pat@,
            p@.len() > 0,
            out@ + replace_all(s@.skip(i as int), pat@, rep@) == replace_all(s@, pat@, rep@),
        decreases v@.len() - i,
    {
        let ghost rest = s@.skip(i as int);
        if p.len() <= v.len() - i && range_equals(&v, i, i + p.len(), &p) {
            proof {
                assert(rest.take(pat@.len() as int) == v@.subrange(i as int, i + p@.len()));
                assert(rest.skip(pat@.len() as int) == s@.skip(i + pat@.len()));
                assert(out@ + rep@ + replace_all(s@.skip(i + pat@.len()), pat@, rep@) == out@ + (rep@
                    + replace_all(s@.skip(i + pat@.len()), pat@, rep@)));
            }
            push_str(&mut out, rep);
            i = i + p.len();
        } else {
            proof {
                if rest.len() >= pat@.len() {
                    assert(rest.take(pat@.len() as int) == v@.subrange(i as int, i + p@.len()));
                }
                assert(rest.drop_first() == s@.skip(i + 1));
                assert(rest[0] == v@[i as int]);
                assert(out@.push(v@[i as int]) + replace_all(s@.skip(i + 1), pat@, rep@) == out@ + (seq![rest[0]]
                    + replace_all(rest.drop_first(), pat@, rep@)));
            }
            out.push(v[i]);
            i = i + 1;
        }
    }
    proof {
        assert(s@.skip(i as int).len() == 0);
    }
    string_of(&out)
}

/// A value for the placeholder `{name}`.
pub struct Var {
    pub name: String,
    pub value: String,
}

/// `t` with the placeholders of `vars[..n]` filled in, in order.
pub open spec fn filled(t: Seq<char>, vars: Seq<Var>, n: int) -> Seq<char>
    decreases n,
{
    if n <= 0 {
        t
    } else {
        replace_all(filled(t, vars, n - 1), seq!['{'] + vars[n - 1].name@ + seq!['}'], vars[n - 1].value@)
    }
}

/// The translation of `key` with each `{name}` replaced by its value, the
/// variables taken in order.
pub fn translate_fmt(catalog: &Catalog, locale: Locale, key: &str, vars: &Vec<Var>) -> (r: String)
    ensures
        r@ == filled(translation(catalog, locale, key@), vars@, vars@.len() as int),
{
    let mut out = translate(catalog, locale, key);
    let mut i: usize = 0;
    while i < vars.len()
        invariant
            i <= vars@.len(),
            out@ == filled(translation(catalog, locale, key@), vars@, i as int),
        decreases vars@.len() - i,
    {
        let mut pv: Vec<char> = Vec::new();
        pv.push('{');
        push_str(&mut pv, vars[i].name.as_str());
        pv.push('}');
        let pat = string_of(&pv);
        assert(pat@ =~= seq!['{'] + vars@[i as int].name@ + seq!['}']);
        out = replace_text(out.as_str(), pat.as_str(), vars[i].value.as_str());
        i = i + 1;
    }
    out
}

} // verus!
