//! What the pages decide: navigation and language buttons, store categories
//! and filters, floor colours, store search, news previews and small labels.

use vstd::prelude::*;
use crate::auth::{contains_text, has_infix};
use crate::i18n::Locale;
use crate::text::{chars_of, decimal, int_text, is_whitespace, is_ws, push_decimal, push_int, push_str, push_two_digits, string_from, string_of, string_of_range, trim, trim_bounds, two_digits};
use crate::voucher_admin::{lowercase_text, to_lowercase};

verus! {

/// The header link of the page being shown.
#[derive(Clone, Copy, PartialEq, Eq, Structural, Debug)]
pub enum NavPage {
    Home,
    Parking,
    Stores,
    StoreMap,
    Rewards,
    NoPage,
}

impl Default for NavPage {
    fn default() -> (p: NavPage)
        ensures
            p == NavPage::NoPage,
    {
        NavPage::NoPage
    }
}

/// The class of a header link: highlighted for the page being shown.
pub fn nav_link_class(active: NavPage, page: NavPage) -> (s: &'static str)
    ensures
        s@ == if active == page {
            "text-sm font-semibold tracking-widest text-accent"@
        } else {
            "text-sm font-semibold tracking-widest text-nav hover:text-dark transition-colors"@
        },
{
    if active == page {
        "text-sm font-semibold tracking-widest text-accent"
    } else {
        "text-sm font-semibold tracking-widest text-nav hover:text-dark transition-colors"
    }
}

pub const DESKTOP_ACTIVE_LANG_BTN_CLASS: &'static str = "text-xs font-bold tracking-wider text-accent";
pub const DESKTOP_INACTIVE_LANG_BTN_CLASS: &'static str = "text-xs font-bold tracking-wider text-nav hover:text-dark transition-colors";
pub const MOBILE_ACTIVE_LANG_BTN_CLASS: &'static str = "text-xs font-bold tracking-wider text-dark";
pub const MOBILE_INACTIVE_LANG_BTN_CLASS: &'static str = "text-xs font-bold tracking-wider text-nav hover:text-dark transition-colors";

/// The language buttons, in the order shown: IT, DE, FR, EN.
pub fn language_buttons() -> (b: Vec<(Locale, &'static str)>)
    ensures
        b@.len() == 4,
        b@[0].0 == Locale::It && b@[0].1@ == "IT"@,
        b@[1].0 == Locale::De && b@[1].1@ == "DE"@,
        b@[2].0 == Locale::Fr && b@[2].1@ == "FR"@,
        b@[3].0 == Locale::En && b@[3].1@ == "EN"@,
{
    vec![(Locale::It, "IT"), (Locale::De, "DE"), (Locale::Fr, "FR"), (Locale::En, "EN")]
}

/// The class of a language button in the desktop header: highlighted only
/// for the current locale.
pub fn desktop_language_button_class(current: Locale, target: Locale) -> (s: &'static str)
    ensures
        s@ == if current == target { DESKTOP_ACTIVE_LANG_BTN_CLASS@ } else { DESKTOP_INACTIVE_LANG_BTN_CLASS@ },
{
    if current == target {
        DESKTOP_ACTIVE_LANG_BTN_CLASS
    } else {
        DESKTOP_INACTIVE_LANG_BTN_CLASS
    }
}

/// The class of a language button in the mobile menu: highlighted only for
/// the current locale.
pub fn mobile_language_button_class(current: Locale, target: Locale) -> (s: &'static str)
    ensures
        s@ == if current == target { MOBILE_ACTIVE_LANG_BTN_CLASS@ } else { MOBILE_INACTIVE_LANG_BTN_CLASS@ },
{
    if current == target {
        MOBILE_ACTIVE_LANG_BTN_CLASS
    } else {
        MOBILE_INACTIVE_LANG_BTN_CLASS
    }
}

/// The links under the login form: contact, map, privacy and terms pages.
pub fn login_footer_link_hrefs() -> (v: Vec<&'static str>)
    ensures
        v@.len() == 4,
        v@[0]@ == "/contact"@,
        v@[1]@ == "/map"@,
        v@[2]@ == "/privacy"@,
        v@[3]@ == "/terms"@,
        forall|i: int| 0 <= i < 4 ==> (#[trigger] v@[i])@.len() > 0 && v@[i]@[0] == '/',
{
    proof {
        reveal_strlit("/contact");
        reveal_strlit("/map");
        reveal_strlit("/privacy");
        reveal_strlit("/terms");
    }
    vec!["/contact", "/map", "/privacy", "/terms"]
}

/// A store category.
#[derive(Clone, Copy, PartialEq, Eq, Structural, Debug)]
pub enum Category {
    HighFashion,
    LadiesMenswear,
    Casualwear,
    SportswearEquipment,
    Childrenswear,
    Footwear,
    Underwear,
    WatchesJewellery,
    Accessories,
    Electronics,
    Beauty,
    Home,
    FoodDrinks,
    Services,
}

/// The translation key of a category's name.
pub open spec fn category_key_text(c: Category) -> Seq<char> {
    match c {
        Category::HighFashion => "home.category.luxury_fashion"@,
        Category::LadiesMenswear => "home.category.fashion"@,
        Category::Casualwear => "home.category.casualwear"@,
        Category::SportswearEquipment => "home.category.sport_performance"@,
        Category::Childrenswear => "home.category.kidswear"@,
        Category::Footwear => "home.category.footwear"@,
        Category::Underwear => "home.category.underwear"@,
        Category::WatchesJewellery => "home.category.luxury_heritage"@,
        Category::Accessories => "home.category.accessories"@,
        Category::Electronics => "home.category.electronics"@,
        Category::Beauty => "home.category.beauty"@,
        Category::Home => "home.category.home_lifestyle"@,
        Category::FoodDrinks => "home.category.food_drinks"@,
        Category::Services => "home.category.services"@,
    }
}

pub fn category_label(cat: &Category) -> (s: &'static str)
    ensures
        s@ == category_key_text(*cat),
{
    match cat {
        Category::HighFashion => "home.category.luxury_fashion",
        Category::LadiesMenswear => "home.category.fashion",
        Category::Casualwear => "home.category.casualwear",
        Category::SportswearEquipment => "home.category.sport_performance",
        Category::Childrenswear => "home.category.kidswear",
        Category::Footwear => "home.category.footwear",
        Category::Underwear => "home.category.underwear",
        Category::WatchesJewellery => "home.category.luxury_heritage",
        Category::Accessories => "home.category.accessories",
        Category::Electronics => "home.category.electronics",
        Category::Beauty => "home.category.beauty",
        Category::Home => "home.category.home_lifestyle",
        Category::FoodDrinks => "home.category.food_drinks",
        Category::Services => "home.category.services",
    }
}

/// The home page's store filters.
#[derive(Clone, Copy, PartialEq, Eq, Structural, Debug)]
pub enum FilterGroup {
    All,
    Luxury,
    FashionAccessories,
    SportOutdoor,
    HomeLifestyle,
    Kids,
}

impl Default for FilterGroup {
    fn default() -> (g: FilterGroup)
        ensures
            g == FilterGroup::All,
    {
        FilterGroup::All
    }
}

/// The categories a filter lets through.
pub open spec fn filter_admits(g: FilterGroup, c: Category) -> bool {
    match g {
        FilterGroup::All => true,
        FilterGroup::Luxury => c == Category::HighFashion || c == Category::WatchesJewellery,
        FilterGroup::FashionAccessories => c == Category::LadiesMenswear || c == Category::Casualwear
            || c == Category::Accessories || c == Category::Footwear || c == Category::Underwear,
        FilterGroup::SportOutdoor => c == Category::SportswearEquipment,
        FilterGroup::HomeLifestyle => c == Category::Home || c == Category::Electronics || c == Category::Beauty,
        FilterGroup::Kids => c == Category::Childrenswear,
    }
}

impl FilterGroup {
    pub fn label_key(&self) -> (s: &'static str)
        ensures
            s@ == match *self {
                FilterGroup::All => "home.filter.all"@,
                FilterGroup::Luxury => "home.filter.luxury"@,
                FilterGroup::FashionAccessories => "home.filter.fashion"@,
                FilterGroup::SportOutdoor => "home.filter.sport"@,
                FilterGroup::HomeLifestyle => "home.filter.home"@,
                FilterGroup::Kids => "home.filter.kids"@,
            },
    {
        match self {
            FilterGroup::All => "home.filter.all",
            FilterGroup::Luxury => "home.filter.luxury",
            FilterGroup::FashionAccessories => "home.filter.fashion",
            FilterGroup::SportOutdoor => "home.filter.sport",
            FilterGroup::HomeLifestyle => "home.filter.home",
            FilterGroup::Kids => "home.filter.kids",
        }
    }

    pub fn matches(&self, cat: &Category) -> (b: bool)
        ensures
            b == filter_admits(*self, *cat),
    {
        match self {
            FilterGroup::All => true,
            FilterGroup::Luxury => *cat == Category::HighFashion || *cat == Category::WatchesJewellery,
            FilterGroup::FashionAccessories => *cat == Category::LadiesMenswear || *cat == Category::Casualwear
                || *cat == Category::Accessories || *cat == Category::Footwear || *cat == Category::Underwear,
            FilterGroup::SportOutdoor => *cat == Category::SportswearEquipment,
            FilterGroup::HomeLifestyle => *cat == Category::Home || *cat == Category::Electronics || *cat == Category::Beauty,
            FilterGroup::Kids => *cat == Category::Childrenswear,
        }
    }

    /// Every filter, in the order shown.
    pub fn all() -> (v: Vec<FilterGroup>)
        ensures
            v@ == seq![
                FilterGroup::All,
                FilterGroup::Luxury,
                FilterGroup::FashionAccessories,
                FilterGroup::SportOutdoor,
                FilterGroup::HomeLifestyle,
                FilterGroup::Kids,
            ],
    {
        let v = vec![
            FilterGroup::All,
            FilterGroup::Luxury,
            FilterGroup::FashionAccessories,
            FilterGroup::SportOutdoor,
            FilterGroup::HomeLifestyle,
            FilterGroup::Kids,
        ];
        assert(v@ =~= seq![
            FilterGroup::All,
            FilterGroup::Luxury,
            FilterGroup::FashionAccessories,
            FilterGroup::SportOutdoor,
            FilterGroup::HomeLifestyle,
            FilterGroup::Kids,
        ]);
        v
    }
}

/// The named filters never overlap, and each category but food and
/// services falls under one of them.
pub proof fn law_filters_partition(c: Category)
    ensures
        c != Category::FoodDrinks && c != Category::Services ==> filter_admits(FilterGroup::Luxury, c)
            || filter_admits(FilterGroup::FashionAccessories, c) || filter_admits(FilterGroup::SportOutdoor, c)
            || filter_admits(FilterGroup::HomeLifestyle, c) || filter_admits(FilterGroup::Kids, c),
        forall|g: FilterGroup, h: FilterGroup|
            g != FilterGroup::All && h != FilterGroup::All && g != h && #[trigger] filter_admits(g, c) ==> !#[trigger] filter_admits(h, c),
{
}

/// The badge colours of a floor (0 to 2; 3 and above share the last).
pub fn level_badge_class(level: u8) -> (s: &'static str)
    ensures
        s@ == if level == 0 {
            "bg-yellow-100 text-yellow-700 border border-yellow-200"@
        } else if level == 1 {
            "bg-red-100 text-red-700 border border-red-200"@
        } else if level == 2 {
            "bg-blue-100 text-blue-700 border border-blue-200"@
        } else {
            "bg-green-100 text-green-700 border border-green-200"@
        },
{
    match level {
        0 => "bg-yellow-100 text-yellow-700 border border-yellow-200",
        1 => "bg-red-100 text-red-700 border border-red-200",
        2 => "bg-blue-100 text-blue-700 border border-blue-200",
        _ => "bg-green-100 text-green-700 border border-green-200",
    }
}

/// The translation key of a floor's name (3 and above share the last).
pub fn level_label(level: u8) -> (s: &'static str)
    ensures
        s@ == if level == 0 {
            "store.level.0"@
        } else if level == 1 {
            "store.level.1"@
        } else if level == 2 {
            "store.level.2"@
        } else {
            "store.level.3"@
        },
{
    match level {
        0 => "store.level.0",
        1 => "store.level.1",
        2 => "store.level.2",
        _ => "store.level.3",
    }
}

/// The marker colours of a floor on the directory map.
pub fn floor_marker_classes(level: u8) -> (s: &'static str)
    ensures
        s@ == if level == 0 {
            "bg-yellow-400 border-yellow-700 text-yellow-900"@
        } else if level == 1 {
            "bg-red-500 border-red-800 text-white"@
        } else if level == 2 {
            "bg-blue-500 border-blue-800 text-white"@
        } else {
            "bg-green-500 border-green-800 text-white"@
        },
{
    match level {
        0 => "bg-yellow-400 border-yellow-700 text-yellow-900",
        1 => "bg-red-500 border-red-800 text-white",
        2 => "bg-blue-500 border-blue-800 text-white",
        _ => "bg-green-500 border-green-800 text-white",
    }
}

/// A store shows in the directory: its lower-case name holds the lower-case
/// search (an empty search holds everything), and it is of the chosen
/// category, if one is chosen.
pub open spec fn store_shown(name: Seq<char>, category: Category, search_lc: Seq<char>, chosen: Option<Category>) -> bool {
    (search_lc.len() == 0 || has_infix(lowercase_text(name), search_lc)) && match chosen {
        Some(c) => category == c,
        None => true,
    }
}

pub fn store_matches(name: &str, category: Category, search_lc: &str, chosen: Option<Category>) -> (b: bool)
    ensures
        b == store_shown(name@, category, search_lc@, chosen),
        b == ((search_lc@.len() == 0 || has_infix(lowercase_text(name@), search_lc@)) && match chosen {
            Some(c) => category == c,
            None => true,
        }),
{
    let matches_search = if search_lc.unicode_len() == 0 {
        true
    } else {
        let low = to_lowercase(name);
        contains_text(low.as_str(), search_lc)
    };
    let matches_cat = match chosen {
        Some(c) => category == c,
        None => true,
    };
    matches_search && matches_cat
}

/// A store row of the admin table, as far as the search reads it.
pub struct StoreAdminRow {
    pub id: i64,
    pub name: String,
    pub store_number: Option<String>,
    pub level: Option<u8>,
    pub phone: Option<String>,
    pub website: Option<String>,
    pub icon_path: Option<String>,
}

/// An optional text, empty when absent.
pub open spec fn or_empty(s: Option<String>) -> Seq<char> {
    match s {
        Some(x) => x@,
        None => Seq::empty(),
    }
}

/// A row matches the lower-case query `q` when the query is empty or found
/// in the lower-case name, the id, the lower-case store number, the floor,
/// or the lower-case phone, website or icon path.
pub open spec fn row_matches(row: StoreAdminRow, q: Seq<char>) -> bool {
    ||| q.len() == 0
    ||| has_infix(lowercase_text(row.name@), q)
    ||| has_infix(int_text(row.id as int), q)
    ||| has_infix(lowercase_text(or_empty(row.store_number)), q)
    ||| has_infix(match row.level { Some(l) => decimal(l as nat), None => Seq::empty() }, q)
    ||| has_infix(lowercase_text(or_empty(row.phone)), q)
    ||| has_infix(lowercase_text(or_empty(row.website)), q)
    ||| has_infix(lowercase_text(or_empty(row.icon_path)), q)
}

fn opt_lower_contains(s: &Option<String>, q: &str) -> (b: bool)
    ensures
        b == has_infix(lowercase_text(or_empty(*s)), q@),
{
    let t = match s {
        Some(x) => to_lowercase(x.as_str()),
        None => {
            proof {
                reveal_strlit("");
                assert(""@ =~= Seq::<char>::empty());
            }
            to_lowercase("")
        },
    };
    contains_text(t.as_str(), q)
}

pub fn store_admin_row_matches_query(row: &StoreAdminRow, q_lower: &str) -> (b: bool)
    ensures
        b == row_matches(*row, q_lower@),
{
    if q_lower.unicode_len() == 0 {
        return true;
    }
    let name = to_lowercase(row.name.as_str());
    if contains_text(name.as_str(), q_lower) {
        return true;
    }
    let mut idv: Vec<char> = Vec::new();
    push_int(&mut idv, row.id);
    let ids = string_of(&idv);
    if contains_text(ids.as_str(), q_lower) {
        return true;
    }
    if opt_lower_contains(&row.store_number, q_lower) {
        return true;
    }
    let mut lv: Vec<char> = Vec::new();
    match row.level {
        Some(l) => push_decimal(&mut lv, l as u64),
        None => {},
    }
    let ls = string_of(&lv);
    if contains_text(ls.as_str(), q_lower) {
        return true;
    }
    opt_lower_contains(&row.phone, q_lower) || opt_lower_contains(&row.website, q_lower)
        || opt_lower_contains(&row.icon_path, q_lower)
}

/// Where a stored icon path is served from: trimmed, with the leading
/// `/public/brands/` (if any) served from `/brands/`.
pub open spec fn icon_src(path: Seq<char>) -> Seq<char> {
    let t = trim(path);
    if t.len() >= 15 && t.take(15) == "/public/brands/"@ {
        "/brands/"@ + t.skip(15)
    } else {
        t
    }
}

pub fn icon_src_from_db_path(path: &str) -> (s: String)
    ensures
        s@ == icon_src(path@),
{
    let cs = chars_of(path);
    let (a, b) = trim_bounds(&cs, 0, cs.len());
    assert(cs@.subrange(0, cs@.len() as int) == cs@);
    let prefix = chars_of("/public/brands/");
    proof {
        reveal_strlit("/public/brands/");
    }
    if b - a >= 15 && crate::text::range_equals(&cs, a, a + 15, &prefix) {
        let mut out: Vec<char> = Vec::new();
        push_str(&mut out, "/brands/");
        let mut i = a + 15;
        while i < b
            invariant
                a + 15 <= i <= b <= cs@.len(),
                out@ == "/brands/"@ + cs@.subrange(a + 15, i as int),
            decreases b - i,
        {
            out.push(cs[i]);
            i = i + 1;
            assert(out@ =~= "/brands/"@ + cs@.subrange(a + 15, i as int));
        }
        proof {
            let t = cs@.subrange(a as int, b as int);
            assert(t.take(15) == cs@.subrange(a as int, a + 15));
            assert(t.skip(15) == cs@.subrange(a + 15, b as int));
        }
        string_of(&out)
    } else {
        proof {
            let t = cs@.subrange(a as int, b as int);
            if t.len() >= 15 {
                assert(t.take(15) == cs@.subrange(a as int, a + 15));
            }
        }
        string_of_range(&cs, a, b)
    }
}

/// `s` without what lies between `<` and `>` (the brackets included), as
/// read left to right from inside a tag or not.
pub open spec fn untagged(s: Seq<char>, in_tag: bool) -> Seq<char>
    decreases s.len(),
{
    if s.len() == 0 {
        Seq::empty()
    } else if s[0] == '<' {
        untagged(s.drop_first(), true)
    } else if s[0] == '>' {
        untagged(s.drop_first(), false)
    } else if in_tag {
        untagged(s.drop_first(), true)
    } else {
        seq![s[0]] + untagged(s.drop_first(), false)
    }
}

/// The words of `s` joined by single spaces (`split_whitespace` then
/// `join(" ")`), read left to right: `started` once a word was written,
/// `pending` when a space is owed before the next word.
pub open spec fn joined_words(s: Seq<char>, started: bool, pending: bool) -> Seq<char>
    decreases s.len(),
{
    if s.len() == 0 {
        Seq::empty()
    } else if is_ws(s[0]) {
        joined_words(s.drop_first(), started, started)
    } else {
        (if pending { seq![' ', s[0]] } else { seq![s[0]] }) + joined_words(s.drop_first(), true, false)
    }
}

/// The plain text of a news body: tags removed, the words joined by single spaces.
pub open spec fn plain_text(html: Seq<char>) -> Seq<char> {
    joined_words(untagged(html, false), false, false)
}

pub fn strip_html(html: &str) -> (r: String)
    ensures
        r@ == plain_text(html@),
{
    let v = chars_of(html);
    let mut kept: Vec<char> = Vec::new();
    let mut in_tag = false;
    let mut i: usize = 0;
    assert(html@.skip(0) == html@);
    while i < v.len()
        invariant
            i <= v@.len(),
            v@ == html@,
            kept@ + untagged(html@.skip(i as int), in_tag) == untagged(html@, false),
        decreases v@.len() - i,
    {
        let ghost rest = html@.skip(i as int);
        assert(rest[0] == v@[i as int]);
        assert(rest.drop_first() == html@.skip(i + 1));
        let c = v[i];
        if c == '<' {
            in_tag = true;
        } else if c == '>' {
            in_tag = false;
        } else if !in_tag {
            kept.push(c);
            assert(kept@ + untagged(html@.skip(i + 1), false) == old_kept_plus(kept@, c, html@.skip(i + 1)));
        }
        i = i + 1;
    }
    assert(html@.skip(i as int).len() == 0);
    assert(kept@ == untagged(html@, false));
    let mut out: Vec<char> = Vec::new();
    let mut started = false;
    let mut pending = false;
    let mut j: usize = 0;
    assert(kept@.skip(0) == kept@);
    while j < kept.len()
        invariant
            j <= kept@.len(),
            out@ + joined_words(kept@.skip(j as int), started, pending) == joined_words(kept@, false, false),
        decreases kept@.len() - j,
    {
        let ghost rest = kept@.skip(j as int);
        assert(rest[0] == kept@[j as int]);
        assert(rest.drop_first() == kept@.skip(j + 1));
        let c = kept[j];
        if is_whitespace(c) {
            pending = started;
        } else {
            let ghost before = out@;
            if pending {
                out.push(' ');
            }
            out.push(c);
            assert(out@ == before + (if pending { seq![' ', c] } else { seq![c] }));
            started = true;
            pending = false;
        }
        j = j + 1;
    }
    assert(kept@.skip(j as int).len() == 0);
    string_of(&out)
}

spec fn old_kept_plus(k: Seq<char>, c: char, rest: Seq<char>) -> Seq<char> {
    k + untagged(rest, false)
}

/// An hour as the statistics show it: two digits and `h`.
pub fn format_hour(hour: u8) -> (s: String)
    ensures
        s@ == two_digits(hour as nat) + "h"@,
{
    let mut out: Vec<char> = Vec::new();
    push_two_digits(&mut out, hour as u64);
    push_str(&mut out, "h");
    string_of(&out)
}

/// How long ago a winner won, as the ticker says it.
#[derive(Clone, Copy, PartialEq, Eq, Structural, Debug)]
pub enum Ago {
    /// Just now (also for an unreadable time stamp or one in the future).
    Now,
    Minutes(i64),
    Hours(i64),
    Days(i64),
}

/// The bucket for an age of `secs` whole seconds (chrono's `num_seconds`),
/// `None` for an unreadable time stamp: under a minute is now, then whole
/// minutes below an hour, whole hours below a day, then whole days.
pub open spec fn ago_of(age: Option<i64>) -> Ago {
    match age {
        None => Ago::Now,
        Some(s) => if s / 60 <= 0 {
            Ago::Now
        } else if s / 60 < 60 {
            Ago::Minutes((s / 60) as i64)
        } else if s / 3600 < 24 {
            Ago::Hours((s / 3600) as i64)
        } else {
            Ago::Days((s / 86400) as i64)
        },
    }
}

pub fn relative_age(age: Option<i64>) -> (a: Ago)
    ensures
        a == ago_of(age),
{
    match age {
        None => Ago::Now,
        Some(s) => {
            if s < 60 {
                assert(s / 60 <= 0) by (nonlinear_arith)
                    requires
                        s < 60,
                ;
                Ago::Now
            } else {
                let m = s / 60;
                if m < 60 {
                    Ago::Minutes(m)
                } else if s / 3600 < 24 {
                    Ago::Hours(s / 3600)
                } else {
                    Ago::Days(s / 86400)
                }
            }
        },
    }
}

/// The key and the cookie that keep the cookie consent.
pub const CONSENT_KEY: &'static str = "cookie_consent";
pub const CONSENT_COOKIE: &'static str = "foxtown_cookie_consent";

/// A consent answer as kept: `accepted` or `rejected`.
pub open spec fn is_consent(v: Seq<char>) -> bool {
    v == "accepted"@ || v == "rejected"@
}

fn consent_value(v: &str) -> (b: bool)
    ensures
        b == is_consent(v@),
{
    crate::text::str_eq(v, "accepted") || crate::text::str_eq(v, "rejected")
}

/// The visitor's cookie consent: the consent cookie when it holds an
/// answer, else the stored answer when it is one, else none.
pub open spec fn consent_of(cookies: Option<Seq<char>>, stored: Option<Seq<char>>) -> Option<Seq<char>> {
    let from_cookie = match cookies {
        Some(h) => crate::cookies::cookie_value(h, "foxtown_cookie_consent"@),
        None => None,
    };
    if from_cookie matches Some(v) && is_consent(v) {
        from_cookie
    } else if stored matches Some(v) && is_consent(v) {
        stored
    } else {
        None
    }
}

pub fn read_consent(cookies: Option<&str>, stored: Option<&str>) -> (r: Option<String>)
    ensures
        crate::text::opt_view(r) == consent_of(
            match cookies { Some(h) => Some(h@), None => None },
            match stored { Some(v) => Some(v@), None => None },
        ),
{
    if let Some(h) = cookies {
        if let Some(v) = crate::cookies::parse_cookie_value(h, CONSENT_COOKIE) {
            if consent_value(v.as_str()) {
                return Some(v);
            }
        }
    }
    if let Some(v) = stored {
        if consent_value(v) {
            return Some(string_from(v));
        }
    }
    None
}

/// The cookie that keeps a consent answer for 180 days.
pub fn consent_cookie_header(value: &str) -> (h: String)
    ensures
        h@ == crate::cookies::cookie_header("foxtown_cookie_consent"@, value@, 180),
{
    crate::cookies::build_cookie_header(CONSENT_COOKIE, value, 180)
}

/// The ticker's "ago" text: the translation of its key, the number put in
/// place of `{n}`.
pub open spec fn ago_text(catalog: &crate::i18n::Catalog, locale: Locale, age: Ago) -> Seq<char> {
    let n_pat = seq!['{'] + "n"@ + seq!['}'];
    match age {
        Ago::Now => crate::i18n::translation(catalog, locale, "home.ticker.ago.now"@),
        Ago::Minutes(n) => crate::i18n::replace_all(
            crate::i18n::translation(catalog, locale, "home.ticker.ago.minutes"@),
            n_pat,
            int_text(n as int),
        ),
        Ago::Hours(n) => crate::i18n::replace_all(
            crate::i18n::translation(catalog, locale, "home.ticker.ago.hours"@),
            n_pat,
            int_text(n as int),
        ),
        Ago::Days(n) => crate::i18n::replace_all(
            crate::i18n::translation(catalog, locale, "home.ticker.ago.days"@),
            n_pat,
            int_text(n as int),
        ),
    }
}

fn fill_n(catalog: &crate::i18n::Catalog, locale: Locale, key: &str, n: i64) -> (s: String)
    ensures
        s@ == crate::i18n::replace_all(crate::i18n::translation(catalog, locale, key@), seq!['{'] + "n"@ + seq!['}'], int_text(n as int)),
{
    let mut digits: Vec<char> = Vec::new();
    push_int(&mut digits, n);
    let vars = vec![crate::i18n::Var { name: string_from("n"), value: string_of(&digits) }];
    let s = crate::i18n::translate_fmt(catalog, locale, key, &vars);
    proof {
        assert(vars@.len() == 1);
        assert(vars@[0].name@ == "n"@ && vars@[0].value@ == int_text(n as int));
        reveal_with_fuel(crate::i18n::filled, 2);
    }
    s
}

pub fn ticker_relative_time(catalog: &crate::i18n::Catalog, locale: Locale, age: Ago) -> (s: String)
    ensures
        s@ == ago_text(catalog, locale, age),
{
    match age {
        Ago::Now => crate::i18n::translate(catalog, locale, "home.ticker.ago.now"),
        Ago::Minutes(n) => fill_n(catalog, locale, "home.ticker.ago.minutes", n),
        Ago::Hours(n) => fill_n(catalog, locale, "home.ticker.ago.hours", n),
        Ago::Days(n) => fill_n(catalog, locale, "home.ticker.ago.days", n),
    }
}

/// The whole seconds from the instant an RFC 3339 time stamp denotes to
/// the instant (`now_secs`, `now_nanos`), as chrono's
/// `signed_duration_since(..).num_seconds()` counts them, or `None` when
/// the stamp cannot be read or chrono cannot hold the instant `now`.
pub uninterp spec fn elapsed_seconds(created_at: Seq<char>, now_secs: i64, now_nanos: u32) -> Option<i64>;

/// `DateTime::parse_from_rfc3339(created_at)`, then the `num_seconds()` of
/// the duration from it to `now`, as `elapsed_seconds` names it.
#[verifier::external_body]
fn age_seconds(created_at: &str, now: crate::clock::Instant) -> (r: Option<i64>)
    ensures
        r == elapsed_seconds(created_at@, now.secs, now.nanos),
{
    let created = match chrono::DateTime::parse_from_rfc3339(created_at) {
        Ok(c) => c,
        Err(_) => return None,
    };
    match chrono::DateTime::from_timestamp(now.secs, now.nanos) {
        Some(n) => Some(n.signed_duration_since(created.with_timezone(&chrono::Utc)).num_seconds()),
        None => None,
    }
}

/// The ticker's "ago" text for a winner's time stamp, seen at `now`.
pub fn ticker_text_at(catalog: &crate::i18n::Catalog, locale: Locale, created_at: &str, now: crate::clock::Instant) -> (s: String)
    ensures
        s@ == ago_text(catalog, locale, ago_of(elapsed_seconds(created_at@, now.secs, now.nanos))),
{
    let age = age_seconds(created_at, now);
    ticker_relative_time(catalog, locale, relative_age(age))
}

/// The ticker's "ago" text for a winner's time stamp, now.
pub fn ticker_text(catalog: &crate::i18n::Catalog, locale: Locale, created_at: &str) -> (s: String)
    ensures
        exists|t: (i64, u32)| s@ == #[trigger] ago_text(catalog, locale, ago_of(elapsed_seconds(created_at@, t.0, t.1))),
{
    let now = crate::clock::now_instant();
    let s = ticker_text_at(catalog, locale, created_at, now);
    assert(s@ == ago_text(catalog, locale, ago_of(elapsed_seconds(created_at@, (now.secs, now.nanos).0, (now.secs, now.nanos).1))));
    s
}

/// The deployment runs in development mode unless its setting (default
/// `development`), trimmed and in ASCII lower case, is `production` or `prod`.
pub open spec fn development_mode(setting: Option<Seq<char>>) -> bool {
    let mode = match setting {
        Some(s) => trim(s).map_values(|c: char| crate::voucher_issue::ascii_lower(c)),
        None => "development"@,
    };
    !(mode == "production"@ || mode == "prod"@)
}

pub fn is_development_mode(setting: Option<&str>) -> (b: bool)
    ensures
        b == development_mode(match setting { Some(s) => Some(s@), None => None }),
{
    let s = match setting {
        Some(s) => s,
        None => {
            proof {
                reveal_strlit("development");
                reveal_strlit("production");
                reveal_strlit("prod");
                assert("development"@[1] == 'e' && "production"@[1] == 'r' && "prod"@[1] == 'r');
            }
            return true;
        },
    };
    let cs = chars_of(s);
    let (a, b) = trim_bounds(&cs, 0, cs.len());
    assert(cs@.subrange(0, cs@.len() as int) == cs@);
    let mut low: Vec<char> = Vec::new();
    let mut i = a;
    while i < b
        invariant
            a <= i <= b <= cs@.len(),
            low@ == cs@.subrange(a as int, i as int).map_values(|c: char| crate::voucher_issue::ascii_lower(c)),
        decreases b - i,
    {
        low.push(crate::voucher_issue::ascii_lower_char(cs[i]));
        i = i + 1;
        assert(low@ =~= cs@.subrange(a as int, i as int).map_values(|c: char| crate::voucher_issue::ascii_lower(c)));
    }
    let t = string_of(&low);
    !(crate::text::str_eq(t.as_str(), "production") || crate::text::str_eq(t.as_str(), "prod"))
}

/// A failed schema change is let pass when the column already exists.
pub fn schema_error_tolerated(message: &str) -> (b: bool)
    ensures
        b == has_infix(message@, "duplicate column"@),
{
    contains_text(message, "duplicate column")
}

/// The next UTC midnight after the instant `now`.
pub fn next_utc_midnight(now: crate::clock::Instant) -> (r: crate::clock::Instant)
    requires
        -crate::clock::CHRONO_SECS_BOUND < now.secs < crate::clock::CHRONO_SECS_BOUND,
    ensures
        r.secs == crate::vouchers::day_start(now.secs as int) + 86400,
        r.nanos == 0,
{
    let start = crate::vouchers::utc_day_start(now.secs);
    crate::clock::Instant { secs: start + 86400, nanos: 0 }
}

/// The text chrono's `format` writes for the UTC instant (`secs`, `nanos`)
/// with the pattern `pattern`, or `None` when chrono cannot represent the
/// instant.
pub uninterp spec fn utc_format_text(secs: i64, nanos: u32, pattern: Seq<char>) -> Option<Seq<char>>;

/// `DateTime::from_timestamp(secs, nanos)` then `format(pattern)`, as
/// `utc_format_text` names it; only for the two patterns the pages use
/// (chrono's `to_string` panics on a pattern it cannot write).
#[verifier::external_body]
fn utc_format(i: crate::clock::Instant, pattern: &str) -> (r: Option<String>)
    requires
        pattern@ == "%Y-%m-%d %H:%M UTC"@ || pattern@ == "%B %d, %Y"@,
    ensures
        utc_format_text(i.secs, i.nanos, pattern@) == crate::text::opt_view(r),
{
    match chrono::DateTime::from_timestamp(i.secs, i.nanos) {
        Some(dt) => Some(dt.format(pattern).to_string()),
        None => None,
    }
}

/// The reset time as shown where no browser clock is at hand: `YYYY-MM-DD HH:MM UTC`.
pub fn format_next_reset_utc(next: crate::clock::Instant) -> (r: Option<String>)
    ensures
        crate::text::opt_view(r) == utc_format_text(next.secs, next.nanos, "%Y-%m-%d %H:%M UTC"@),
{
    utc_format(next, "%Y-%m-%d %H:%M UTC")
}

/// A news date as the landing page shows it: month name, day, year.
pub fn format_date(at: crate::clock::Instant) -> (r: Option<String>)
    ensures
        crate::text::opt_view(r) == utc_format_text(at.secs, at.nanos, "%B %d, %Y"@),
{
    utc_format(at, "%B %d, %Y")
}

/// The translation key of a category's name in the directory (the same
/// keys as the home page's).
pub fn category_label_key(category: &Category) -> (s: &'static str)
    ensures
        s@ == category_key_text(*category),
{
    category_label(category)
}

/// The parking refresh period in seconds: the setting when it reads as a
/// number, else 60.
pub fn refresh_interval_secs(setting: Option<&str>) -> (n: u64)
    ensures
        n == match setting {
            Some(s) => match crate::voucher_issue::parse_u64_text(s@) {
                Some(v) => v,
                None => 60u64,
            },
            None => 60u64,
        },
{
    match setting {
        Some(s) => match crate::voucher_issue::parse_u64(s) {
            Some(v) => v,
            None => 60,
        },
        None => 60,
    }
}

fn blank(s: &str) -> (b: bool)
    ensures
        b == (trim(s@).len() == 0),
{
    let v = chars_of(s);
    let (a, b) = trim_bounds(&v, 0, v.len());
    assert(v@.subrange(0, v@.len() as int) == v@);
    a == b
}

/// The checkout form needs every field (blank counts as empty).
pub fn checkout_error(full_name: &str, email: &str, address: &str, city: &str, postal: &str) -> (e: Option<&'static str>)
    ensures
        e matches Some(m) ==> m@ == "Please complete all checkout fields."@,
        e is Some <==> (trim(full_name@).len() == 0 || trim(email@).len() == 0 || trim(address@).len() == 0
            || trim(city@).len() == 0 || trim(postal@).len() == 0),
{
    if blank(full_name) || blank(email) || blank(address) || blank(city) || blank(postal) {
        Some("Please complete all checkout fields.")
    } else {
        None
    }
}

/// The colour of an occupancy ring: red from 90 %, amber from 70 %, green
/// below.
pub fn ring_color(percent: u32) -> (s: &'static str)
    ensures
        s@ == if percent >= 90 {
            "text-red-500"@
        } else if percent >= 70 {
            "text-amber-500"@
        } else {
            "text-emerald-500"@
        },
{
    let pct = if percent < 100 { percent } else { 100 };
    if pct >= 90 {
        "text-red-500"
    } else if pct >= 70 {
        "text-amber-500"
    } else {
        "text-emerald-500"
    }
}

/// Whether the directory filters: a search text or a category is set.
pub fn any_filter_active(search_lc: &str, category: Option<Category>) -> (b: bool)
    ensures
        b == (search_lc@.len() > 0 || category is Some),
{
    search_lc.unicode_len() > 0 || category.is_some()
}

/// The look of a store marker on the directory plan: while a filter is
/// set, markers of matching stores pulse and the others fade.
pub fn marker_classes(filter_active: bool, is_match: bool) -> (c: (&'static str, &'static str))
    ensures
        c.0@ == if filter_active && !is_match { "opacity-20 grayscale"@ } else { "opacity-100"@ },
        c.1@ == if filter_active && is_match { "ring-2 ring-accent ring-offset-1 animate-pulse"@ } else { ""@ },
{
    let dim = if filter_active && !is_match { "opacity-20 grayscale" } else { "opacity-100" };
    let pulse = if filter_active && is_match { "ring-2 ring-accent ring-offset-1 animate-pulse" } else { "" };
    (dim, pulse)
}

/// A store card of the stores page, as far as the page's filter reads it.
pub struct StoreCard {
    pub name: String,
    pub icon_path: Option<String>,
    pub category: Category,
}

pub struct StoreCardView {
    pub name: Seq<char>,
    pub icon_path: Option<Seq<char>>,
    pub category: Category,
}

impl View for StoreCard {
    type V = StoreCardView;

    open spec fn view(&self) -> StoreCardView {
        StoreCardView { name: self.name@, icon_path: crate::text::opt_view(self.icon_path), category: self.category }
    }
}

pub open spec fn card_views(v: Seq<StoreCard>) -> Seq<StoreCardView> {
    v.map_values(|c: StoreCard| c@)
}

/// A card is shown when it has an icon that is not blank and the chosen
/// filter group admits its category.
pub open spec fn card_shown(c: StoreCardView, g: FilterGroup) -> bool {
    &&& c.icon_path matches Some(p) && trim(p).len() > 0
    &&& filter_admits(g, c.category)
}

fn is_blank(s: &str) -> (b: bool)
    ensures
        b == (trim(s@).len() == 0),
{
    let v = chars_of(s);
    let (a, z) = trim_bounds(&v, 0, v.len());
    assert(v@.subrange(0, v@.len() as int) == v@);
    a == z
}

/// Whether the search box holds only white space: the page then shows every
/// store, not the search's results.
pub fn search_is_blank(search: &str) -> (b: bool)
    ensures
        b == (trim(search@).len() == 0),
{
    is_blank(search)
}

/// The cards the stores page shows for the filter group `g`, in their order.
pub fn shown_cards(cards: &Vec<StoreCard>, g: FilterGroup) -> (r: Vec<StoreCard>)
    ensures
        card_views(r@) == card_views(cards@).filter(|c: StoreCardView| card_shown(c, g)),
{
    let ghost all = card_views(cards@);
    let mut out: Vec<StoreCard> = Vec::new();
    let mut i: usize = 0;
    while i < cards.len()
        invariant
            i <= cards@.len(),
            all == card_views(cards@),
            card_views(out@) == all.take(i as int).filter(|c: StoreCardView| card_shown(c, g)),
        decreases cards@.len() - i,
    {
        proof {
            assert(all.take(i + 1).drop_last() == all.take(i as int));
            reveal_with_fuel(Seq::filter, 1);
        }
        let c = &cards[i];
        let has_icon = match &c.icon_path {
            Some(p) => !is_blank(p.as_str()),
            None => false,
        };
        if has_icon && g.matches(&c.category) {
            out.push(StoreCard {
                name: crate::text::copy_string(&c.name),
                icon_path: crate::text::copy_opt_string(&c.icon_path),
                category: c.category,
            });
        }
        assert(card_views(out@) =~= all.take(i + 1).filter(|c: StoreCardView| card_shown(c, g)));
        i = i + 1;
    }
    assert(all.take(all.len() as int) == all);
    out
}

/// The numbering of store searches: each keystroke issues the next number,
/// and a search's results are shown only while its number is the latest.
pub struct SearchTickets {
    pub latest: u64,
}

impl SearchTickets {
    /// No search issued yet.
    pub fn new() -> (t: SearchTickets)
        ensures
            t.latest == 0,
    {
        SearchTickets { latest: 0 }
    }

    /// Issues the number of a new search.
    pub fn issue(&mut self) -> (n: u64)
        requires
            old(self).latest < u64::MAX,
        ensures
            n == old(self).latest + 1,
            *final(self) == after_issue(*old(self)),
    {
        self.latest = self.latest + 1;
        self.latest
    }

    /// Whether the results of search `n` are still to be shown.
    pub fn accepts(&self, n: u64) -> (b: bool)
        ensures
            b == accepted(*self, n),
    {
        n == self.latest
    }
}

/// The tickets after one more search is issued.
pub open spec fn after_issue(t: SearchTickets) -> SearchTickets {
    SearchTickets { latest: (t.latest + 1) as u64 }
}

/// Whether the tickets `t` let the results of search `n` through.
pub open spec fn accepted(t: SearchTickets, n: u64) -> bool {
    n == t.latest
}

/// Once a later search is issued, an earlier search's results are no longer
/// shown; the latest search's are.
pub proof fn law_later_search_wins(t: SearchTickets)
    requires
        t.latest + 2 <= u64::MAX,
    ensures
        !accepted(after_issue(after_issue(t)), after_issue(t).latest),
        accepted(after_issue(after_issue(t)), after_issue(after_issue(t)).latest),
{
}

/// A floor of the interactive map.
#[derive(Clone, Copy, PartialEq, Eq, Structural, Debug)]
pub enum FloorLevel {
    Level0,
    Level1,
    Level2,
    Level3,
}

/// The class of a floor button on the interactive map: dark for the floor
/// being shown, outlined for the others.
pub fn floor_button_class(current: FloorLevel, floor: FloorLevel) -> (s: &'static str)
    ensures
        s@ == if current == floor {
            "button-71 px-4 py-2 bg-gray-900 text-white rounded-lg font-bold"@
        } else {
            "button-73 px-4 py-2 bg-white text-rgb-163-163-163 border border-gray-200 rounded-lg hover:bg-gray-50 transition"@
        },
{
    if current == floor {
        "button-71 px-4 py-2 bg-gray-900 text-white rounded-lg font-bold"
    } else {
        "button-73 px-4 py-2 bg-white text-rgb-163-163-163 border border-gray-200 rounded-lg hover:bg-gray-50 transition"
    }
}

/// A store shows in the directory for a search found anywhere in its
/// lower-case name, at its start or not, under no category or under its own;
/// under another category it does not show.
pub proof fn law_store_search_anywhere(name: Seq<char>, category: Category, q: Seq<char>, before: Seq<char>, after: Seq<char>, other: Category)
    requires
        lowercase_text(name) == before + q + after,
        other != category,
    ensures
        store_shown(name, category, q, None),
        store_shown(name, category, q, Some(category)),
        !store_shown(name, category, q, Some(other)),
{
    let low = lowercase_text(name);
    let i = before.len() as int;
    assert(low.subrange(i, i + q.len()) =~= q);
}

} // verus!
