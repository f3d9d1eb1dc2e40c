//! The admin voucher table: sorting by a column, the column arrows, and the
//! display of creation times.

use vstd::prelude::*;
use crate::clock::parse_rfc3339;
use crate::order::{is_stable_order, key_views, stable_order, KeyView, SortKey};
use crate::text::{chars_of, string_from, string_of_range, trim, trim_bounds};
use crate::vouchers::{arranged, copy_full, created_instant, full_views, VoucherAdminFull, VoucherView};

verus! {

/// A column of the admin voucher table.
#[derive(PartialEq, Eq, Structural, Clone, Copy, Debug)]
pub enum SortColumn {
    Id,
    Email,
    Username,
    FirstName,
    LastName,
    Store,
    Discount,
    ValidUntil,
    CreatedAt,
    Redeemed,
}

/// A sort direction.
#[derive(PartialEq, Eq, Structural, Clone, Copy, Debug)]
pub enum SortDir {
    Asc,
    Desc,
}

/// The text that `str::to_lowercase` gives for `s`.
pub uninterp spec fn lowercase_text(s: Seq<char>) -> Seq<char>;

/// `str::to_lowercase`, as `lowercase_text` names it.
#[verifier::external_body]
pub(crate) fn to_lowercase(s: &str) -> (r: String)
    ensures
        r@ == lowercase_text(s@),
{
    s.to_lowercase()
}

/// The key a voucher is sorted by in the column `col`: the number for ids
/// and discounts, redeemed after not redeemed, the lower-case text for names,
/// e-mail and store, the text of the last valid day, and for the creation
/// time the instant it denotes, vouchers whose time stamp cannot be read
/// coming after, by their time stamp text.
pub open spec fn column_key(v: VoucherView, col: SortColumn) -> KeyView {
    match col {
        SortColumn::Id => KeyView { class: 0, major: 0, minor: v.id, text: Seq::empty() },
        SortColumn::Email => KeyView { class: 0, major: 0, minor: 0, text: lowercase_text(v.email) },
        SortColumn::Username => KeyView { class: 0, major: 0, minor: 0, text: lowercase_text(v.username) },
        SortColumn::FirstName => KeyView { class: 0, major: 0, minor: 0, text: lowercase_text(v.first_name) },
        SortColumn::LastName => KeyView { class: 0, major: 0, minor: 0, text: lowercase_text(v.last_name) },
        SortColumn::Store => KeyView { class: 0, major: 0, minor: 0, text: lowercase_text(v.store) },
        SortColumn::Discount => KeyView { class: 0, major: 0, minor: v.discount as u64, text: Seq::empty() },
        SortColumn::ValidUntil => KeyView { class: 0, major: 0, minor: 0, text: v.valid_until },
        SortColumn::CreatedAt => match created_instant(v) {
            Some(t) => KeyView { class: 0, major: t.0, minor: t.1 as u64, text: Seq::empty() },
            None => KeyView { class: 1, major: 0, minor: 0, text: v.created_at },
        },
        SortColumn::Redeemed => KeyView { class: 0, major: 0, minor: if v.redeemed { 1 } else { 0 }, text: Seq::empty() },
    }
}

pub open spec fn column_keys(vs: Seq<VoucherView>, col: SortColumn) -> Seq<KeyView> {
    vs.map_values(|v: VoucherView| column_key(v, col))
}

fn column_sort_key(v: &VoucherAdminFull, col: SortColumn) -> (k: SortKey)
    ensures
        k@ == column_key(v@, col),
{
    let empty = String::new();
    match col {
        SortColumn::Id => SortKey { class: 0, major: 0, minor: v.id, text: empty },
        SortColumn::Email => SortKey { class: 0, major: 0, minor: 0, text: to_lowercase(v.email.as_str()) },
        SortColumn::Username => SortKey { class: 0, major: 0, minor: 0, text: to_lowercase(v.username.as_str()) },
        SortColumn::FirstName => SortKey { class: 0, major: 0, minor: 0, text: to_lowercase(v.first_name.as_str()) },
        SortColumn::LastName => SortKey { class: 0, major: 0, minor: 0, text: to_lowercase(v.last_name.as_str()) },
        SortColumn::Store => SortKey { class: 0, major: 0, minor: 0, text: to_lowercase(v.store.as_str()) },
        SortColumn::Discount => SortKey { class: 0, major: 0, minor: v.discount as u64, text: empty },
        SortColumn::ValidUntil => SortKey { class: 0, major: 0, minor: 0, text: v.valid_until.clone() },
        SortColumn::CreatedAt => {
            let cs = chars_of(v.created_at.as_str());
            let (a, b) = trim_bounds(&cs, 0, cs.len());
            assert(cs@.subrange(0, cs@.len() as int) == cs@);
            let t = string_of_range(&cs, a, b);
            match parse_rfc3339(t.as_str()) {
                Some(i) => SortKey { class: 0, major: i.secs, minor: i.nanos as u64, text: empty },
                None => SortKey { class: 1, major: 0, minor: 0, text: v.created_at.clone() },
            }
        },
        SortColumn::Redeemed => SortKey { class: 0, major: 0, minor: if v.redeemed { 1 } else { 0 }, text: empty },
    }
}

/// The direction is descending.
pub open spec fn is_desc(dir: SortDir) -> bool {
    dir == SortDir::Desc
}

/// The rows sorted by the column `col` in the direction `dir` (a stable
/// sort: rows with equal keys keep their order).
pub fn sort_vouchers(items: &Vec<VoucherAdminFull>, col: SortColumn, dir: SortDir) -> (r: Vec<VoucherAdminFull>)
    ensures
        exists|perm: Seq<usize>|
            #[trigger] is_stable_order(column_keys(full_views(items@), col), is_desc(dir), perm)
                && full_views(r@) == arranged(full_views(items@), perm),
{
    let ghost vs = full_views(items@);
    let mut keys: Vec<SortKey> = Vec::new();
    let mut i: usize = 0;
    while i < items.len()
        invariant
            i <= items@.len(),
            keys@.len() == i,
            forall|j: int| 0 <= j < i ==> #[trigger] keys@[j]@ == column_key(items@[j]@, col),
        decreases items@.len() - i,
    {
        keys.push(column_sort_key(&items[i], col));
        i = i + 1;
    }
    assert(key_views(keys@) =~= column_keys(vs, col));
    let desc = match dir {
        SortDir::Asc => false,
        SortDir::Desc => true,
    };
    let perm = stable_order(&keys, desc);
    let mut r: Vec<VoucherAdminFull> = Vec::new();
    let mut k: usize = 0;
    while k < perm.len()
        invariant
            k <= perm@.len(),
            perm@.len() == items@.len(),
            forall|a: int| 0 <= a < perm@.len() ==> perm@[a] < items@.len(),
            r@.len() == k,
            forall|q: int| 0 <= q < k ==> #[trigger] r@[q]@ == items@[perm@[q] as int]@,
        decreases perm@.len() - k,
    {
        r.push(copy_full(&items[perm[k]]));
        k = k + 1;
    }
    assert(full_views(r@) =~= arranged(vs, perm@));
    assert(is_stable_order(column_keys(full_views(items@), col), is_desc(dir), perm@));
    r
}

/// The arrow a column header shows: none for another column than the sorted
/// one, an up arrow for ascending, a down arrow for descending.
pub open spec fn arrow_text(col: SortColumn, active: SortColumn, dir: SortDir) -> Seq<char> {
    if col != active {
        ""@
    } else if dir == SortDir::Asc {
        " \u{2191}"@
    } else {
        " \u{2193}"@
    }
}

pub fn sort_arrow(col: SortColumn, active: SortColumn, dir: SortDir) -> (s: &'static str)
    ensures
        s@ == arrow_text(col, active, dir),
{
    if col != active {
        return "";
    }
    match dir {
        SortDir::Asc => " \u{2191}",
        SortDir::Desc => " \u{2193}",
    }
}

/// The text that chrono's `format` writes with `pattern` for an RFC 3339
/// time stamp (in the stamp's own offset), or `None` when chrono refuses
/// the text.
pub uninterp spec fn rfc3339_display_text(text: Seq<char>, pattern: Seq<char>) -> Option<Seq<char>>;

/// `DateTime::parse_from_rfc3339(text)` then `format(pattern)`, as
/// `rfc3339_display_text` names it; only for the pattern the table uses
/// (chrono's `to_string` panics on a pattern it cannot write).
#[verifier::external_body]
fn rfc3339_display(text: &str, pattern: &str) -> (r: Option<String>)
    requires
        pattern@ == "%Y-%m-%d %H:%M:%S"@,
    ensures
        rfc3339_display_text(text@, pattern@) == match r {
            Some(t) => Some(t@),
            None => None,
        },
{
    match chrono::DateTime::parse_from_rfc3339(text) {
        Ok(dt) => Some(dt.format(pattern).to_string()),
        Err(_) => None,
    }
}

/// A creation time stamp as the table shows it: the trimmed stamp written
/// as `YYYY-MM-DD HH:MM:SS` (chrono pattern `%Y-%m-%d %H:%M:%S`), or the stamp unchanged when it cannot be read.
pub fn format_created_at_display(iso: &str) -> (r: String)
    ensures
        r@ == match rfc3339_display_text(trim(iso@), "%Y-%m-%d %H:%M:%S"@) {
            Some(t) => t,
            None => iso@,
        },
{
    let cs = chars_of(iso);
    let (a, b) = trim_bounds(&cs, 0, cs.len());
    assert(cs@.subrange(0, cs@.len() as int) == cs@);
    let t = string_of_range(&cs, a, b);
    match rfc3339_display(t.as_str(), "%Y-%m-%d %H:%M:%S") {
        Some(d) => d,
        None => string_from(iso),
    }
}

} // verus!
