//! The store-placement editor: the stores of a floor, which of them the side
//! list shows and in what order, the floor buttons' counts, and how a floor
//! button switches floors.

use vstd::prelude::*;
use crate::auth::{contains_text, has_infix};
use crate::order::{is_stable_order, key_views, stable_order, KeyView, SortKey};
use crate::text::{chars_of, copy_opt_string, copy_string, opt_view, string_of_range, trim, trim_bounds};
use crate::voucher_admin::{lowercase_text, to_lowercase};

verus! {

/// A store as the editor reads it: its name, unit number and floor, and
/// whether it has a horizontal and a vertical position on the floor plan.
pub struct EditorStore {
    pub name: String,
    pub store_number: Option<String>,
    pub level: Option<u8>,
    pub has_x: bool,
    pub has_y: bool,
}

pub struct EditorStoreView {
    pub name: Seq<char>,
    pub store_number: Option<Seq<char>>,
    pub level: Option<u8>,
    pub has_x: bool,
    pub has_y: bool,
}

impl View for EditorStore {
    type V = EditorStoreView;

    open spec fn view(&self) -> EditorStoreView {
        EditorStoreView {
            name: self.name@,
            store_number: opt_view(self.store_number),
            level: self.level,
            has_x: self.has_x,
            has_y: self.has_y,
        }
    }
}

pub open spec fn store_views(v: Seq<EditorStore>) -> Seq<EditorStoreView> {
    v.map_values(|s: EditorStore| s@)
}

fn copy_store(s: &EditorStore) -> (r: EditorStore)
    ensures
        r@ == s@,
{
    EditorStore {
        name: copy_string(&s.name),
        store_number: copy_opt_string(&s.store_number),
        level: s.level,
        has_x: s.has_x,
        has_y: s.has_y,
    }
}

/// The stores of floor `level`, in their order.
pub open spec fn on_level(v: Seq<EditorStoreView>, level: u8) -> Seq<EditorStoreView> {
    v.filter(|s: EditorStoreView| s.level == Some(level))
}

/// A store is placed when it has both positions.
pub open spec fn is_placed(s: EditorStoreView) -> bool {
    s.has_x && s.has_y
}

/// The stores of floor `level`, in their order.
pub fn stores_on_level(stores: &Vec<EditorStore>, level: u8) -> (r: Vec<EditorStore>)
    ensures
        store_views(r@) == on_level(store_views(stores@), level),
{
    let ghost all = store_views(stores@);
    let mut out: Vec<EditorStore> = Vec::new();
    let mut i: usize = 0;
    while i < stores.len()
        invariant
            i <= stores@.len(),
            all == store_views(stores@),
            store_views(out@) == on_level(all.take(i as int), level),
        decreases stores@.len() - i,
    {
        proof {
            assert(all.take(i + 1).drop_last() == all.take(i as int));
            reveal_with_fuel(Seq::filter, 1);
        }
        if stores[i].level == Some(level) {
            out.push(copy_store(&stores[i]));
        }
        assert(store_views(out@) =~= on_level(all.take(i + 1), level));
        i = i + 1;
    }
    assert(all.take(all.len() as int) == all);
    out
}

/// How many of the stores `v` are placed.
pub open spec fn placed_count_of(v: Seq<EditorStoreView>) -> nat {
    v.filter(|s: EditorStoreView| is_placed(s)).len()
}

/// How many of the stores are placed.
pub fn placed_count(stores: &Vec<EditorStore>) -> (n: usize)
    ensures
        n == placed_count_of(store_views(stores@)),
{
    let ghost all = store_views(stores@);
    let mut n: usize = 0;
    let mut i: usize = 0;
    while i < stores.len()
        invariant
            i <= stores@.len(),
            all == store_views(stores@),
            n == placed_count_of(all.take(i as int)),
            n <= i,
        decreases stores@.len() - i,
    {
        proof {
            assert(all.take(i + 1).drop_last() == all.take(i as int));
            reveal_with_fuel(Seq::filter, 1);
        }
        if stores[i].has_x && stores[i].has_y {
            n = n + 1;
        }
        i = i + 1;
    }
    assert(all.take(all.len() as int) == all);
    n
}

/// The stores of floor `floor` that are placed, in their order: the markers
/// drawn on that floor's plan.
pub open spec fn placed_on_level(v: Seq<EditorStoreView>, floor: u8) -> Seq<EditorStoreView> {
    v.filter(|s: EditorStoreView| s.level == Some(floor) && is_placed(s))
}

/// The markers of floor `floor`: its placed stores, in their order.
pub fn floor_markers(stores: &Vec<EditorStore>, floor: u8) -> (r: Vec<EditorStore>)
    ensures
        store_views(r@) == placed_on_level(store_views(stores@), floor),
{
    let ghost all = store_views(stores@);
    let mut out: Vec<EditorStore> = Vec::new();
    let mut i: usize = 0;
    while i < stores.len()
        invariant
            i <= stores@.len(),
            all == store_views(stores@),
            store_views(out@) == placed_on_level(all.take(i as int), floor),
        decreases stores@.len() - i,
    {
        proof {
            assert(all.take(i + 1).drop_last() == all.take(i as int));
            reveal_with_fuel(Seq::filter, 1);
        }
        if stores[i].level == Some(floor) && stores[i].has_x && stores[i].has_y {
            out.push(copy_store(&stores[i]));
        }
        assert(store_views(out@) =~= placed_on_level(all.take(i + 1), floor));
        i = i + 1;
    }
    assert(all.take(all.len() as int) == all);
    out
}

/// The badge of a floor button: how many stores of the floor have a
/// horizontal position, how many stores the floor has, and the chevron of
/// the active floor (open or folded list).
pub struct FloorBadge {
    pub placed: usize,
    pub total: usize,
    pub chevron: &'static str,
}

/// The stores of floor `floor` that have a horizontal position.
pub open spec fn marked_on_level(v: Seq<EditorStoreView>, floor: u8) -> Seq<EditorStoreView> {
    v.filter(|s: EditorStoreView| s.level == Some(floor) && s.has_x)
}

/// The chevron of a floor button: down for the active floor with its list
/// open, right for the active floor with its list folded, none otherwise.
pub open spec fn chevron_text(is_active: bool, list_visible: bool) -> Seq<char> {
    if is_active {
        if list_visible {
            " \u{25be}"@
        } else {
            " \u{25b8}"@
        }
    } else {
        ""@
    }
}

/// The badge of the button of floor `floor`, `active_level` being shown
/// with its list open or not.
pub fn floor_badge(stores: &Vec<EditorStore>, floor: u8, active_level: u8, list_visible: bool) -> (b: FloorBadge)
    ensures
        b.total == on_level(store_views(stores@), floor).len(),
        b.placed == marked_on_level(store_views(stores@), floor).len(),
        b.chevron@ == chevron_text(active_level == floor, list_visible),
{
    let ghost all = store_views(stores@);
    let mut total: usize = 0;
    let mut placed: usize = 0;
    let mut i: usize = 0;
    while i < stores.len()
        invariant
            i <= stores@.len(),
            all == store_views(stores@),
            total == on_level(all.take(i as int), floor).len(),
            placed == marked_on_level(all.take(i as int), floor).len(),
            total <= i,
            placed <= i,
        decreases stores@.len() - i,
    {
        proof {
            assert(all.take(i + 1).drop_last() == all.take(i as int));
            reveal_with_fuel(Seq::filter, 1);
        }
        if stores[i].level == Some(floor) {
            total = total + 1;
            if stores[i].has_x {
                placed = placed + 1;
            }
        }
        i = i + 1;
    }
    assert(all.take(all.len() as int) == all);
    let chevron = if active_level == floor {
        if list_visible {
            " \u{25be}"
        } else {
            " \u{25b8}"
        }
    } else {
        ""
    };
    FloorBadge { placed, total, chevron }
}

/// Which floor the editor shows, and whether its store list is open.
#[derive(Clone, Copy, PartialEq, Eq, Structural, Debug)]
pub struct EditorFloor {
    pub level: u8,
    pub list_visible: bool,
}

/// The floor shown after a click on the button of `floor`: the active
/// floor's button opens or folds the list; another floor's button shows
/// that floor with its list open.
pub open spec fn after_click(f: EditorFloor, floor: u8) -> EditorFloor {
    if f.level == floor {
        EditorFloor { level: f.level, list_visible: !f.list_visible }
    } else {
        EditorFloor { level: floor, list_visible: true }
    }
}

impl EditorFloor {
    /// The ground floor, its list open.
    pub fn new() -> (f: EditorFloor)
        ensures
            f == (EditorFloor { level: 0, list_visible: true }),
    {
        EditorFloor { level: 0, list_visible: true }
    }

    /// A click on the button of `floor`; the flag says whether the store
    /// chosen for placing is let go (it is when the floor changes).
    pub fn click(self, floor: u8) -> (r: (EditorFloor, bool))
        ensures
            r.0 == after_click(self, floor),
            r.1 == (self.level != floor),
    {
        if self.level == floor {
            (EditorFloor { level: self.level, list_visible: !self.list_visible }, false)
        } else {
            (EditorFloor { level: floor, list_visible: true }, true)
        }
    }
}

/// Two clicks on the button of the floor being shown leave the editor as it
/// was.
pub proof fn law_active_floor_click_twice(f: EditorFloor)
    ensures
        after_click(after_click(f, f.level), f.level) == f,
{
}

/// After a click on the button of another floor, that floor is shown with
/// its list open.
pub proof fn law_other_floor_click_opens(f: EditorFloor, floor: u8)
    requires
        f.level != floor,
    ensures
        after_click(f, floor).level == floor,
        after_click(f, floor).list_visible,
{
}

/// A store of the floor is listed for the lower-case query `q` unless
/// placed stores are hidden and it has a horizontal position; then, with an
/// empty query it is listed, else when its lower-case name or unit number
/// holds `q`.
pub open spec fn listed(s: EditorStoreView, q: Seq<char>, hide_placed: bool) -> bool {
    &&& !(hide_placed && s.has_x)
    &&& (q.len() == 0 || has_infix(lowercase_text(s.name), q) || match s.store_number {
        Some(u) => has_infix(lowercase_text(u), q),
        None => false,
    })
}

/// The stores of the floor that the list shows, in their order.
pub open spec fn listed_stores(v: Seq<EditorStoreView>, q: Seq<char>, hide_placed: bool) -> Seq<EditorStoreView> {
    v.filter(|s: EditorStoreView| listed(s, q, hide_placed))
}

/// The list's order: stores without a horizontal position first, then by name.
pub open spec fn listing_keys(v: Seq<EditorStoreView>) -> Seq<KeyView> {
    v.map_values(|s: EditorStoreView| KeyView { class: if s.has_x { 1u8 } else { 0u8 }, major: 0, minor: 0, text: s.name })
}

/// The stores at the positions `perm`, in that order.
pub open spec fn stores_at(v: Seq<EditorStoreView>, perm: Seq<usize>) -> Seq<EditorStoreView> {
    perm.map_values(|p: usize| v[p as int])
}

/// The lower-case query that the search box holds: trimmed, then lower-cased.
pub open spec fn editor_query(raw: Seq<char>) -> Seq<char> {
    lowercase_text(trim(raw))
}

fn is_listed(s: &EditorStore, q: &str, hide_placed: bool) -> (b: bool)
    ensures
        b == listed(s@, q@, hide_placed),
{
    if hide_placed && s.has_x {
        return false;
    }
    if q.unicode_len() == 0 {
        return true;
    }
    let name = to_lowercase(s.name.as_str());
    if contains_text(name.as_str(), q) {
        return true;
    }
    match &s.store_number {
        Some(u) => {
            let ul = to_lowercase(u.as_str());
            contains_text(ul.as_str(), q)
        },
        None => false,
    }
}

fn filter_listed(stores: &Vec<EditorStore>, q: &str, hide_placed: bool) -> (r: Vec<EditorStore>)
    ensures
        store_views(r@) == listed_stores(store_views(stores@), q@, hide_placed),
{
    let ghost all = store_views(stores@);
    let mut out: Vec<EditorStore> = Vec::new();
    let mut i: usize = 0;
    while i < stores.len()
        invariant
            i <= stores@.len(),
            all == store_views(stores@),
            store_views(out@) == listed_stores(all.take(i as int), q@, hide_placed),
        decreases stores@.len() - i,
    {
        proof {
            assert(all.take(i + 1).drop_last() == all.take(i as int));
            reveal_with_fuel(Seq::filter, 1);
        }
        if is_listed(&stores[i], q, hide_placed) {
            out.push(copy_store(&stores[i]));
        }
        assert(store_views(out@) =~= listed_stores(all.take(i + 1), q@, hide_placed));
        i = i + 1;
    }
    assert(all.take(all.len() as int) == all);
    out
}

/// The lower-case search query of the raw text of the search box.
pub fn query_of(raw: &str) -> (q: String)
    ensures
        q@ == editor_query(raw@),
{
    let v = chars_of(raw);
    let (a, b) = trim_bounds(&v, 0, v.len());
    assert(v@.subrange(0, v@.len() as int) == v@);
    let t = string_of_range(&v, a, b);
    to_lowercase(t.as_str())
}

/// The side list of a floor's stores for the search box's raw text and the
/// "placed hidden" toggle: the stores listed for the trimmed, lower-cased
/// query, stores without a horizontal position first, then by name, stores
/// that compare the same keeping their order.
pub fn editor_listing(stores_for_level: &Vec<EditorStore>, raw_query: &str, hide_placed: bool) -> (r: Vec<EditorStore>)
    ensures
        exists|perm: Seq<usize>|
            #[trigger] is_stable_order(
                listing_keys(listed_stores(store_views(stores_for_level@), editor_query(raw_query@), hide_placed)),
                false,
                perm,
            ) && store_views(r@) == stores_at(
                listed_stores(store_views(stores_for_level@), editor_query(raw_query@), hide_placed),
                perm,
            ),
{
    let q = query_of(raw_query);
    let f = filter_listed(stores_for_level, q.as_str(), hide_placed);
    let ghost fv = store_views(f@);
    let mut keys: Vec<SortKey> = Vec::new();
    let mut i: usize = 0;
    while i < f.len()
        invariant
            i <= f@.len(),
            fv == store_views(f@),
            keys@.len() == i,
            forall|j: int| 0 <= j < i ==> #[trigger] keys@[j]@ == listing_keys(fv)[j],
        decreases f@.len() - i,
    {
        let class: u8 = if f[i].has_x { 1 } else { 0 };
        keys.push(SortKey { class, major: 0, minor: 0, text: copy_string(&f[i].name) });
        i = i + 1;
    }
    assert(key_views(keys@) =~= listing_keys(fv));
    let perm = stable_order(&keys, false);
    let mut r: Vec<EditorStore> = Vec::new();
    let mut k: usize = 0;
    while k < perm.len()
        invariant
            k <= perm@.len(),
            perm@.len() == f@.len(),
            fv == store_views(f@),
            forall|a: int| 0 <= a < perm@.len() ==> perm@[a] < f@.len(),
            r@.len() == k,
            forall|j: int| 0 <= j < k ==> #[trigger] r@[j]@ == fv[perm@[j] as int],
        decreases perm@.len() - k,
    {
        r.push(copy_store(&f[perm[k]]));
        k = k + 1;
    }
    assert(store_views(r@) =~= stores_at(fv, perm@));
    r
}

/// The message of an empty side list: the floor has no store, or none
/// matches the search; none when the list has stores.
pub fn empty_list_message_key(level_total: usize, listed_len: usize) -> (k: Option<&'static str>)
    ensures
        listed_len > 0 ==> k is None,
        listed_len == 0 && level_total == 0 ==> (k matches Some(s) && s@ == "map_editor.no_stores_for_level"@),
        listed_len == 0 && level_total > 0 ==> (k matches Some(s) && s@ == "map_editor.no_filter_match"@),
{
    if listed_len > 0 {
        None
    } else if level_total == 0 {
        Some("map_editor.no_stores_for_level")
    } else {
        Some("map_editor.no_filter_match")
    }
}

} // verus!
