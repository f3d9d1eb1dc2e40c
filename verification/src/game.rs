//! The shop catalogue of the prize draw and the day's game book-keeping:
//! who played today and how many prizes each shop gave.

use vstd::prelude::*;
use crate::text::{copy_string, str_eq, views};
use crate::vouchers::MAX_VOUCHERS_PER_UTC_DAY;
use rand_core::RngCore;

verus! {

/// Prizes the centre hands out per UTC day.
pub const MAX_DAILY_PRIZES: u32 = MAX_VOUCHERS_PER_UTC_DAY;

pub struct StoreCategory {
    pub key: String,
    pub label: String,
}

/// A shop of the catalogue: its name and its category key.
pub struct ShopRecord {
    pub name: String,
    pub category: String,
}

/// The shop catalogue: the categories and the shops, in file order.
pub struct StoresData {
    pub categories: Vec<StoreCategory>,
    pub shops: Vec<ShopRecord>,
}

/// A shop that can win the draw: its number in the catalogue (from 1), name and category.
pub struct ShopInfo {
    pub id: u32,
    pub name: String,
    pub category: String,
}

pub struct ShopView {
    pub id: u32,
    pub name: Seq<char>,
    pub category: Seq<char>,
}

impl View for ShopInfo {
    type V = ShopView;

    open spec fn view(&self) -> ShopView {
        ShopView { id: self.id, name: self.name@, category: self.category@ }
    }
}

pub open spec fn shop_views(v: Seq<ShopInfo>) -> Seq<ShopView> {
    v.map_values(|s: ShopInfo| s@)
}

/// The catalogue's shops as (name, category).
pub open spec fn record_views(v: Seq<ShopRecord>) -> Seq<(Seq<char>, Seq<char>)> {
    v.map_values(|s: ShopRecord| (s.name@, s.category@))
}

/// Copies of the catalogue's categories.
pub fn all_categories(data: &StoresData) -> (r: Vec<StoreCategory>)
    ensures
        r@.len() == data.categories@.len(),
        forall|i: int| 0 <= i < r@.len() ==> {
            &&& (#[trigger] r@[i]).key@ == data.categories@[i].key@
            &&& r@[i].label@ == data.categories@[i].label@
        },
{
    let mut r: Vec<StoreCategory> = Vec::new();
    let mut i: usize = 0;
    while i < data.categories.len()
        invariant
            i <= data.categories@.len(),
            r@.len() == i,
            forall|j: int| 0 <= j < i ==> {
                &&& (#[trigger] r@[j]).key@ == data.categories@[j].key@
                &&& r@[j].label@ == data.categories@[j].label@
            },
        decreases data.categories@.len() - i,
    {
        r.push(StoreCategory { key: data.categories[i].key.clone(), label: data.categories[i].label.clone() });
        i = i + 1;
    }
    r
}

fn contains_str(v: &Vec<String>, s: &str) -> (r: bool)
    ensures
        r == views(v@).contains(s@),
{
    let mut i: usize = 0;
    while i < v.len()
        invariant
            i <= v@.len(),
            forall|j: int| 0 <= j < i ==> v@[j]@ != s@,
        decreases v@.len() - i,
    {
        if str_eq(v[i].as_str(), s) {
            assert(views(v@)[i as int] == s@);
            return true;
        }
        i = i + 1;
    }
    assert(!views(v@).contains(s@)) by {
        if views(v@).contains(s@) {
            let j = choose|j: int| 0 <= j < views(v@).len() && views(v@)[j] == s@;
            assert(v@[j]@ == s@);
        }
    }
    false
}

/// The distinct names of the catalogue's shops.
pub open spec fn shop_names(shops: Seq<(Seq<char>, Seq<char>)>) -> Set<Seq<char>> {
    shops.map_values(|s: (Seq<char>, Seq<char>)| s.0).to_set()
}

/// Number of different shop names in the catalogue.
pub fn total_unique_shops_count(data: &StoresData) -> (n: usize)
    ensures
        n == shop_names(record_views(data.shops@)).len(),
{
    let ghost shops = record_views(data.shops@);
    let ghost names = shops.map_values(|s: (Seq<char>, Seq<char>)| s.0);
    let mut seen: Vec<String> = Vec::new();
    let mut i: usize = 0;
    while i < data.shops.len()
        invariant
            i <= data.shops@.len(),
            shops == record_views(data.shops@),
            names == shops.map_values(|s: (Seq<char>, Seq<char>)| s.0),
            views(seen@).no_duplicates(),
            views(seen@).to_set() == names.take(i as int).to_set(),
        decreases data.shops@.len() - i,
    {
        let name = data.shops[i].name.as_str();
        let ghost before = views(seen@);
        proof {
            assert(names.take(i + 1) == names.take(i as int).push(names[i as int]));
            assert(names[i as int] == name@);
        }
        if !contains_str(&seen, name) {
            seen.push(data.shops[i].name.clone());
            proof {
                assert(views(seen@) =~= before.push(name@));
                before.lemma_push_to_set_commute(name@);
                names.take(i as int).lemma_push_to_set_commute(name@);
                assert(!before.contains(name@));
                assert(views(seen@).no_duplicates());
            }
        } else {
            proof {
                names.take(i as int).lemma_push_to_set_commute(name@);
                assert(before.contains(name@));
                assert(before.to_set().contains(name@));
                assert(names.take(i + 1).to_set() =~= before.to_set());
            }
        }
        i = i + 1;
    }
    proof {
        assert(names.take(data.shops@.len() as int) == names);
        views(seen@).unique_seq_to_set();
    }
    seen.len()
}

/// The shops that the categories `keys` put in the draw: the catalogue's shops
/// among the first `n` whose category is one of `keys`, each name once (the
/// first shop of a name counts), numbered by their position from 1.
pub open spec fn selected_shops(shops: Seq<(Seq<char>, Seq<char>)>, keys: Seq<Seq<char>>, n: int) -> Seq<ShopView>
    decreases n,
{
    if n <= 0 {
        Seq::empty()
    } else {
        let prev = selected_shops(shops, keys, n - 1);
        let shop = shops[n - 1];
        if keys.contains(shop.1) && !prev.map_values(|s: ShopView| s.name).contains(shop.0) {
            prev.push(ShopView { id: n as u32, name: shop.0, category: shop.1 })
        } else {
            prev
        }
    }
}

/// The draw's shops for the categories `keys`, among the catalogue's first
/// `n`: every shop of a chosen category has its name among them, and each
/// of them is a catalogue shop of a chosen category, numbered by its
/// position from 1.
pub proof fn law_selected_shops_cover_keys(shops: Seq<(Seq<char>, Seq<char>)>, keys: Seq<Seq<char>>, n: int)
    requires
        0 <= n <= shops.len() < u32::MAX,
    ensures
        forall|j: int|
            0 <= j < n && keys.contains((#[trigger] shops[j]).1)
                ==> selected_shops(shops, keys, n).map_values(|s: ShopView| s.name).contains(shops[j].0),
        forall|i: int|
            0 <= i < selected_shops(shops, keys, n).len() ==> {
                let s = #[trigger] selected_shops(shops, keys, n)[i];
                &&& keys.contains(s.category)
                &&& 1 <= s.id <= n
                &&& shops[s.id - 1] == (s.name, s.category)
            },
    decreases n,
{
    if n > 0 {
        law_selected_shops_cover_keys(shops, keys, n - 1);
        let prev = selected_shops(shops, keys, n - 1);
        let cur = selected_shops(shops, keys, n);
        let shop = shops[n - 1];
        let pn = prev.map_values(|s: ShopView| s.name);
        let cn = cur.map_values(|s: ShopView| s.name);
        assert forall|j: int| 0 <= j < n && keys.contains((#[trigger] shops[j]).1) implies cn.contains(shops[j].0) by {
            if keys.contains(shop.1) && !pn.contains(shop.0) {
                assert(cur == prev.push(ShopView { id: n as u32, name: shop.0, category: shop.1 }));
                assert(cn =~= pn.push(shop.0));
                if j < n - 1 {
                    let k = choose|k: int| 0 <= k < pn.len() && pn[k] == shops[j].0;
                    assert(cn[k] == shops[j].0);
                } else {
                    assert(cn[pn.len() as int] == shop.0);
                }
            } else {
                assert(cur == prev);
                if j == n - 1 {
                    assert(pn.contains(shop.0));
                }
            }
        }
        assert forall|i: int| 0 <= i < cur.len() implies {
            let s = #[trigger] cur[i];
            &&& keys.contains(s.category)
            &&& 1 <= s.id <= n
            &&& shops[s.id - 1] == (s.name, s.category)
        } by {
            if keys.contains(shop.1) && !pn.contains(shop.0) {
                assert(cur == prev.push(ShopView { id: n as u32, name: shop.0, category: shop.1 }));
                if i < prev.len() {
                    assert(cur[i] == prev[i]);
                }
            } else {
                assert(cur == prev);
                assert(cur[i] == prev[i]);
            }
        }
    }
}

pub fn shops_by_category_keys(data: &StoresData, keys: &Vec<String>) -> (r: Vec<ShopInfo>)
    requires
        data.shops@.len() < u32::MAX,
    ensures
        shop_views(r@) == selected_shops(record_views(data.shops@), views(keys@), data.shops@.len() as int),
        forall|j: int|
            0 <= j < data.shops@.len() && views(keys@).contains((#[trigger] data.shops@[j]).category@)
                ==> shop_views(r@).map_values(|s: ShopView| s.name).contains(data.shops@[j].name@),
        forall|i: int|
            0 <= i < r@.len() ==> views(keys@).contains((#[trigger] r@[i]).category@) && 1 <= r@[i].id <= data.shops@.len()
                && data.shops@[r@[i].id - 1].name@ == r@[i].name@ && data.shops@[r@[i].id - 1].category@ == r@[i].category@,
{
    let ghost shops = record_views(data.shops@);
    let ghost ks = views(keys@);
    if keys.len() == 0 {
        proof {
            lemma_no_keys_no_shops(shops, ks, data.shops@.len() as int);
        }
        let r: Vec<ShopInfo> = Vec::new();
        assert(shop_views(r@) =~= Seq::<ShopView>::empty());
        return r;
    }
    let mut seen_names: Vec<String> = Vec::new();
    let mut result: Vec<ShopInfo> = Vec::new();
    let mut idx: usize = 0;
    while idx < data.shops.len()
        invariant
            idx <= data.shops@.len() < u32::MAX,
            shops == record_views(data.shops@),
            ks == views(keys@),
            shop_views(result@) == selected_shops(shops, ks, idx as int),
            views(seen_names@) == shop_views(result@).map_values(|s: ShopView| s.name),
        decreases data.shops@.len() - idx,
    {
        let shop = &data.shops[idx];
        let ghost prev = shop_views(result@);
        proof {
            assert(shops[idx as int] == (shop.name@, shop.category@));
        }
        if contains_str(keys, shop.category.as_str()) && !contains_str(&seen_names, shop.name.as_str()) {
            seen_names.push(shop.name.clone());
            result.push(ShopInfo { id: idx as u32 + 1, name: shop.name.clone(), category: shop.category.clone() });
            proof {
                assert(shop_views(result@) =~= prev.push(ShopView { id: (idx + 1) as u32, name: shop.name@, category: shop.category@ }));
                assert(views(seen_names@) =~= shop_views(result@).map_values(|s: ShopView| s.name)) by {
                    assert(shop_views(result@).map_values(|s: ShopView| s.name) =~= prev.map_values(|s: ShopView| s.name).push(shop.name@));
                }
            }
        }
        idx = idx + 1;
    }
    proof {
        law_selected_shops_cover_keys(shops, ks, data.shops@.len() as int);
        let sel = selected_shops(shops, ks, data.shops@.len() as int);
        assert forall|j: int|
            0 <= j < data.shops@.len() && ks.contains((#[trigger] data.shops@[j]).category@)
                implies shop_views(result@).map_values(|s: ShopView| s.name).contains(data.shops@[j].name@) by {
            assert(shops[j] == (data.shops@[j].name@, data.shops@[j].category@));
        }
        assert forall|i: int| 0 <= i < result@.len() implies ks.contains((#[trigger] result@[i]).category@)
            && 1 <= result@[i].id <= data.shops@.len() && data.shops@[result@[i].id - 1].name@ == result@[i].name@
            && data.shops@[result@[i].id - 1].category@ == result@[i].category@ by {
            assert(sel[i] == result@[i]@);
            assert(shops[result@[i].id - 1] == (data.shops@[result@[i].id - 1].name@, data.shops@[result@[i].id - 1].category@));
        }
    }
    result
}

proof fn lemma_no_keys_no_shops(shops: Seq<(Seq<char>, Seq<char>)>, keys: Seq<Seq<char>>, n: int)
    requires
        keys.len() == 0,
    ensures
        selected_shops(shops, keys, n) == Seq::<ShopView>::empty(),
    decreases n,
{
    if n > 0 {
        lemma_no_keys_no_shops(shops, keys, n - 1);
    }
}

/// The names of the shops that `shops_by_category_keys` selects, in order.
pub fn stores_by_category_keys(data: &StoresData, keys: &Vec<String>) -> (r: Vec<String>)
    requires
        data.shops@.len() < u32::MAX,
    ensures
        views(r@) == selected_shops(record_views(data.shops@), views(keys@), data.shops@.len() as int).map_values(
            |s: ShopView| s.name,
        ),
{
    let shops = shops_by_category_keys(data, keys);
    let mut r: Vec<String> = Vec::new();
    let mut i: usize = 0;
    while i < shops.len()
        invariant
            i <= shops@.len(),
            r@.len() == i,
            forall|j: int| 0 <= j < i ==> #[trigger] r@[j]@ == shops@[j].name@,
        decreases shops@.len() - i,
    {
        r.push(copy_string(&shops[i].name));
        i = i + 1;
    }
    assert(views(r@) =~= shop_views(shops@).map_values(|s: ShopView| s.name));
    r
}

/// Eight random bytes from the operating system (`rand_core::OsRng::try_fill_bytes`),
/// read as a little-endian number; `None` when the system refuses.
/// Nothing is stated of the number: it is random.
#[verifier::external_body]
fn os_random_u64() -> Option<u64> {
    let mut bytes = [0u8; 8];
    match rand_core::OsRng.try_fill_bytes(&mut bytes) {
        Ok(()) => Some(u64::from_le_bytes(bytes)),
        Err(_) => None,
    }
}

/// The position in `0..len` that a random draw picks: the draw modulo
/// `len`, and 0 when `len` is 0 or the system gave no draw.
pub open spec fn drawn_index(draw: Option<u64>, len: usize) -> int {
    if len == 0 {
        0
    } else {
        match draw {
            Some(x) => (x % (len as u64)) as int,
            None => 0,
        }
    }
}

/// The position in `0..len` that the draw `draw` picks.
pub fn index_from_draw(draw: Option<u64>, len: usize) -> (i: usize)
    ensures
        i == drawn_index(draw, len),
{
    if len == 0 {
        return 0;
    }
    match draw {
        Some(x) => (x % (len as u64)) as usize,
        None => 0,
    }
}

/// A random position in `0..len` (0 when `len` is 0): the position that a
/// draw of the system's random source picks. Which position comes is
/// chance: every one of `0..len` can.
pub fn random_index(len: usize) -> (i: usize)
    ensures
        len == 0 ==> i == 0,
        len > 0 ==> i < len,
        exists|draw: Option<u64>| i == #[trigger] drawn_index(draw, len),
{
    let draw = os_random_u64();
    index_from_draw(draw, len)
}

/// `count` categories of the catalogue (all of them when there are fewer),
/// drawn at random without repetition.
pub fn random_categories(data: &StoresData, count: usize) -> (r: Vec<StoreCategory>)
    ensures
        r@.len() == if count < data.categories@.len() { count } else { data.categories@.len() as usize },
        exists|picked: Seq<int>| #[trigger] picks_of(picked, r@, data.categories@),
{
    let mut indices: Vec<usize> = Vec::new();
    let mut k: usize = 0;
    while k < data.categories.len()
        invariant
            k <= data.categories@.len(),
            indices@.len() == k,
            forall|j: int| 0 <= j < k ==> indices@[j] == j,
        decreases data.categories@.len() - k,
    {
        indices.push(k);
        k = k + 1;
    }
    let max = if count < indices.len() { count } else { indices.len() };
    let mut selected: Vec<StoreCategory> = Vec::new();
    let ghost mut picked: Seq<int> = Seq::empty();
    let mut step: usize = 0;
    while step < max
        invariant
            step <= max <= data.categories@.len(),
            max == if count < data.categories@.len() { count } else { data.categories@.len() as usize },
            indices@.len() + step == data.categories@.len(),
            forall|j: int| 0 <= j < indices@.len() ==> (#[trigger] indices@[j]) < data.categories@.len(),
            indices@.no_duplicates(),
            forall|j: int, p: int| 0 <= j < indices@.len() && 0 <= p < picked.len() ==> #[trigger] indices@[j] != #[trigger] picked[p],
            picks_of(picked, selected@, data.categories@),
            selected@.len() == step,
        decreases max - step,
    {
        let idx = random_index(indices.len());
        let ghost before = indices@;
        let category_idx = indices.remove(idx);
        proof {
            assert(indices@ == before.remove(idx as int));
            assert forall|a: int, b: int| 0 <= a < b < indices@.len() implies indices@[a] != indices@[b] by {
                let a0 = if a < idx { a } else { a + 1 };
                let b0 = if b < idx { b } else { b + 1 };
                assert(before[a0] != before[b0]);
            }
            assert forall|j: int| 0 <= j < indices@.len() implies indices@[j] != category_idx by {
                let j0 = if j < idx { j } else { j + 1 };
                assert(before[j0] != before[idx as int]);
            }
        }
        let c = &data.categories[category_idx];
        selected.push(StoreCategory { key: c.key.clone(), label: c.label.clone() });
        proof {
            picked = picked.push(category_idx as int);
        }
        step = step + 1;
    }
    selected
}

/// `r` holds the categories at the distinct positions `picked` of `cats`, in order.
pub open spec fn picks_of(picked: Seq<int>, r: Seq<StoreCategory>, cats: Seq<StoreCategory>) -> bool {
    &&& picked.len() == r.len()
    &&& picked.no_duplicates()
    &&& forall|p: int| 0 <= p < picked.len() ==> {
        &&& 0 <= #[trigger] picked[p] < cats.len()
        &&& r[p].key@ == cats[picked[p]].key@
        &&& r[p].label@ == cats[picked[p]].label@
    }
}

} // verus!
