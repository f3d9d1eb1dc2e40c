//! The shopping cart: one line per product, quantities merged.
//! A unit price is carried as the bit pattern of its `f32`, untouched here.

use vstd::prelude::*;
use crate::voucher_issue::{parse_u64, parse_u64_text};

verus! {

/// A line of the cart.
pub struct CartItem {
    pub product_id: usize,
    pub title: String,
    /// The unit price: the bits of an `f32` (`f32::to_bits`).
    pub unit_price_bits: u32,
    pub quantity: u32,
}

pub struct ItemView {
    pub product_id: usize,
    pub title: Seq<char>,
    pub unit_price_bits: u32,
    pub quantity: u32,
}

impl View for CartItem {
    type V = ItemView;

    open spec fn view(&self) -> ItemView {
        ItemView {
            product_id: self.product_id,
            title: self.title@,
            unit_price_bits: self.unit_price_bits,
            quantity: self.quantity,
        }
    }
}

pub open spec fn item_views(v: Seq<CartItem>) -> Seq<ItemView> {
    v.map_values(|i: CartItem| i@)
}

/// No product has two lines.
pub open spec fn lines_distinct(v: Seq<ItemView>) -> bool {
    forall|a: int, b: int| 0 <= a < b < v.len() ==> #[trigger] v[a].product_id != #[trigger] v[b].product_id
}

/// The line of product `p`: the first that holds it, if any.
pub open spec fn line_of(v: Seq<ItemView>, p: usize) -> Option<int>
    decreases v.len(),
{
    if v.len() == 0 {
        None
    } else if v[0].product_id == p {
        Some(0)
    } else {
        match line_of(v.drop_first(), p) {
            Some(k) => Some(k + 1),
            None => None,
        }
    }
}

/// The lines other than product `p`'s, in order.
pub open spec fn without(v: Seq<ItemView>, p: usize) -> Seq<ItemView> {
    v.filter(|i: ItemView| i.product_id != p)
}

/// The number of articles: the sum of the quantities.
pub open spec fn quantity_sum(v: Seq<ItemView>) -> nat
    decreases v.len(),
{
    if v.len() == 0 { 0 } else { quantity_sum(v.drop_last()) + v.last().quantity as nat }
}

/// `a + b`, held at `u32::MAX`.
pub open spec fn sat_add(a: u32, b: u32) -> u32 {
    if a + b > u32::MAX { u32::MAX } else { (a + b) as u32 }
}

/// The cart's contents after adding `quantity` of product `p`: its line's
/// quantity grows (held at `u32::MAX`), or a new line comes last.
pub open spec fn after_add(v: Seq<ItemView>, p: usize, title: Seq<char>, bits: u32, quantity: u32) -> Seq<ItemView> {
    match line_of(v, p) {
        Some(k) => v.update(k, ItemView { quantity: sat_add(v[k].quantity, quantity), ..v[k] }),
        None => v.push(ItemView { product_id: p, title, unit_price_bits: bits, quantity }),
    }
}

/// The cart's contents after setting product `p`'s quantity to `quantity`:
/// 0 removes the line; a product without a line is left out.
pub open spec fn after_update(v: Seq<ItemView>, p: usize, quantity: u32) -> Seq<ItemView> {
    if quantity == 0 {
        without(v, p)
    } else {
        match line_of(v, p) {
            Some(k) => v.update(k, ItemView { quantity, ..v[k] }),
            None => v,
        }
    }
}

proof fn lemma_line_of(v: Seq<ItemView>, p: usize)
    ensures
        match line_of(v, p) {
            Some(k) => 0 <= k < v.len() && v[k].product_id == p && forall|j: int| 0 <= j < k ==> v[j].product_id != p,
            None => forall|j: int| 0 <= j < v.len() ==> v[j].product_id != p,
        },
    decreases v.len(),
{
    if v.len() > 0 {
        let u = v.drop_first();
        lemma_line_of(u, p);
        assert forall|j: int| 0 <= j < u.len() implies u[j] == v[j + 1] by {}
        if v[0].product_id != p {
            match line_of(u, p) {
                Some(k) => {
                    assert forall|j: int| 0 <= j < k + 1 implies v[j].product_id != p by {
                        if j > 0 {
                            assert(v[j] == u[j - 1]);
                        }
                    }
                },
                None => {
                    assert forall|j: int| 0 <= j < v.len() implies v[j].product_id != p by {
                        if j > 0 {
                            assert(v[j] == u[j - 1]);
                        }
                    }
                },
            }
        }
    }
}

/// The cart.
pub struct CartState {
    pub items: Vec<CartItem>,
}

impl CartState {
    pub open spec fn lines(&self) -> Seq<ItemView> {
        item_views(self.items@)
    }

    /// An empty cart.
    pub fn new() -> (c: CartState)
        ensures
            c.lines().len() == 0,
    {
        CartState { items: Vec::new() }
    }

    fn find_line(&self, product_id: usize) -> (r: Option<usize>)
        ensures
            opt_int(r) == line_of(self.lines(), product_id),
            r matches Some(k) ==> k < self.items@.len(),
    {
        let ghost v = self.lines();
        let mut i: usize = 0;
        while i < self.items.len()
            invariant
                i <= self.items@.len(),
                v == self.lines(),
                forall|j: int| 0 <= j < i ==> v[j].product_id != product_id,
            decreases self.items@.len() - i,
        {
            if self.items[i].product_id == product_id {
                proof {
                    lemma_line_first(v, product_id, i as int);
                }
                return Some(i);
            }
            i = i + 1;
        }
        proof {
            lemma_line_none(v, product_id);
        }
        None
    }

    /// Adds `quantity` of a product: to its line when it has one (the sum
    /// held at `u32::MAX`), else on a new last line.
    pub fn add_item(&mut self, product_id: usize, title: String, unit_price_bits: u32, quantity: u32)
        ensures
            final(self).lines() == after_add(old(self).lines(), product_id, title@, unit_price_bits, quantity),
    {
        match self.find_line(product_id) {
            Some(k) => {
                let old_item = &self.items[k];
                let updated = CartItem {
                    product_id: old_item.product_id,
                    title: old_item.title.clone(),
                    unit_price_bits: old_item.unit_price_bits,
                    quantity: old_item.quantity.saturating_add(quantity),
                };
                self.items.set(k, updated);
                assert(self.lines() =~= after_add(old(self).lines(), product_id, title@, unit_price_bits, quantity));
            },
            None => {
                self.items.push(CartItem { product_id, title, unit_price_bits, quantity });
                assert(self.lines() =~= after_add(old(self).lines(), product_id, title@, unit_price_bits, quantity));
            },
        }
    }

    /// Removes the product's line (every line of it).
    pub fn remove_item(&mut self, product_id: usize)
        ensures
            final(self).lines() == without(old(self).lines(), product_id),
    {
        let ghost before = self.lines();
        let mut kept: Vec<CartItem> = Vec::new();
        let mut i: usize = 0;
        while i < self.items.len()
            invariant
                i <= self.items@.len(),
                before == self.lines(),
                item_views(kept@) == before.take(i as int).filter(|it: ItemView| it.product_id != product_id),
            decreases self.items@.len() - i,
        {
            proof {
                assert(before.take(i + 1).drop_last() == before.take(i as int));
                reveal_with_fuel(Seq::filter, 1);
            }
            if self.items[i].product_id != product_id {
                let it = &self.items[i];
                kept.push(CartItem {
                    product_id: it.product_id,
                    title: it.title.clone(),
                    unit_price_bits: it.unit_price_bits,
                    quantity: it.quantity,
                });
            }
            assert(item_views(kept@) =~= before.take(i + 1).filter(|it: ItemView| it.product_id != product_id));
            i = i + 1;
        }
        assert(before.take(before.len() as int) == before);
        self.items = kept;
    }

    /// A quantity typed in the product's line: the text is read as
    /// `u32::from_str` reads it, and a text it does not read changes nothing.
    pub fn set_quantity_from_input(&mut self, product_id: usize, raw: &str)
        ensures
            match parse_u32_text(raw@) {
                Some(q) => final(self).lines() == after_update(old(self).lines(), product_id, q),
                None => final(self).lines() == old(self).lines(),
            },
    {
        match parse_u64(raw) {
            Some(v) => {
                if v <= 4294967295 {
                    self.update_quantity(product_id, v as u32);
                }
            },
            None => {},
        }
    }

    /// Sets the product's quantity; 0 removes its line.
    pub fn update_quantity(&mut self, product_id: usize, quantity: u32)
        ensures
            final(self).lines() == after_update(old(self).lines(), product_id, quantity),
    {
        if quantity == 0 {
            self.remove_item(product_id);
            return;
        }
        match self.find_line(product_id) {
            Some(k) => {
                let old_item = &self.items[k];
                let updated = CartItem {
                    product_id: old_item.product_id,
                    title: old_item.title.clone(),
                    unit_price_bits: old_item.unit_price_bits,
                    quantity,
                };
                self.items.set(k, updated);
                assert(self.lines() =~= after_update(old(self).lines(), product_id, quantity));
            },
            None => {},
        }
    }

    /// Empties the cart.
    pub fn clear(&mut self)
        ensures
            final(self).lines().len() == 0,
    {
        self.items.clear();
    }

    /// The number of articles in the cart.
    pub fn total_items(&self) -> (n: u32)
        requires
            quantity_sum(self.lines()) <= u32::MAX,
        ensures
            n == quantity_sum(self.lines()),
    {
        let ghost v = self.lines();
        let mut sum: u32 = 0;
        let mut i: usize = 0;
        while i < self.items.len()
            invariant
                i <= self.items@.len(),
                v == self.lines(),
                quantity_sum(v) <= u32::MAX,
                sum == quantity_sum(v.take(i as int)),
            decreases self.items@.len() - i,
        {
            proof {
                assert(v.take(i + 1).drop_last() == v.take(i as int));
                lemma_quantity_sum_prefix(v, i + 1);
            }
            sum = sum + self.items[i].quantity;
            i = i + 1;
        }
        assert(v.take(v.len() as int) == v);
        sum
    }
}

impl Default for CartState {
    fn default() -> (c: CartState)
        ensures
            c.lines().len() == 0,
    {
        CartState::new()
    }
}

pub open spec fn opt_int(r: Option<usize>) -> Option<int> {
    match r {
        Some(k) => Some(k as int),
        None => None,
    }
}

proof fn lemma_line_first(v: Seq<ItemView>, p: usize, k: int)
    requires
        0 <= k < v.len(),
        v[k].product_id == p,
        forall|j: int| 0 <= j < k ==> v[j].product_id != p,
    ensures
        line_of(v, p) == Some(k),
    decreases v.len(),
{
    if k > 0 {
        let u = v.drop_first();
        assert forall|j: int| 0 <= j < k - 1 implies u[j].product_id != p by {
            assert(u[j] == v[j + 1]);
        }
        assert(u[k - 1] == v[k]);
        lemma_line_first(u, p, k - 1);
    }
}

proof fn lemma_line_none(v: Seq<ItemView>, p: usize)
    requires
        forall|j: int| 0 <= j < v.len() ==> v[j].product_id != p,
    ensures
        line_of(v, p) is None,
    decreases v.len(),
{
    if v.len() > 0 {
        let u = v.drop_first();
        assert forall|j: int| 0 <= j < u.len() implies u[j].product_id != p by {
            assert(u[j] == v[j + 1]);
        }
        lemma_line_none(u, p);
    }
}

proof fn lemma_quantity_sum_prefix(v: Seq<ItemView>, k: int)
    requires
        0 <= k <= v.len(),
    ensures
        quantity_sum(v.take(k)) <= quantity_sum(v),
    decreases v.len() - k,
{
    if k < v.len() {
        lemma_quantity_sum_prefix(v, k + 1);
        assert(v.take(k + 1).drop_last() == v.take(k));
    } else {
        assert(v.take(k) == v);
    }
}

/// Adding keeps one line per product.
pub proof fn law_add_keeps_lines_distinct(v: Seq<ItemView>, p: usize, title: Seq<char>, bits: u32, quantity: u32)
    requires
        lines_distinct(v),
    ensures
        lines_distinct(after_add(v, p, title, bits, quantity)),
{
    lemma_line_of(v, p);
}

/// After adding a product, its line holds what was there plus the added
/// quantity (held at `u32::MAX`), and every other line is as it was.
pub proof fn law_add_then_line(v: Seq<ItemView>, p: usize, title: Seq<char>, bits: u32, quantity: u32)
    requires
        lines_distinct(v),
    ensures
        ({
            let w = after_add(v, p, title, bits, quantity);
            &&& line_of(w, p) matches Some(k) && w[k].quantity == match line_of(v, p) {
                Some(j) => sat_add(v[j].quantity, quantity),
                None => quantity,
            }
            &&& without(w, p) == without(v, p)
        }),
{
    lemma_line_of(v, p);
    let w = after_add(v, p, title, bits, quantity);
    lemma_line_of(w, p);
    match line_of(v, p) {
        Some(j) => {
            assert forall|i: int| 0 <= i < j implies w[i].product_id != p by {
                assert(w[i] == v[i]);
            }
            lemma_line_first(w, p, j);
            assert(without(w, p) =~= without(v, p)) by {
                lemma_filter_update_other(v, p, j, w[j]);
            }
        },
        None => {
            assert forall|i: int| 0 <= i < v.len() implies w[i].product_id != p by {
                assert(w[i] == v[i]);
            }
            lemma_line_first(w, p, v.len() as int);
            assert(w.drop_last() == v);
            reveal_with_fuel(Seq::filter, 1);
            assert(without(w, p) =~= without(v, p));
        },
    }
}

proof fn lemma_filter_update_other(v: Seq<ItemView>, p: usize, j: int, x: ItemView)
    requires
        0 <= j < v.len(),
        v[j].product_id == p,
        x.product_id == p,
    ensures
        without(v.update(j, x), p) == without(v, p),
    decreases v.len(),
{
    reveal_with_fuel(Seq::filter, 1);
    if j < v.len() - 1 {
        lemma_filter_update_other(v.drop_last(), p, j, x);
        assert(v.update(j, x).drop_last() == v.drop_last().update(j, x));
    } else {
        assert(v.update(j, x).drop_last() == v.drop_last());
    }
}

/// Removing a product leaves no line of it, and one line per product when
/// there was.
pub proof fn law_remove_drops_product(v: Seq<ItemView>, p: usize)
    ensures
        line_of(without(v, p), p) is None,
        lines_distinct(v) ==> lines_distinct(without(v, p)),
        without(without(v, p), p) == without(v, p),
{
    let w = without(v, p);
    assert forall|j: int| 0 <= j < w.len() implies w[j].product_id != p by {
        v.lemma_filter_pred(|i: ItemView| i.product_id != p, j);
    }
    lemma_line_none(w, p);
    lemma_filter_keeps_all(w, p);
    if lines_distinct(v) {
        lemma_filter_distinct(v, p);
    }
}

proof fn lemma_filter_keeps_all(w: Seq<ItemView>, p: usize)
    requires
        forall|j: int| 0 <= j < w.len() ==> w[j].product_id != p,
    ensures
        without(w, p) == w,
    decreases w.len(),
{
    reveal_with_fuel(Seq::filter, 1);
    if w.len() > 0 {
        lemma_filter_keeps_all(w.drop_last(), p);
        assert(w.drop_last().push(w.last()) == w);
    }
}

proof fn lemma_filter_distinct(v: Seq<ItemView>, p: usize)
    requires
        lines_distinct(v),
    ensures
        lines_distinct(without(v, p)),
    decreases v.len(),
{
    reveal_with_fuel(Seq::filter, 1);
    if v.len() > 0 {
        let u = v.drop_last();
        assert(lines_distinct(u));
        lemma_filter_distinct(u, p);
        let wu = without(u, p);
        if v.last().product_id != p {
            assert(without(v, p) == wu.push(v.last()));
            assert forall|j: int| 0 <= j < wu.len() implies wu[j].product_id != v.last().product_id by {
                assert(wu.contains(wu[j]));
                u.lemma_filter_contains_rev(|i: ItemView| i.product_id != p, wu[j]);
                let k = choose|k: int| 0 <= k < u.len() && u[k] == wu[j];
                assert(v[k] == u[k]);
            }
        } else {
            assert(without(v, p) == wu);
        }
    }
}

/// Setting a quantity of 0 is removing the product.
pub proof fn law_update_zero_is_remove(v: Seq<ItemView>, p: usize)
    ensures
        after_update(v, p, 0) == without(v, p),
{
}

/// Adding an article of a new product raises the number of articles by its
/// quantity.
pub proof fn law_add_new_raises_total(v: Seq<ItemView>, p: usize, title: Seq<char>, bits: u32, quantity: u32)
    requires
        line_of(v, p) is None,
    ensures
        quantity_sum(after_add(v, p, title, bits, quantity)) == quantity_sum(v) + quantity,
{
    assert(after_add(v, p, title, bits, quantity).drop_last() == v);
}

/// `s` as `u32::from_str` reads it: an optional `+`, then one or more ASCII
/// digits, worth at most `u32::MAX`.
pub open spec fn parse_u32_text(s: Seq<char>) -> Option<u32> {
    match parse_u64_text(s) {
        Some(v) => if v <= u32::MAX { Some(v as u32) } else { None },
        None => None,
    }
}

} // verus!
