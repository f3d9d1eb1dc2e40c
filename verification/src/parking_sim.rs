//! The simulated parking counter: one bit per space and per charging point.

use vstd::prelude::*;
use crate::bitmap::{clear_first_occupied_bit, clear_first_occupied_ev_bit, count_ev, count_ev_range, count_range, count_spots, ev_fn, ev_on, fill_ev, fill_spots, lemma_count_flip, lemma_count_none, lemma_count_same, lemma_count_bound, set_first_free_bit, set_first_free_ev_bit, spot_on, spots_fn, EV_BITS, SPOT_BITS};
use crate::clock::{now_rfc3339, now_subsec_millis};
use crate::parking::{default_lots, expected_failure, lot_failure, lots_failure, max_capacity, state_failure, sum_capacity, sum_occupied, MAX_TOTAL_PARKING_CAPACITY, find_lot, find_lot_index, find_meta, layout_ok, lemma_find_lot, lemma_meta_ids_distinct, lot_meta, lot_with_counts, meta_id, meta_index, spot_start, spot_end, ev_start, ev_end, LotView, ParkingError, ParkingOperationResult, ParkingSystemState, StateView, LOT_COUNT};
use crate::text::{concat2, concat3, str_eq};

verus! {

/// The occupancy bitmaps of the whole centre.
pub struct ParkingBits {
    pub spots: [u32; 57],
    pub ev: u16,
}

/// Places of the `i`-th lot of the layout.
pub open spec fn width(i: int) -> int {
    spot_end(i) - spot_start(i)
}

/// Charging points of the `i`-th lot of the layout.
pub open spec fn ev_width(i: int) -> int {
    ev_end(i) - ev_start(i)
}

/// Cars counted in the `i`-th lot.
pub open spec fn cars_in(bits: ParkingBits, i: int) -> nat {
    count_spots(bits.spots@, spot_start(i), spot_end(i))
}

/// Charging points in use in the `i`-th lot.
pub open spec fn charging_in(bits: ParkingBits, i: int) -> nat {
    count_ev(bits.ev, ev_start(i), ev_end(i))
}

pub open spec fn min_int(a: int, b: int) -> int {
    if a <= b { a } else { b }
}

pub open spec fn clamp_int(x: int, lo: int, hi: int) -> int {
    if x < lo { lo } else if x > hi { hi } else { x }
}

/// The cars that `bits_from_state` puts in the `i`-th lot for the lots `lots`:
/// those of the first lot with the layout's id, at most as many as there are places.
pub open spec fn seeded_cars(lots: Seq<LotView>, i: int) -> int {
    match find_lot(lots, meta_id(i)) {
        Some(k) => min_int(lots[k].occupied as int, width(i)),
        None => 0,
    }
}

/// The charging points that `bits_from_state` puts in use in the `i`-th lot.
pub open spec fn seeded_charging(lots: Seq<LotView>, i: int) -> int {
    match find_lot(lots, meta_id(i)) {
        Some(k) => min_int(lots[k].ev_occupied as int, ev_width(i)),
        None => 0,
    }
}

proof fn lemma_layout_ranges()
    ensures
        forall|i: int| 0 <= i < 6 ==> 0 <= #[trigger] spot_start(i) <= spot_end(i) <= SPOT_BITS,
        forall|i: int| 0 <= i < 6 ==> 0 <= #[trigger] ev_start(i) <= ev_end(i) <= EV_BITS,
        forall|i: int| 0 <= i < 5 ==> spot_end(i) == #[trigger] spot_start(i + 1),
        forall|i: int| 0 <= i < 5 ==> ev_end(i) == #[trigger] ev_start(i + 1),
        forall|i: int, j: int| 0 <= j < i < 6 ==> #[trigger] spot_end(j) <= #[trigger] spot_start(i),
        forall|i: int, j: int| 0 <= j < i < 6 ==> #[trigger] ev_end(j) <= #[trigger] ev_start(i),
{
}

/// Counts of lots whose bits did not change stay the same.
proof fn lemma_counts_kept(w1: Seq<u32>, w2: Seq<u32>, e1: u16, e2: u16, i: int)
    requires
        0 <= i < 6,
        forall|b: int| spot_start(i) <= b < spot_end(i) ==> spot_on(w1, b) == spot_on(w2, b),
        forall|b: int| ev_start(i) <= b < ev_end(i) ==> ev_on(e1, b) == ev_on(e2, b),
    ensures
        count_spots(w1, spot_start(i), spot_end(i)) == count_spots(w2, spot_start(i), spot_end(i)),
        count_ev(e1, ev_start(i), ev_end(i)) == count_ev(e2, ev_start(i), ev_end(i)),
{
    lemma_count_same(spots_fn(w1), spots_fn(w2), spot_start(i), spot_end(i));
    lemma_count_same(ev_fn(e1), ev_fn(e2), ev_start(i), ev_end(i));
}

/// In a laid-out state the `k`-th lot is the one found by its id.
proof fn lemma_layout_find(s: StateView, k: int)
    requires
        layout_ok(s),
        0 <= k < 6,
    ensures
        find_lot(s.lots, meta_id(k)) == Some(k),
{
    lemma_meta_ids_distinct();
    assert forall|j: int| 0 <= j < k implies s.lots[j].id != meta_id(k) by {
        assert(s.lots[j].id == meta_id(j));
    }
    assert(s.lots[k].id == meta_id(k));
    lemma_find_lot(s.lots, meta_id(k), k);
}

/// What the layout says of the `k`-th lot.
proof fn lemma_layout_at(s: &ParkingSystemState, k: int)
    requires
        layout_ok(s@),
        0 <= k < 6,
    ensures
        s.lots@.len() == 6,
        s.lots@[k].capacity == width(k),
        s.lots@[k].ev_capacity == ev_width(k),
        s@.lots[k] == s.lots@[k]@,
{
    assert(s@.lots[k].id == meta_id(k));
}

proof fn lemma_meta_index(id: Seq<char>, k: int)
    requires
        meta_index(id) == Some(k),
    ensures
        id == meta_id(k),
        0 <= k < 6,
{
}

proof fn lemma_zero_word(s: u32)
    requires
        s < 32,
    ensures
        ((0u32 >> s) & 1u32) == 0u32,
{
    assert(((0u32 >> s) & 1u32) == 0u32) by (bit_vector);
}

proof fn lemma_zero_half(s: u16)
    requires
        s < 16,
    ensures
        ((0u16 >> s) & 1u16) == 0u16,
{
    assert(((0u16 >> s) & 1u16) == 0u16) by (bit_vector);
}

/// Occupancy bitmaps holding the cars and charging points of `state`'s lots.
pub fn bits_from_state(state: &ParkingSystemState) -> (bits: ParkingBits)
    ensures
        forall|i: int| 0 <= i < 6 ==> cars_in(bits, i) == seeded_cars(state@.lots, i),
        forall|i: int| 0 <= i < 6 ==> charging_in(bits, i) == seeded_charging(state@.lots, i),
{
    let mut bits = ParkingBits { spots: [0u32; 57], ev: 0u16 };
    proof {
        lemma_layout_ranges();
        assert forall|b: int| 0 <= b < SPOT_BITS implies !spot_on(bits.spots@, b) by {
            lemma_zero_word((b % 32) as u32);
        }
        assert forall|b: int| 0 <= b < EV_BITS implies !ev_on(bits.ev, b) by {
            lemma_zero_half(b as u16);
        }
    }
    let mut i: usize = 0;
    while i < LOT_COUNT
        invariant
            i <= LOT_COUNT,
            forall|j: int| 0 <= j < i ==> cars_in(bits, j) == seeded_cars(state@.lots, j),
            forall|j: int| 0 <= j < i ==> charging_in(bits, j) == seeded_charging(state@.lots, j),
            i < LOT_COUNT ==> forall|b: int| spot_start(i as int) <= b < SPOT_BITS ==> !spot_on(bits.spots@, b),
            i < LOT_COUNT ==> forall|b: int| ev_start(i as int) <= b < EV_BITS ==> !ev_on(bits.ev, b),
        decreases LOT_COUNT - i,
    {
        proof {
            lemma_layout_ranges();
        }
        let meta = lot_meta(i);
        match find_lot_index(&state.lots, meta.id) {
            Some(k) => {
                let ghost before = bits;
                let width = meta.spot_end - meta.spot_start;
                let occupied = state.lots[k].occupied as usize;
                let fill = if occupied < width { occupied } else { width };
                fill_spots(&mut bits.spots, meta.spot_start, meta.spot_end, fill);
                let ev_width = meta.ev_bit_end - meta.ev_bit_start;
                let ev_occupied = state.lots[k].ev_occupied as usize;
                let ev_fill = if ev_occupied < ev_width { ev_occupied } else { ev_width };
                fill_ev(&mut bits.ev, meta.ev_bit_start, meta.ev_bit_end, ev_fill);
                proof {
                    assert forall|j: int| 0 <= j < i implies cars_in(bits, j) == seeded_cars(state@.lots, j)
                        && charging_in(bits, j) == seeded_charging(state@.lots, j) by {
                        assert(spot_end(j) <= spot_start(i as int));
                        assert(ev_end(j) <= ev_start(i as int));
                        assert(0 <= spot_start(j) <= spot_end(j) <= SPOT_BITS);
                        assert(0 <= ev_start(j) <= ev_end(j) <= EV_BITS);
                        assert(cars_in(before, j) == seeded_cars(state@.lots, j));
                        assert(charging_in(before, j) == seeded_charging(state@.lots, j));
                        lemma_counts_kept(before.spots@, bits.spots@, before.ev, bits.ev, j);
                    }
                    if i + 1 < LOT_COUNT {
                        assert(spot_end(i as int) == spot_start(i + 1));
                        assert(ev_end(i as int) == ev_start(i + 1));
                    }
                }
            },
            None => {
                proof {
                    lemma_count_none(spots_fn(bits.spots@), spot_start(i as int), spot_end(i as int));
                    lemma_count_none(ev_fn(bits.ev), ev_start(i as int), ev_end(i as int));
                }
            },
        }
        i = i + 1;
    }
    bits
}

/// Changing only the bits of the `k`-th lot leaves the other lots' counts.
proof fn lemma_other_lots(before: ParkingBits, after: ParkingBits, k: int)
    requires
        0 <= k < 6,
        forall|b: int| 0 <= b < SPOT_BITS && !(spot_start(k) <= b < spot_end(k)) ==> spot_on(after.spots@, b) == spot_on(before.spots@, b),
        forall|b: int| 0 <= b < EV_BITS && !(ev_start(k) <= b < ev_end(k)) ==> ev_on(after.ev, b) == ev_on(before.ev, b),
    ensures
        forall|i: int| 0 <= i < 6 && i != k ==> #[trigger] cars_in(after, i) == cars_in(before, i),
        forall|i: int| 0 <= i < 6 && i != k ==> #[trigger] charging_in(after, i) == charging_in(before, i),
{
    lemma_layout_ranges();
    assert forall|i: int| #![trigger cars_in(after, i)] #![trigger charging_in(after, i)]
        0 <= i < 6 && i != k implies cars_in(after, i) == cars_in(before, i)
        && charging_in(after, i) == charging_in(before, i) by {
        assert(0 <= spot_start(i) <= spot_end(i) <= SPOT_BITS);
        assert(0 <= ev_start(i) <= ev_end(i) <= EV_BITS);
        if i < k {
            assert(spot_end(i) <= spot_start(k));
            assert(ev_end(i) <= ev_start(k));
        } else {
            assert(spot_end(k) <= spot_start(i));
            assert(ev_end(k) <= ev_start(i));
        }
        lemma_counts_kept(before.spots@, after.spots@, before.ev, after.ev, i);
    }
}

/// Remainder of `x` by `m` with the sign of `x`, as Rust's `%` gives it on integers.
pub open spec fn trunc_rem(x: int, m: int) -> int {
    if x >= 0 { x % m } else { -((-x) % m) }
}

fn trunc_rem_exec(x: i64, m: u64) -> (r: i64)
    requires
        0 < m < 1000,
        x > i64::MIN,
    ensures
        r == trunc_rem(x as int, m as int),
        -(m as int) < r < m,
{
    if x >= 0 {
        ((x as u64) % m) as i64
    } else {
        let y = (-x) as u64;
        -((y % m) as i64)
    }
}

/// Cars in the `i`-th lot after a simulated tick with `seed`: a swing between
/// -3 and +3 derived from the seed, kept between 0 and the lot's places.
pub open spec fn tick_cars(cars: int, seed: i32, i: int) -> int {
    clamp_int(cars + trunc_rem(seed + i * 37, 7) - 3, 0, width(i))
}

/// Charging points in use in the `i`-th lot after a tick: a swing between -1
/// and +1, kept between 0 and the lot's charging points and at most the cars.
pub open spec fn tick_charging(charging: int, seed: i32, i: int, cars_after: int) -> int {
    if ev_end(i) > ev_start(i) {
        min_int(clamp_int(charging + trunc_rem(seed + i * 13, 3) - 1, 0, ev_width(i)), cars_after)
    } else {
        charging
    }
}

/// Share of places, in percent (20 to 79), taken in the `i`-th lot after a shuffle with `seed`.
pub open spec fn shuffle_ratio(seed: u32, i: int) -> int {
    (seed.wrapping_mul(2654435761u32).wrapping_add(i as u32) % 60 + 20) as int
}

/// Cars in the `i`-th lot after a shuffle with `seed`.
pub open spec fn shuffle_cars(seed: u32, i: int) -> int {
    min_int(width(i) * shuffle_ratio(seed, i) / 100, width(i))
}

/// Charging points in use in the `i`-th lot after a shuffle with `seed`.
pub open spec fn shuffle_charging(charging: int, seed: u32, i: int) -> int {
    if ev_end(i) > ev_start(i) {
        min_int(ev_width(i) * ((seed.wrapping_add((i * 73) as u32) % 101) as int) / 100, shuffle_cars(seed, i))
    } else {
        charging
    }
}

/// A lot of `t` with the cars and charging points given.
pub open spec fn with_counts(l: LotView, cars: nat, charging: nat) -> LotView {
    LotView { occupied: cars as u32, ev_occupied: charging as u32, ..l }
}

/// The simulated counter: occupancy bitmaps and the lots they stand for.
pub struct BitwiseFakeAdapter {
    bits: ParkingBits,
    template: ParkingSystemState,
}

impl BitwiseFakeAdapter {
    /// Cars counted in the `i`-th lot.
    pub closed spec fn occupied(&self, i: int) -> nat {
        cars_in(self.bits, i)
    }

    /// Charging points in use in the `i`-th lot.
    pub closed spec fn ev_occupied(&self, i: int) -> nat {
        charging_in(self.bits, i)
    }

    /// The lots whose figures the counter reports.
    pub closed spec fn template(&self) -> StateView {
        self.template@
    }

    /// The counter's lots follow the layout of the bitmaps.
    pub open spec fn wf(&self) -> bool {
        layout_ok(self.template())
    }

    /// The state the counter reports, stamped `ts`: its lots with the counted
    /// cars and charging points.
    pub open spec fn reported(&self, ts: Seq<char>) -> StateView {
        StateView {
            max_total_capacity: self.template().max_total_capacity,
            lots: Seq::new(
                6,
                |i: int| with_counts(self.template().lots[i], self.occupied(i), self.ev_occupied(i)),
            ),
            updated_at: ts,
        }
    }

    /// Counts never exceed the lot's places or charging points.
    pub proof fn lemma_bounds(&self)
        ensures
            forall|i: int| 0 <= i < 6 ==> #[trigger] self.occupied(i) <= width(i),
            forall|i: int| 0 <= i < 6 ==> #[trigger] self.ev_occupied(i) <= ev_width(i),
    {
        lemma_layout_ranges();
        assert forall|i: int| 0 <= i < 6 implies #[trigger] self.occupied(i) <= width(i) by {
            lemma_count_bound(spots_fn(self.bits.spots@), spot_start(i), spot_end(i));
        }
        assert forall|i: int| 0 <= i < 6 implies #[trigger] self.ev_occupied(i) <= ev_width(i) by {
            lemma_count_bound(ev_fn(self.bits.ev), ev_start(i), ev_end(i));
        }
    }

    /// Same lots and the same counts outside the `k`-th lot.
    pub open spec fn same_except(&self, other: &Self, k: int) -> bool {
        &&& self.template() == other.template()
        &&& forall|i: int| 0 <= i < 6 && i != k ==> #[trigger] self.occupied(i) == other.occupied(i)
        &&& forall|i: int| 0 <= i < 6 && i != k ==> #[trigger] self.ev_occupied(i) == other.ev_occupied(i)
    }

    pub fn new(initial_state: ParkingSystemState) -> (a: Self)
        requires
            layout_ok(initial_state@),
        ensures
            a.wf(),
            a.template() == initial_state@,
            forall|i: int| 0 <= i < 6 ==> a.occupied(i) == min_int(initial_state@.lots[i].occupied as int, width(i)),
            forall|i: int| 0 <= i < 6 ==> a.ev_occupied(i) == min_int(initial_state@.lots[i].ev_occupied as int, ev_width(i)),
    {
        let bits = bits_from_state(&initial_state);
        proof {
            assert forall|i: int| 0 <= i < 6 implies find_lot(initial_state@.lots, meta_id(i)) == Some(i) by {
                lemma_layout_find(initial_state@, i);
            }
        }
        BitwiseFakeAdapter { bits, template: initial_state }
    }

    /// The reported state stamped `updated_at`.
    pub fn state_at(&self, updated_at: String) -> (r: ParkingSystemState)
        requires
            self.wf(),
        ensures
            r@ == self.reported(updated_at@),
    {
        proof {
            lemma_layout_ranges();
            self.lemma_bounds();
        }
        let mut lots: Vec<crate::parking::ParkingLot> = Vec::new();
        let mut i: usize = 0;
        while i < LOT_COUNT
            invariant
                self.wf(),
                i <= LOT_COUNT,
                lots@.len() == i,
                forall|j: int| 0 <= j < i ==> #[trigger] lots@[j]@ == with_counts(self.template().lots[j], self.occupied(j), self.ev_occupied(j)),
            decreases LOT_COUNT - i,
        {
            let meta = lot_meta(i);
            let cars = count_range(&self.bits.spots, meta.spot_start, meta.spot_end);
            let charging = count_ev_range(self.bits.ev, meta.ev_bit_start, meta.ev_bit_end);
            lots.push(lot_with_counts(&self.template.lots[i], cars, charging));
            i = i + 1;
        }
        let r = ParkingSystemState {
            max_total_capacity: self.template.max_total_capacity,
            lots,
            updated_at,
        };
        assert(r@.lots =~= self.reported(updated_at@).lots);
        r
    }

    /// The reported state, stamped with the current time.
    pub fn get_state(&self) -> (r: ParkingSystemState)
        requires
            self.wf(),
        ensures
            r@ == self.reported(r@.updated_at),
            exists|secs: i64, nanos: u32| #[trigger] crate::clock::rfc3339_text(secs, nanos) == Some(r@.updated_at),
    {
        self.state_at(now_rfc3339())
    }

    /// The lot found for `id`: the layout position of the id, when the
    /// counter's lots hold a lot of that id.
    fn locate(&self, id: &str) -> (r: Option<usize>)
        requires
            self.wf(),
        ensures
            match r {
                Some(k) => meta_index(id@) == Some(k as int) && k < LOT_COUNT,
                None => meta_index(id@) is None,
            },
    {
        let k = match find_meta(id) {
            Some(k) => k,
            None => return None,
        };
        proof {
            lemma_meta_index(id@, k as int);
            lemma_layout_find(self.template(), k as int);
        }
        match find_lot_index(&self.template.lots, id) {
            Some(li) => Some(li),
            None => None,
        }
    }

    /// Sets the cars and charging points of the lot `zone_id`, each cut to the
    /// lot's size, and reports the new state.
    pub fn set_zone_occupancy(&mut self, zone_id: &str, occupied: u32, ev_occupied: u32) -> (r: Result<ParkingSystemState, ParkingError>)
        requires
            old(self).wf(),
        ensures
            final(self).wf(),
            zone_set_outcome(old(self), final(self), zone_id@, occupied, ev_occupied, r),
    {
        let k = match self.locate(zone_id) {
            Some(k) => k,
            None => return Err(ParkingError::LotNotFound),
        };
        proof {
            lemma_layout_at(&self.template, k as int);
        }
        let meta = lot_meta(k);
        let capacity = self.template.lots[k].capacity;
        let ev_capacity = self.template.lots[k].ev_capacity;
        let occupied_clamped = if occupied < capacity { occupied } else { capacity };
        let ev_occupied_clamped = if ev_occupied < ev_capacity { ev_occupied } else { ev_capacity };
        let ghost before = self.bits;
        proof {
            lemma_layout_ranges();
        }
        fill_spots(&mut self.bits.spots, meta.spot_start, meta.spot_end, occupied_clamped as usize);
        fill_ev(&mut self.bits.ev, meta.ev_bit_start, meta.ev_bit_end, ev_occupied_clamped as usize);
        proof {
            lemma_other_lots(before, self.bits, k as int);
        }
        Ok(self.get_state())
    }

    /// A car enters the lot `lot_id` (using a charging point when `is_electric`).
    /// A full lot, or a lot without a free charging point for an electric car,
    /// turns the car away and changes nothing.
    pub fn vehicle_entry(&mut self, lot_id: &str, is_electric: bool) -> (r: Result<ParkingOperationResult, ParkingError>)
        requires
            old(self).wf(),
        ensures
            final(self).wf(),
            entry_outcome(old(self), final(self), lot_id@, is_electric, r),
    {
        let k = match self.locate(lot_id) {
            Some(k) => k,
            None => return Err(ParkingError::LotNotFound),
        };
        proof {
            lemma_layout_at(&self.template, k as int);
        }
        proof {
            lemma_layout_ranges();
            self.lemma_bounds();
        }
        let meta = lot_meta(k);
        let current_occupied = count_range(&self.bits.spots, meta.spot_start, meta.spot_end);
        if current_occupied >= self.template.lots[k].capacity {
            let message = concat2(self.template.lots[k].name.as_str(), " est complet.");
            return Ok(ParkingOperationResult { accepted: false, message, state: self.get_state() });
        }
        let ghost before = self.bits;
        if is_electric {
            let current_ev = count_ev_range(self.bits.ev, meta.ev_bit_start, meta.ev_bit_end);
            if current_ev >= self.template.lots[k].ev_capacity {
                let message = concat3(
                    "Plus de place de recharge disponible dans ",
                    self.template.lots[k].name.as_str(),
                    ".",
                );
                return Ok(ParkingOperationResult { accepted: false, message, state: self.get_state() });
            }
            proof {
                crate::bitmap::lemma_count_not_full(ev_fn(self.bits.ev), ev_start(k as int), ev_end(k as int));
            }
            let ghost ev_before = self.bits.ev;
            let set = set_first_free_ev_bit(&mut self.bits.ev, meta.ev_bit_start, meta.ev_bit_end);
            proof {
                if !set {
                    assert(false);
                }
                let b = choose|b: int| {
                    &&& ev_start(k as int) <= b < ev_end(k as int)
                    &&& !ev_on(ev_before, b)
                    &&& forall|j: int| ev_start(k as int) <= j < b ==> ev_on(ev_before, j)
                    &&& ev_on(self.bits.ev, b)
                    &&& forall|j: int| 0 <= j < EV_BITS && j != b ==> ev_on(self.bits.ev, j) == ev_on(ev_before, j)
                };
                lemma_count_flip(ev_fn(ev_before), ev_fn(self.bits.ev), ev_start(k as int), ev_end(k as int), b);
            }
        }
        proof {
            crate::bitmap::lemma_count_not_full(spots_fn(self.bits.spots@), spot_start(k as int), spot_end(k as int));
        }
        let ghost spots_before = self.bits.spots@;
        let placed = set_first_free_bit(&mut self.bits.spots, meta.spot_start, meta.spot_end);
        proof {
            match placed {
                Some(b) => {
                    lemma_count_flip(spots_fn(spots_before), spots_fn(self.bits.spots@), spot_start(k as int), spot_end(k as int), b as int);
                },
                None => {
                    assert(false);
                },
            }
            lemma_other_lots(before, self.bits, k as int);
        }
        let message = concat3("Entree enregistree dans ", self.template.lots[k].name.as_str(), ".");
        Ok(ParkingOperationResult { accepted: true, message, state: self.get_state() })
    }
    /// A car leaves the lot `lot_id`, freeing a charging point when
    /// `was_electric` and one is in use. An empty lot changes nothing.
    pub fn vehicle_exit(&mut self, lot_id: &str, was_electric: bool) -> (r: Result<ParkingOperationResult, ParkingError>)
        requires
            old(self).wf(),
        ensures
            final(self).wf(),
            exit_outcome(old(self), final(self), lot_id@, was_electric, r),
    {
        let k = match self.locate(lot_id) {
            Some(k) => k,
            None => return Err(ParkingError::LotNotFound),
        };
        proof {
            lemma_layout_at(&self.template, k as int);
            lemma_layout_ranges();
            self.lemma_bounds();
        }
        let meta = lot_meta(k);
        let current_occupied = count_range(&self.bits.spots, meta.spot_start, meta.spot_end);
        if current_occupied == 0 {
            let message = concat2(self.template.lots[k].name.as_str(), " est deja vide.");
            return Ok(ParkingOperationResult { accepted: false, message, state: self.get_state() });
        }
        let ghost before = self.bits;
        let ghost spots_before = self.bits.spots@;
        let freed = clear_first_occupied_bit(&mut self.bits.spots, meta.spot_start, meta.spot_end);
        proof {
            if !freed {
                lemma_count_none(spots_fn(spots_before), spot_start(k as int), spot_end(k as int));
                assert(false);
            }
            let b = choose|b: int| {
                &&& spot_start(k as int) <= b < spot_end(k as int)
                &&& spot_on(spots_before, b)
                &&& forall|j: int| spot_start(k as int) <= j < b ==> !spot_on(spots_before, j)
                &&& !spot_on(self.bits.spots@, b)
                &&& forall|j: int| 0 <= j < SPOT_BITS && j != b ==> spot_on(self.bits.spots@, j) == spot_on(spots_before, j)
            };
            lemma_count_flip(spots_fn(self.bits.spots@), spots_fn(spots_before), spot_start(k as int), spot_end(k as int), b);
        }
        if was_electric && meta.ev_bit_end > meta.ev_bit_start {
            let current_ev = count_ev_range(self.bits.ev, meta.ev_bit_start, meta.ev_bit_end);
            if current_ev > 0 {
                let ghost ev_before = self.bits.ev;
                let cleared = clear_first_occupied_ev_bit(&mut self.bits.ev, meta.ev_bit_start, meta.ev_bit_end);
                proof {
                    if !cleared {
                        lemma_count_none(ev_fn(ev_before), ev_start(k as int), ev_end(k as int));
                        assert(false);
                    }
                    let b = choose|b: int| {
                        &&& ev_start(k as int) <= b < ev_end(k as int)
                        &&& ev_on(ev_before, b)
                        &&& forall|j: int| ev_start(k as int) <= j < b ==> !ev_on(ev_before, j)
                        &&& !ev_on(self.bits.ev, b)
                        &&& forall|j: int| 0 <= j < EV_BITS && j != b ==> ev_on(self.bits.ev, j) == ev_on(ev_before, j)
                    };
                    lemma_count_flip(ev_fn(self.bits.ev), ev_fn(ev_before), ev_start(k as int), ev_end(k as int), b);
                }
            }
        }
        proof {
            lemma_other_lots(before, self.bits, k as int);
        }
        let message = concat3("Sortie enregistree depuis ", self.template.lots[k].name.as_str(), ".");
        Ok(ParkingOperationResult { accepted: true, message, state: self.get_state() })
    }
    fn tick_lot(&mut self, i: usize, seed: i32)
        requires
            old(self).wf(),
            i < LOT_COUNT,
            seed as int + 185 <= i32::MAX,
        ensures
            final(self).wf(),
            final(self).same_except(old(self), i as int),
            final(self).occupied(i as int) == tick_cars(old(self).occupied(i as int) as int, seed, i as int),
            final(self).ev_occupied(i as int) == tick_charging(
                old(self).ev_occupied(i as int) as int,
                seed,
                i as int,
                tick_cars(old(self).occupied(i as int) as int, seed, i as int),
            ),
    {
        proof {
            lemma_layout_at(&self.template, i as int);
            lemma_layout_ranges();
            self.lemma_bounds();
        }
        let meta = lot_meta(i);
        let capacity = self.template.lots[i].capacity as i64;
        let ev_capacity = self.template.lots[i].ev_capacity as i64;
        let swing = trunc_rem_exec(seed as i64 + i as i64 * 37, 7) - 3;
        let current = count_range(&self.bits.spots, meta.spot_start, meta.spot_end) as i64;
        let moved = current + swing;
        let next: i64 = if moved < 0 { 0 } else if moved > capacity { capacity } else { moved };
        assert(next == tick_cars(old(self).occupied(i as int) as int, seed, i as int));
        let ghost before = self.bits;
        fill_spots(&mut self.bits.spots, meta.spot_start, meta.spot_end, next as usize);
        if meta.ev_bit_end > meta.ev_bit_start {
            let ev_swing = trunc_rem_exec(seed as i64 + i as i64 * 13, 3) - 1;
            let current_ev = count_ev_range(self.bits.ev, meta.ev_bit_start, meta.ev_bit_end) as i64;
            let ev_moved = current_ev + ev_swing;
            let next_ev: i64 = if ev_moved < 0 { 0 } else if ev_moved > ev_capacity { ev_capacity } else { ev_moved };
            let clamped_ev = if next_ev < next { next_ev } else { next };
            fill_ev(&mut self.bits.ev, meta.ev_bit_start, meta.ev_bit_end, clamped_ev as usize);
        }
        proof {
            lemma_other_lots(before, self.bits, i as int);
        }
    }

    /// Lets every lot drift by a small seeded swing and reports the new state.
    pub fn simulate_tick(&mut self, seed: i32) -> (r: ParkingSystemState)
        requires
            old(self).wf(),
            seed as int + 185 <= i32::MAX,
        ensures
            final(self).wf(),
            tick_outcome(old(self), final(self), seed, r),
    {
        let mut i: usize = 0;
        while i < LOT_COUNT
            invariant
                self.wf(),
                self.template() == old(self).template(),
                seed as int + 185 <= i32::MAX,
                i <= LOT_COUNT,
                forall|j: int| 0 <= j < i ==> #[trigger] self.occupied(j) == tick_cars(old(self).occupied(j) as int, seed, j),
                forall|j: int| 0 <= j < i ==> #[trigger] self.ev_occupied(j) == tick_charging(
                    old(self).ev_occupied(j) as int,
                    seed,
                    j,
                    tick_cars(old(self).occupied(j) as int, seed, j),
                ),
                forall|j: int| i <= j < 6 ==> #[trigger] self.occupied(j) == old(self).occupied(j),
                forall|j: int| i <= j < 6 ==> #[trigger] self.ev_occupied(j) == old(self).ev_occupied(j),
            decreases LOT_COUNT - i,
        {
            self.tick_lot(i, seed);
            i = i + 1;
        }
        self.get_state()
    }

    fn shuffle_lot(&mut self, i: usize, seed: u32)
        requires
            old(self).wf(),
            i < LOT_COUNT,
        ensures
            final(self).wf(),
            final(self).same_except(old(self), i as int),
            final(self).occupied(i as int) == shuffle_cars(seed, i as int),
            final(self).ev_occupied(i as int) == shuffle_charging(old(self).ev_occupied(i as int) as int, seed, i as int),
    {
        proof {
            lemma_layout_at(&self.template, i as int);
            lemma_layout_ranges();
        }
        let meta = lot_meta(i);
        let capacity = self.template.lots[i].capacity as usize;
        let random_ratio = (seed.wrapping_mul(2654435761u32).wrapping_add(i as u32) % 60 + 20) as usize;
        assert(capacity * random_ratio <= 600 * 79) by (nonlinear_arith)
            requires
                capacity <= 600,
                random_ratio <= 79;
        let scaled = capacity * random_ratio / 100;
        let target_occupied = if scaled < capacity { scaled } else { capacity };
        assert(target_occupied == shuffle_cars(seed, i as int));
        let ghost before = self.bits;
        fill_spots(&mut self.bits.spots, meta.spot_start, meta.spot_end, target_occupied);
        if meta.ev_bit_end > meta.ev_bit_start {
            let ev_capacity = meta.ev_bit_end - meta.ev_bit_start;
            let ev_random = (seed.wrapping_add(i as u32 * 73) % 101) as usize;
            assert(ev_capacity * ev_random <= 16 * 100) by (nonlinear_arith)
                requires
                    ev_capacity <= 16,
                    ev_random <= 100;
            let ev_scaled = ev_capacity * ev_random / 100;
            let target_ev = if ev_scaled < target_occupied { ev_scaled } else { target_occupied };
            assert(ev_scaled <= ev_capacity) by (nonlinear_arith)
                requires
                    ev_random <= 100,
                    ev_scaled == ev_capacity * ev_random / 100;
            fill_ev(&mut self.bits.ev, meta.ev_bit_start, meta.ev_bit_end, target_ev);
        }
        proof {
            lemma_other_lots(before, self.bits, i as int);
        }
    }

    /// Redraws every lot's cars and charging points from `seed`.
    pub fn shuffle_with_seed(&mut self, seed: u32)
        requires
            old(self).wf(),
        ensures
            final(self).wf(),
            final(self).template() == old(self).template(),
            final(self).is_shuffle_of(old(self), seed),
    {
        let mut i: usize = 0;
        while i < LOT_COUNT
            invariant
                self.wf(),
                self.template() == old(self).template(),
                i <= LOT_COUNT,
                forall|j: int| 0 <= j < i ==> #[trigger] self.occupied(j) == shuffle_cars(seed, j),
                forall|j: int| 0 <= j < i ==> #[trigger] self.ev_occupied(j) == shuffle_charging(old(self).ev_occupied(j) as int, seed, j),
                forall|j: int| i <= j < 6 ==> #[trigger] self.occupied(j) == old(self).occupied(j),
                forall|j: int| i <= j < 6 ==> #[trigger] self.ev_occupied(j) == old(self).ev_occupied(j),
            decreases LOT_COUNT - i,
        {
            self.shuffle_lot(i, seed);
            i = i + 1;
        }
    }

    /// Redraws every lot's cars and charging points from the clock.
    pub fn shuffle_all_bits(&mut self)
        requires
            old(self).wf(),
        ensures
            final(self).wf(),
            final(self).template() == old(self).template(),
            exists|seed: u32| #[trigger] final(self).is_shuffle_of(old(self), seed),
    {
        let seed = now_subsec_millis();
        self.shuffle_with_seed(seed);
    }

    /// The counts are those that a shuffle of `before` with `seed` gives.
    pub open spec fn is_shuffle_of(&self, before: &Self, seed: u32) -> bool {
        &&& forall|i: int| 0 <= i < 6 ==> #[trigger] self.occupied(i) == shuffle_cars(seed, i)
        &&& forall|i: int| 0 <= i < 6 ==> #[trigger] self.ev_occupied(i) == shuffle_charging(before.ev_occupied(i) as int, seed, i)
    }
}

/// What `set_zone_occupancy` does: an unknown id changes nothing and is refused;
/// otherwise the lot gets the cars and charging points asked for, each cut to
/// the lot's size, the other lots keep theirs, and the new state is reported.
pub open spec fn zone_set_outcome(
    before: &BitwiseFakeAdapter,
    after: &BitwiseFakeAdapter,
    zone_id: Seq<char>,
    occupied: u32,
    ev_occupied: u32,
    r: Result<ParkingSystemState, ParkingError>,
) -> bool {
    match meta_index(zone_id) {
        None => r matches Err(ParkingError::LotNotFound) && after.same_except(before, -1),
        Some(k) => {
            &&& after.same_except(before, k)
            &&& after.occupied(k) == min_int(occupied as int, width(k))
            &&& after.ev_occupied(k) == min_int(ev_occupied as int, ev_width(k))
            &&& r matches Ok(s) && s@ == after.reported(s@.updated_at)
        },
    }
}

/// What `vehicle_entry` does: an unknown id changes nothing and is refused; a
/// full lot, or a lot without a free charging point for an electric car,
/// turns the car away; otherwise the lot counts one more car (and one more
/// charging point in use for an electric car).
pub open spec fn entry_outcome(
    before: &BitwiseFakeAdapter,
    after: &BitwiseFakeAdapter,
    lot_id: Seq<char>,
    is_electric: bool,
    r: Result<ParkingOperationResult, ParkingError>,
) -> bool {
    match meta_index(lot_id) {
        None => r matches Err(ParkingError::LotNotFound) && after.same_except(before, -1),
        Some(k) => r matches Ok(res) && {
            let name = before.template().lots[k].name;
            let cars = before.occupied(k);
            let charging = before.ev_occupied(k);
            &&& res.state@ == after.reported(res.state@.updated_at)
            &&& if cars >= width(k) {
                &&& !res.accepted
                &&& res.message@ == name + " est complet."@
                &&& after.same_except(before, -1)
            } else if is_electric && charging >= ev_width(k) {
                &&& !res.accepted
                &&& res.message@ == "Plus de place de recharge disponible dans "@ + name + "."@
                &&& after.same_except(before, -1)
            } else {
                &&& res.accepted
                &&& res.message@ == "Entree enregistree dans "@ + name + "."@
                &&& after.same_except(before, k)
                &&& after.occupied(k) == cars + 1
                &&& after.ev_occupied(k) == charging + if is_electric { 1nat } else { 0nat }
            }
        },
    }
}

/// What `vehicle_exit` does: an unknown id changes nothing and is refused; an
/// empty lot changes nothing; otherwise the lot counts one car less, and one
/// charging point less when the car was electric and one was in use.
pub open spec fn exit_outcome(
    before: &BitwiseFakeAdapter,
    after: &BitwiseFakeAdapter,
    lot_id: Seq<char>,
    was_electric: bool,
    r: Result<ParkingOperationResult, ParkingError>,
) -> bool {
    match meta_index(lot_id) {
        None => r matches Err(ParkingError::LotNotFound) && after.same_except(before, -1),
        Some(k) => r matches Ok(res) && {
            let name = before.template().lots[k].name;
            let cars = before.occupied(k);
            let charging = before.ev_occupied(k);
            &&& res.state@ == after.reported(res.state@.updated_at)
            &&& if cars == 0 {
                &&& !res.accepted
                &&& res.message@ == name + " est deja vide."@
                &&& after.same_except(before, -1)
            } else {
                &&& res.accepted
                &&& res.message@ == "Sortie enregistree depuis "@ + name + "."@
                &&& after.same_except(before, k)
                &&& after.occupied(k) == cars - 1
                &&& after.ev_occupied(k) == if was_electric && charging > 0 { (charging - 1) as nat } else { charging }
            }
        },
    }
}

/// What `simulate_tick` does: every lot drifts by its seeded swing and the new
/// state is reported.
pub open spec fn tick_outcome(
    before: &BitwiseFakeAdapter,
    after: &BitwiseFakeAdapter,
    seed: i32,
    r: ParkingSystemState,
) -> bool {
    &&& after.template() == before.template()
    &&& forall|i: int| 0 <= i < 6 ==> #[trigger] after.occupied(i) == tick_cars(before.occupied(i) as int, seed, i)
    &&& forall|i: int| 0 <= i < 6 ==> #[trigger] after.ev_occupied(i) == tick_charging(
        before.ev_occupied(i) as int,
        seed,
        i,
        tick_cars(before.occupied(i) as int, seed, i),
    )
    &&& r@ == after.reported(r@.updated_at)
}

/// The counter behind a parking operator's API key; it forwards to the
/// simulated counter.
pub struct RealParkingApiAdapter {
    pub api_key: String,
    pub inner: BitwiseFakeAdapter,
}

impl RealParkingApiAdapter {
    pub fn get_state(&self) -> (r: ParkingSystemState)
        requires
            self.inner.wf(),
        ensures
            r@ == self.inner.reported(r@.updated_at),
    {
        self.inner.get_state()
    }

    pub fn set_zone_occupancy(&mut self, zone_id: &str, occupied: u32, ev_occupied: u32) -> (r: Result<ParkingSystemState, ParkingError>)
        requires
            old(self).inner.wf(),
        ensures
            final(self).inner.wf(),
            final(self).api_key == old(self).api_key,
            zone_set_outcome(&old(self).inner, &final(self).inner, zone_id@, occupied, ev_occupied, r),
    {
        self.inner.set_zone_occupancy(zone_id, occupied, ev_occupied)
    }

    pub fn vehicle_entry(&mut self, lot_id: &str, is_electric: bool) -> (r: Result<ParkingOperationResult, ParkingError>)
        requires
            old(self).inner.wf(),
        ensures
            final(self).inner.wf(),
            final(self).api_key == old(self).api_key,
            entry_outcome(&old(self).inner, &final(self).inner, lot_id@, is_electric, r),
    {
        self.inner.vehicle_entry(lot_id, is_electric)
    }

    pub fn vehicle_exit(&mut self, lot_id: &str, was_electric: bool) -> (r: Result<ParkingOperationResult, ParkingError>)
        requires
            old(self).inner.wf(),
        ensures
            final(self).inner.wf(),
            final(self).api_key == old(self).api_key,
            exit_outcome(&old(self).inner, &final(self).inner, lot_id@, was_electric, r),
    {
        self.inner.vehicle_exit(lot_id, was_electric)
    }

    pub fn simulate_tick(&mut self, seed: i32) -> (r: ParkingSystemState)
        requires
            old(self).inner.wf(),
            seed as int + 185 <= i32::MAX,
        ensures
            final(self).inner.wf(),
            final(self).api_key == old(self).api_key,
            tick_outcome(&old(self).inner, &final(self).inner, seed, r),
    {
        self.inner.simulate_tick(seed)
    }

    pub fn shuffle_all_bits(&mut self)
        requires
            old(self).inner.wf(),
        ensures
            final(self).inner.wf(),
            final(self).api_key == old(self).api_key,
            final(self).inner.template() == old(self).inner.template(),
            exists|seed: u32| #[trigger] final(self).inner.is_shuffle_of(&old(self).inner, seed),
    {
        self.inner.shuffle_all_bits();
    }
}

/// The counter in use: the simulated one, or the one behind an API key.
pub enum ParkingAdapter {
    Fake(BitwiseFakeAdapter),
    Real(RealParkingApiAdapter),
}

impl ParkingAdapter {
    /// The simulated counter that answers the requests.
    pub open spec fn counter(&self) -> BitwiseFakeAdapter {
        match self {
            ParkingAdapter::Fake(a) => *a,
            ParkingAdapter::Real(a) => a.inner,
        }
    }

    /// The adapter keeps its kind.
    pub open spec fn same_kind(&self, other: &Self) -> bool {
        match (self, other) {
            (ParkingAdapter::Fake(_), ParkingAdapter::Fake(_)) => true,
            (ParkingAdapter::Real(a), ParkingAdapter::Real(b)) => a.api_key == b.api_key,
            _ => false,
        }
    }

    pub fn get_state(&self) -> (r: ParkingSystemState)
        requires
            self.counter().wf(),
        ensures
            r@ == self.counter().reported(r@.updated_at),
    {
        match self {
            ParkingAdapter::Fake(a) => a.get_state(),
            ParkingAdapter::Real(a) => a.get_state(),
        }
    }

    pub fn set_zone_occupancy(&mut self, zone_id: &str, occupied: u32, ev_occupied: u32) -> (r: Result<ParkingSystemState, ParkingError>)
        requires
            old(self).counter().wf(),
        ensures
            final(self).counter().wf(),
            final(self).same_kind(old(self)),
            zone_set_outcome(&old(self).counter(), &final(self).counter(), zone_id@, occupied, ev_occupied, r),
    {
        match self {
            ParkingAdapter::Fake(a) => a.set_zone_occupancy(zone_id, occupied, ev_occupied),
            ParkingAdapter::Real(a) => a.set_zone_occupancy(zone_id, occupied, ev_occupied),
        }
    }

    pub fn vehicle_entry(&mut self, lot_id: &str, is_electric: bool) -> (r: Result<ParkingOperationResult, ParkingError>)
        requires
            old(self).counter().wf(),
        ensures
            final(self).counter().wf(),
            final(self).same_kind(old(self)),
            entry_outcome(&old(self).counter(), &final(self).counter(), lot_id@, is_electric, r),
    {
        match self {
            ParkingAdapter::Fake(a) => a.vehicle_entry(lot_id, is_electric),
            ParkingAdapter::Real(a) => a.vehicle_entry(lot_id, is_electric),
        }
    }

    pub fn vehicle_exit(&mut self, lot_id: &str, was_electric: bool) -> (r: Result<ParkingOperationResult, ParkingError>)
        requires
            old(self).counter().wf(),
        ensures
            final(self).counter().wf(),
            final(self).same_kind(old(self)),
            exit_outcome(&old(self).counter(), &final(self).counter(), lot_id@, was_electric, r),
    {
        match self {
            ParkingAdapter::Fake(a) => a.vehicle_exit(lot_id, was_electric),
            ParkingAdapter::Real(a) => a.vehicle_exit(lot_id, was_electric),
        }
    }

    pub fn simulate_tick(&mut self, seed: i32) -> (r: ParkingSystemState)
        requires
            old(self).counter().wf(),
            seed as int + 185 <= i32::MAX,
        ensures
            final(self).counter().wf(),
            final(self).same_kind(old(self)),
            tick_outcome(&old(self).counter(), &final(self).counter(), seed, r),
    {
        match self {
            ParkingAdapter::Fake(a) => a.simulate_tick(seed),
            ParkingAdapter::Real(a) => a.simulate_tick(seed),
        }
    }

    pub fn shuffle_all_bits(&mut self)
        requires
            old(self).counter().wf(),
        ensures
            final(self).counter().wf(),
            final(self).same_kind(old(self)),
            final(self).counter().template() == old(self).counter().template(),
            exists|seed: u32| #[trigger] final(self).counter().is_shuffle_of(&old(self).counter(), seed),
    {
        match self {
            ParkingAdapter::Fake(a) => a.shuffle_all_bits(),
            ParkingAdapter::Real(a) => a.shuffle_all_bits(),
        }
    }
}

proof fn lemma_lots_failure_none(lots: Seq<LotView>)
    ensures
        lots_failure(lots) is None <==> forall|i: int| 0 <= i < lots.len() ==> #[trigger] lot_failure(lots[i]) is None,
    decreases lots.len(),
{
    if lots.len() > 0 {
        lemma_lots_failure_none(lots.drop_first());
        if lot_failure(lots[0]) is None && lots_failure(lots.drop_first()) is None {
            assert forall|i: int| 0 <= i < lots.len() implies #[trigger] lot_failure(lots[i]) is None by {
                if i > 0 {
                    assert(lots[i] == lots.drop_first()[i - 1]);
                }
            }
        }
        if forall|i: int| 0 <= i < lots.len() ==> #[trigger] lot_failure(lots[i]) is None {
            assert(lot_failure(lots[0]) is None);
            assert forall|i: int| 0 <= i < lots.len() - 1 implies #[trigger] lot_failure(lots.drop_first()[i]) is None by {
                assert(lots.drop_first()[i] == lots[i + 1]);
            }
        }
    }
}

/// Two lists of lots that differ only in their cars and charging points.
pub open spec fn same_but_counts(a: Seq<LotView>, b: Seq<LotView>) -> bool {
    &&& a.len() == b.len()
    &&& forall|i: int| 0 <= i < a.len() ==> #[trigger] b[i] == with_counts(a[i], b[i].occupied as nat, b[i].ev_occupied as nat)
}

proof fn lemma_sums_same(a: Seq<LotView>, b: Seq<LotView>)
    requires
        same_but_counts(a, b),
    ensures
        sum_capacity(a) == sum_capacity(b),
        max_capacity(a) == max_capacity(b),
    decreases a.len(),
{
    if a.len() > 0 {
        assert(b.last() == with_counts(a.last(), b.last().occupied as nat, b.last().ev_occupied as nat));
        assert forall|i: int| 0 <= i < a.drop_last().len() implies #[trigger] b.drop_last()[i] == with_counts(
            a.drop_last()[i],
            b.drop_last()[i].occupied as nat,
            b.drop_last()[i].ev_occupied as nat,
        ) by {
            assert(b.drop_last()[i] == b[i]);
            assert(a.drop_last()[i] == a[i]);
        }
        lemma_sums_same(a.drop_last(), b.drop_last());
    }
}

proof fn lemma_find_same(a: Seq<LotView>, b: Seq<LotView>, id: Seq<char>)
    requires
        same_but_counts(a, b),
    ensures
        find_lot(a, id) == find_lot(b, id),
    decreases a.len(),
{
    if a.len() > 0 {
        assert(b[0] == with_counts(a[0], b[0].occupied as nat, b[0].ev_occupied as nat));
        assert forall|i: int| 0 <= i < a.drop_first().len() implies #[trigger] b.drop_first()[i] == with_counts(
            a.drop_first()[i],
            b.drop_first()[i].occupied as nat,
            b.drop_first()[i].ev_occupied as nat,
        ) by {
            assert(b.drop_first()[i] == b[i + 1]);
            assert(a.drop_first()[i] == a[i + 1]);
        }
        lemma_find_same(a.drop_first(), b.drop_first(), id);
    }
}

proof fn lemma_expected_same(a: Seq<LotView>, b: Seq<LotView>, i: int)
    requires
        same_but_counts(a, b),
    ensures
        expected_failure(a, i) == expected_failure(b, i),
    decreases 6 - i,
{
    if 0 <= i < 6 {
        lemma_find_same(a, b, meta_id(i));
        match find_lot(a, meta_id(i)) {
            Some(k) => {
                lemma_find_lot_bounds(a, meta_id(i));
                assert(b[k] == with_counts(a[k], b[k].occupied as nat, b[k].ev_occupied as nat));
            },
            None => {},
        }
        lemma_expected_same(a, b, i + 1);
    }
}

proof fn lemma_find_lot_bounds(lots: Seq<LotView>, id: Seq<char>)
    ensures
        find_lot(lots, id) matches Some(k) ==> 0 <= k < lots.len() && lots[k].id == id,
    decreases lots.len(),
{
    if lots.len() > 0 {
        lemma_find_lot_bounds(lots.drop_first(), id);
    }
}

proof fn lemma_occupied_below_capacity(lots: Seq<LotView>)
    requires
        forall|i: int| 0 <= i < lots.len() ==> #[trigger] lots[i].occupied <= lots[i].capacity,
    ensures
        sum_occupied(lots) <= sum_capacity(lots),
    decreases lots.len(),
{
    if lots.len() > 0 {
        assert forall|i: int| 0 <= i < lots.drop_last().len() implies #[trigger] lots.drop_last()[i].occupied
            <= lots.drop_last()[i].capacity by {
            assert(lots.drop_last()[i] == lots[i]);
        }
        lemma_occupied_below_capacity(lots.drop_last());
    }
}

/// Every state the simulated counter reports passes `validate_state`, when the
/// lots it was built on do: counting cars never breaks a rule of the configuration.
pub proof fn law_reported_state_valid(a: &BitwiseFakeAdapter, ts: Seq<char>)
    requires
        a.wf(),
        state_failure(a.template()) is None,
    ensures
        state_failure(a.reported(ts)) is None,
{
    let t = a.template();
    let r = a.reported(ts);
    a.lemma_bounds();
    assert forall|i: int| 0 <= i < t.lots.len() implies #[trigger] r.lots[i] == with_counts(
        t.lots[i],
        r.lots[i].occupied as nat,
        r.lots[i].ev_occupied as nat,
    ) by {
        assert(t.lots[i].id == meta_id(i));
    }
    assert(same_but_counts(t.lots, r.lots));
    lemma_sums_same(t.lots, r.lots);
    lemma_expected_same(t.lots, r.lots, 0);
    assert forall|i: int| 0 <= i < r.lots.len() implies #[trigger] r.lots[i].occupied <= r.lots[i].capacity by {
        assert(t.lots[i].id == meta_id(i));
        assert(a.occupied(i) <= width(i));
    }
    lemma_occupied_below_capacity(r.lots);
    lemma_lots_failure_none(t.lots);
    lemma_lots_failure_none(r.lots);
    assert forall|i: int| 0 <= i < r.lots.len() implies #[trigger] lot_failure(r.lots[i]) is None by {
        assert(t.lots[i].id == meta_id(i));
        assert(a.occupied(i) <= width(i));
        assert(a.ev_occupied(i) <= ev_width(i));
        assert(lot_failure(t.lots[i]) is None);
    }
}

/// The start-up configuration follows the bitmaps' layout and passes `validate_state`.
pub proof fn law_default_state_valid(ts: Seq<char>)
    ensures
        layout_ok(StateView { max_total_capacity: MAX_TOTAL_PARKING_CAPACITY, lots: default_lots(), updated_at: ts }),
        state_failure(StateView { max_total_capacity: MAX_TOTAL_PARKING_CAPACITY, lots: default_lots(), updated_at: ts }) is None,
{
    let s = StateView { max_total_capacity: MAX_TOTAL_PARKING_CAPACITY, lots: default_lots(), updated_at: ts };
    let lots = default_lots();
    assert(layout_ok(s));
    reveal_with_fuel(sum_capacity, 7);
    reveal_with_fuel(sum_occupied, 7);
    reveal_with_fuel(max_capacity, 7);
    assert(lots.drop_last().drop_last().drop_last().drop_last().drop_last().drop_last().len() == 0);
    assert(sum_capacity(lots) == 1800);
    assert(max_capacity(lots) == 600);
    assert(sum_occupied(lots) <= 1800);
    assert forall|i: int| 0 <= i < 6 implies #[trigger] find_lot(lots, meta_id(i)) == Some(i) by {
        lemma_layout_find(s, i);
    }
    reveal_with_fuel(expected_failure, 7);
    assert(expected_failure(lots, 0) is None);
    lemma_lots_failure_none(lots);
    assert forall|i: int| 0 <= i < lots.len() implies #[trigger] lot_failure(lots[i]) is None by {
        assert(lots[i].kind == "indoor"@ || lots[i].kind == "outdoor"@);
    }
}

/// A car that enters a lot and then leaves it (both electric or both not)
/// leaves every count as it was.
pub proof fn law_entry_exit_restores(
    a0: &BitwiseFakeAdapter,
    a1: &BitwiseFakeAdapter,
    a2: &BitwiseFakeAdapter,
    lot_id: Seq<char>,
    electric: bool,
    r1: Result<ParkingOperationResult, ParkingError>,
    r2: Result<ParkingOperationResult, ParkingError>,
)
    requires
        a0.wf(),
        entry_outcome(a0, a1, lot_id, electric, r1),
        r1 matches Ok(res) && res.accepted,
        exit_outcome(a1, a2, lot_id, electric, r2),
    ensures
        forall|i: int| 0 <= i < 6 ==> #[trigger] a2.occupied(i) == a0.occupied(i),
        forall|i: int| 0 <= i < 6 ==> #[trigger] a2.ev_occupied(i) == a0.ev_occupied(i),
        a2.template() == a0.template(),
{
}

/// The counter to use with the operator key `api_key`: the simulated one when
/// the key is empty or "fake", the key's counter otherwise; both start from
/// `initial_state`.
pub fn adapter_for_key(api_key: String, initial_state: ParkingSystemState) -> (a: ParkingAdapter)
    requires
        layout_ok(initial_state@),
    ensures
        a.counter().wf(),
        a.counter().template() == initial_state@,
        forall|i: int| 0 <= i < 6 ==> #[trigger] a.counter().occupied(i) == min_int(initial_state@.lots[i].occupied as int, width(i)),
        forall|i: int| 0 <= i < 6 ==> #[trigger] a.counter().ev_occupied(i) == min_int(initial_state@.lots[i].ev_occupied as int, ev_width(i)),
        (api_key@.len() == 0 || api_key@ == "fake"@) <==> a is Fake,
        a matches ParkingAdapter::Real(r) ==> r.api_key@ == api_key@,
{
    let fake = api_key.as_str().is_empty() || str_eq(api_key.as_str(), "fake");
    let inner = BitwiseFakeAdapter::new(initial_state);
    if fake {
        ParkingAdapter::Fake(inner)
    } else {
        ParkingAdapter::Real(RealParkingApiAdapter { api_key, inner })
    }
}

} // verus!
