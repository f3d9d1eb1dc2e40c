//! Occupancy bitmaps: one bit per parking space, set while a car stands there.

use vstd::prelude::*;

verus! {

/// Number of words in the space bitmap (57 x 32 = 1824 bits, enough for 1800 spaces).
pub const SPOT_WORDS: usize = 57;

/// Number of bits in the space bitmap.
pub const SPOT_BITS: usize = 1824;

/// Number of bits in the charging-point bitmap.
pub const EV_BITS: usize = 16;

/// How many `i` in `a..e` satisfy `f`.
pub open spec fn count_true(f: spec_fn(int) -> bool, a: int, e: int) -> nat
    decreases e - a,
{
    if e <= a {
        0
    } else {
        count_true(f, a, e - 1) + if f(e - 1) { 1nat } else { 0nat }
    }
}

pub proof fn lemma_count_bound(f: spec_fn(int) -> bool, a: int, e: int)
    requires
        a <= e,
    ensures
        count_true(f, a, e) <= e - a,
    decreases e - a,
{
    if e > a {
        lemma_count_bound(f, a, e - 1);
    }
}

pub proof fn lemma_count_same(f: spec_fn(int) -> bool, g: spec_fn(int) -> bool, a: int, e: int)
    requires
        forall|i: int| a <= i < e ==> #[trigger] f(i) == g(i),
    ensures
        count_true(f, a, e) == count_true(g, a, e),
    decreases e - a,
{
    if e > a {
        lemma_count_same(f, g, a, e - 1);
    }
}

/// Setting one more position in range raises the count by one.
pub proof fn lemma_count_flip(f: spec_fn(int) -> bool, g: spec_fn(int) -> bool, a: int, e: int, k: int)
    requires
        a <= k < e,
        !f(k),
        g(k),
        forall|i: int| a <= i < e && i != k ==> #[trigger] f(i) == g(i),
    ensures
        count_true(g, a, e) == count_true(f, a, e) + 1,
    decreases e - a,
{
    if e - 1 == k {
        lemma_count_same(f, g, a, e - 1);
    } else {
        lemma_count_flip(f, g, a, e - 1, k);
    }
}

/// A range whose first `n` positions hold and whose others do not counts `n`.
pub proof fn lemma_count_prefix(f: spec_fn(int) -> bool, a: int, e: int, n: int)
    requires
        0 <= n <= e - a,
        forall|i: int| a <= i < e ==> #[trigger] f(i) == (i < a + n),
    ensures
        count_true(f, a, e) == n,
    decreases e - a,
{
    if e > a {
        if e - 1 < a + n {
            lemma_count_prefix(f, a, e - 1, n - 1);
        } else {
            lemma_count_prefix(f, a, e - 1, n);
        }
    }
}

/// A range where every position holds counts its length.
pub proof fn lemma_count_full(f: spec_fn(int) -> bool, a: int, e: int)
    requires
        a <= e,
        forall|i: int| a <= i < e ==> #[trigger] f(i),
    ensures
        count_true(f, a, e) == e - a,
    decreases e - a,
{
    if e > a {
        lemma_count_full(f, a, e - 1);
    }
}

/// A range where no position holds counts zero.
pub proof fn lemma_count_none(f: spec_fn(int) -> bool, a: int, e: int)
    requires
        forall|i: int| a <= i < e ==> !#[trigger] f(i),
    ensures
        count_true(f, a, e) == 0,
    decreases e - a,
{
    if e > a {
        lemma_count_none(f, a, e - 1);
    }
}

/// A count of zero means that no position in range holds.
pub proof fn lemma_count_zero(f: spec_fn(int) -> bool, a: int, e: int)
    requires
        count_true(f, a, e) == 0,
    ensures
        forall|i: int| a <= i < e ==> !#[trigger] f(i),
    decreases e - a,
{
    if e > a {
        lemma_count_zero(f, a, e - 1);
    }
}

/// A count below the range's length means that some position in range does not hold.
pub proof fn lemma_count_not_full(f: spec_fn(int) -> bool, a: int, e: int)
    requires
        a <= e,
        count_true(f, a, e) < e - a,
    ensures
        exists|i: int| a <= i < e && !#[trigger] f(i),
{
    if forall|i: int| a <= i < e ==> #[trigger] f(i) {
        lemma_count_full(f, a, e);
    }
}

/// Bit `b` of the space bitmap `w`.
pub open spec fn spot_on(w: Seq<u32>, b: int) -> bool {
    ((w[b / 32] >> ((b % 32) as u32)) & 1u32) == 1u32
}

/// Bit `b` of the charging-point bitmap `ev`.
pub open spec fn ev_on(ev: u16, b: int) -> bool {
    ((ev >> (b as u16)) & 1u16) == 1u16
}

pub open spec fn spots_fn(w: Seq<u32>) -> spec_fn(int) -> bool {
    |b: int| spot_on(w, b)
}

pub open spec fn ev_fn(ev: u16) -> spec_fn(int) -> bool {
    |b: int| ev_on(ev, b)
}

/// Occupied spaces among bits `a..e` of `w`.
pub open spec fn count_spots(w: Seq<u32>, a: int, e: int) -> nat {
    count_true(spots_fn(w), a, e)
}

/// Occupied charging points among bits `a..e` of `ev`.
pub open spec fn count_ev(ev: u16, a: int, e: int) -> nat {
    count_true(ev_fn(ev), a, e)
}

pub proof fn lemma_bit_u32(w: u32, s: u32)
    requires
        s < 32,
    ensures
        ((w >> s) & 1u32) == 0u32 || ((w >> s) & 1u32) == 1u32,
        (((w | (1u32 << s)) >> s) & 1u32) == 1u32,
        (((w & !(1u32 << s)) >> s) & 1u32) == 0u32,
        forall|t: u32| t < 32 && t != s ==> #[trigger] (((w | (1u32 << s)) >> t) & 1u32) == ((w >> t) & 1u32),
        forall|t: u32| t < 32 && t != s ==> #[trigger] (((w & !(1u32 << s)) >> t) & 1u32) == ((w >> t) & 1u32),
{
    assert(((w >> s) & 1u32) == 0u32 || ((w >> s) & 1u32) == 1u32) by (bit_vector);
    assert((((w | (1u32 << s)) >> s) & 1u32) == 1u32) by (bit_vector)
        requires s < 32;
    assert((((w & !(1u32 << s)) >> s) & 1u32) == 0u32) by (bit_vector)
        requires s < 32;
    assert forall|t: u32| t < 32 && t != s implies #[trigger] (((w | (1u32 << s)) >> t) & 1u32) == ((w >> t) & 1u32) by {
        assert((((w | (1u32 << s)) >> t) & 1u32) == ((w >> t) & 1u32)) by (bit_vector)
            requires s < 32, t < 32, t != s;
    }
    assert forall|t: u32| t < 32 && t != s implies #[trigger] (((w & !(1u32 << s)) >> t) & 1u32) == ((w >> t) & 1u32) by {
        assert((((w & !(1u32 << s)) >> t) & 1u32) == ((w >> t) & 1u32)) by (bit_vector)
            requires s < 32, t < 32, t != s;
    }
}

pub proof fn lemma_bit_u16(w: u16, s: u16)
    requires
        s < 16,
    ensures
        ((w >> s) & 1u16) == 0u16 || ((w >> s) & 1u16) == 1u16,
        (((w | (1u16 << s)) >> s) & 1u16) == 1u16,
        (((w & !(1u16 << s)) >> s) & 1u16) == 0u16,
        forall|t: u16| t < 16 && t != s ==> #[trigger] (((w | (1u16 << s)) >> t) & 1u16) == ((w >> t) & 1u16),
        forall|t: u16| t < 16 && t != s ==> #[trigger] (((w & !(1u16 << s)) >> t) & 1u16) == ((w >> t) & 1u16),
{
    assert(((w >> s) & 1u16) == 0u16 || ((w >> s) & 1u16) == 1u16) by (bit_vector);
    assert((((w | (1u16 << s)) >> s) & 1u16) == 1u16) by (bit_vector)
        requires s < 16;
    assert((((w & !(1u16 << s)) >> s) & 1u16) == 0u16) by (bit_vector)
        requires s < 16;
    assert forall|t: u16| t < 16 && t != s implies #[trigger] (((w | (1u16 << s)) >> t) & 1u16) == ((w >> t) & 1u16) by {
        assert((((w | (1u16 << s)) >> t) & 1u16) == ((w >> t) & 1u16)) by (bit_vector)
            requires s < 16, t < 16, t != s;
    }
    assert forall|t: u16| t < 16 && t != s implies #[trigger] (((w & !(1u16 << s)) >> t) & 1u16) == ((w >> t) & 1u16) by {
        assert((((w & !(1u16 << s)) >> t) & 1u16) == ((w >> t) & 1u16)) by (bit_vector)
            requires s < 16, t < 16, t != s;
    }
}

/// Sets (`on`) or clears bit `b` of the space bitmap; every other bit stays.
pub fn write_spot(spots: &mut [u32; 57], b: usize, on: bool)
    requires
        b < SPOT_BITS,
    ensures
        spot_on(final(spots)@, b as int) == on,
        forall|j: int| 0 <= j < SPOT_BITS && j != b ==> spot_on(final(spots)@, j) == spot_on(old(spots)@, j),
{
    let word = b / 32;
    let shift = (b % 32) as u32;
    let w = spots[word];
    proof {
        lemma_bit_u32(w, shift);
    }
    if on {
        spots[word] = w | (1u32 << shift);
    } else {
        spots[word] = w & !(1u32 << shift);
    }
    proof {
        assert forall|j: int| 0 <= j < SPOT_BITS && j != b implies spot_on(spots@, j) == spot_on(old(spots)@, j) by {
            if j / 32 == word as int {
                let t = (j % 32) as u32;
                assert(t != shift);
                assert(((spots@[word as int] >> t) & 1u32) == ((w >> t) & 1u32));
            }
        }
    }
}

/// Sets (`on`) or clears bit `i` of the charging-point bitmap; every other bit stays.
pub fn write_ev(ev: &mut u16, i: usize, on: bool)
    requires
        i < EV_BITS,
    ensures
        ev_on(*final(ev), i as int) == on,
        forall|j: int| 0 <= j < EV_BITS && j != i ==> ev_on(*final(ev), j) == ev_on(*old(ev), j),
{
    let s = i as u16;
    let w = *ev;
    proof {
        lemma_bit_u16(w, s);
    }
    if on {
        *ev = w | (1u16 << s);
    } else {
        *ev = w & !(1u16 << s);
    }
    proof {
        assert forall|j: int| 0 <= j < EV_BITS && j != i implies ev_on(*ev, j) == ev_on(w, j) by {
            let t = j as u16;
            assert(t != s);
        }
    }
}

pub fn spot_is_on(spots: &[u32; 57], b: usize) -> (r: bool)
    requires
        b < SPOT_BITS,
    ensures
        r == spot_on(spots@, b as int),
{
    let shift = (b % 32) as u32;
    proof {
        lemma_bit_u32(spots@[(b / 32) as int], shift);
    }
    (spots[b / 32] >> shift) & 1 == 1
}

pub fn ev_is_on(ev: u16, i: usize) -> (r: bool)
    requires
        i < EV_BITS,
    ensures
        r == ev_on(ev, i as int),
{
    proof {
        lemma_bit_u16(ev, i as u16);
    }
    (ev >> (i as u16)) & 1 == 1
}

/// Number of occupied spaces among bits `start..end`.
pub fn count_range(spots: &[u32; 57], start: usize, end: usize) -> (count: u32)
    requires
        start <= end <= SPOT_BITS,
    ensures
        count == count_spots(spots@, start as int, end as int),
{
    let mut count: u32 = 0;
    let mut bit = start;
    while bit < end
        invariant
            start <= bit <= end <= SPOT_BITS,
            count == count_spots(spots@, start as int, bit as int),
        decreases end - bit,
    {
        proof {
            lemma_count_bound(spots_fn(spots@), start as int, bit as int);
        }
        if spot_is_on(spots, bit) {
            count = count + 1;
        }
        bit = bit + 1;
    }
    count
}

/// Marks the first free space in `start..end` as taken and returns its bit.
pub fn set_first_free_bit(spots: &mut [u32; 57], start: usize, end: usize) -> (r: Option<usize>)
    requires
        start <= end <= SPOT_BITS,
    ensures
        match r {
            Some(b) => {
                &&& start <= b < end
                &&& !spot_on(old(spots)@, b as int)
                &&& forall|j: int| start <= j < b ==> spot_on(old(spots)@, j)
                &&& spot_on(final(spots)@, b as int)
                &&& forall|j: int| 0 <= j < SPOT_BITS && j != b ==> spot_on(final(spots)@, j) == spot_on(old(spots)@, j)
            },
            None => {
                &&& forall|j: int| start <= j < end ==> spot_on(old(spots)@, j)
                &&& final(spots)@ == old(spots)@
            },
        },
{
    let mut bit = start;
    while bit < end
        invariant
            start <= bit <= end <= SPOT_BITS,
            spots@ == old(spots)@,
            forall|j: int| start <= j < bit ==> spot_on(old(spots)@, j),
        decreases end - bit,
    {
        if !spot_is_on(spots, bit) {
            write_spot(spots, bit, true);
            return Some(bit);
        }
        bit = bit + 1;
    }
    None
}

/// Frees the first taken space in `start..end`; false when none is taken.
pub fn clear_first_occupied_bit(spots: &mut [u32; 57], start: usize, end: usize) -> (r: bool)
    requires
        start <= end <= SPOT_BITS,
    ensures
        r ==> exists|b: int| {
            &&& start <= b < end
            &&& spot_on(old(spots)@, b)
            &&& forall|j: int| start <= j < b ==> !spot_on(old(spots)@, j)
            &&& !spot_on(final(spots)@, b)
            &&& forall|j: int| 0 <= j < SPOT_BITS && j != b ==> spot_on(final(spots)@, j) == spot_on(old(spots)@, j)
        },
        !r ==> (forall|j: int| start <= j < end ==> !spot_on(old(spots)@, j)) && final(spots)@ == old(spots)@,
{
    let mut bit = start;
    while bit < end
        invariant
            start <= bit <= end <= SPOT_BITS,
            spots@ == old(spots)@,
            forall|j: int| start <= j < bit ==> !spot_on(old(spots)@, j),
        decreases end - bit,
    {
        if spot_is_on(spots, bit) {
            write_spot(spots, bit, false);
            assert(spot_on(old(spots)@, bit as int));
            return true;
        }
        bit = bit + 1;
    }
    false
}

/// Number of occupied charging points among bits `start..end`.
pub fn count_ev_range(ev: u16, start: usize, end: usize) -> (count: u32)
    requires
        start <= end <= EV_BITS,
    ensures
        count == count_ev(ev, start as int, end as int),
{
    let mut count: u32 = 0;
    let mut i = start;
    while i < end
        invariant
            start <= i <= end <= EV_BITS,
            count == count_ev(ev, start as int, i as int),
        decreases end - i,
    {
        proof {
            lemma_count_bound(ev_fn(ev), start as int, i as int);
        }
        if ev_is_on(ev, i) {
            count = count + 1;
        }
        i = i + 1;
    }
    count
}

/// Marks the first free charging point in `start..end` as taken; false when none is free.
pub fn set_first_free_ev_bit(ev: &mut u16, start: usize, end: usize) -> (r: bool)
    requires
        start <= end <= EV_BITS,
    ensures
        r ==> exists|b: int| {
            &&& start <= b < end
            &&& !ev_on(*old(ev), b)
            &&& forall|j: int| start <= j < b ==> ev_on(*old(ev), j)
            &&& ev_on(*final(ev), b)
            &&& forall|j: int| 0 <= j < EV_BITS && j != b ==> ev_on(*final(ev), j) == ev_on(*old(ev), j)
        },
        !r ==> (forall|j: int| start <= j < end ==> ev_on(*old(ev), j)) && *final(ev) == *old(ev),
{
    let mut i = start;
    while i < end
        invariant
            start <= i <= end <= EV_BITS,
            *ev == *old(ev),
            forall|j: int| start <= j < i ==> ev_on(*old(ev), j),
        decreases end - i,
    {
        if !ev_is_on(*ev, i) {
            write_ev(ev, i, true);
            return true;
        }
        i = i + 1;
    }
    false
}

/// Frees the first taken charging point in `start..end`; false when none is taken.
pub fn clear_first_occupied_ev_bit(ev: &mut u16, start: usize, end: usize) -> (r: bool)
    requires
        start <= end <= EV_BITS,
    ensures
        r ==> exists|b: int| {
            &&& start <= b < end
            &&& ev_on(*old(ev), b)
            &&& forall|j: int| start <= j < b ==> !ev_on(*old(ev), j)
            &&& !ev_on(*final(ev), b)
            &&& forall|j: int| 0 <= j < EV_BITS && j != b ==> ev_on(*final(ev), j) == ev_on(*old(ev), j)
        },
        !r ==> (forall|j: int| start <= j < end ==> !ev_on(*old(ev), j)) && *final(ev) == *old(ev),
{
    let mut i = start;
    while i < end
        invariant
            start <= i <= end <= EV_BITS,
            *ev == *old(ev),
            forall|j: int| start <= j < i ==> !ev_on(*old(ev), j),
        decreases end - i,
    {
        if ev_is_on(*ev, i) {
            write_ev(ev, i, false);
            return true;
        }
        i = i + 1;
    }
    false
}

/// Leaves exactly the first `n` spaces of `start..end` taken; other bits stay.
pub fn fill_spots(spots: &mut [u32; 57], start: usize, end: usize, n: usize)
    requires
        start <= end <= SPOT_BITS,
        n <= end - start,
    ensures
        forall|j: int| start <= j < end ==> spot_on(final(spots)@, j) == (j < start + n),
        forall|j: int| 0 <= j < SPOT_BITS && !(start <= j < end) ==> spot_on(final(spots)@, j) == spot_on(old(spots)@, j),
        count_spots(final(spots)@, start as int, end as int) == n,
{
    let mut bit = start;
    while bit < end
        invariant
            start <= bit <= end <= SPOT_BITS,
            n <= end - start,
            forall|j: int| start <= j < bit ==> spot_on(spots@, j) == (j < start + n),
            forall|j: int| 0 <= j < SPOT_BITS && !(start <= j < bit) ==> spot_on(spots@, j) == spot_on(old(spots)@, j),
        decreases end - bit,
    {
        write_spot(spots, bit, bit < start + n);
        bit = bit + 1;
    }
    proof {
        lemma_count_prefix(spots_fn(spots@), start as int, end as int, n as int);
    }
}

/// Leaves exactly the first `n` charging points of `start..end` taken; other bits stay.
pub fn fill_ev(ev: &mut u16, start: usize, end: usize, n: usize)
    requires
        start <= end <= EV_BITS,
        n <= end - start,
    ensures
        forall|j: int| start <= j < end ==> ev_on(*final(ev), j) == (j < start + n),
        forall|j: int| 0 <= j < EV_BITS && !(start <= j < end) ==> ev_on(*final(ev), j) == ev_on(*old(ev), j),
        count_ev(*final(ev), start as int, end as int) == n,
{
    let mut i = start;
    while i < end
        invariant
            start <= i <= end <= EV_BITS,
            n <= end - start,
            forall|j: int| start <= j < i ==> ev_on(*ev, j) == (j < start + n),
            forall|j: int| 0 <= j < EV_BITS && !(start <= j < i) ==> ev_on(*ev, j) == ev_on(*old(ev), j),
        decreases end - i,
    {
        write_ev(ev, i, i < start + n);
        i = i + 1;
    }
    proof {
        lemma_count_prefix(ev_fn(*ev), start as int, end as int, n as int);
    }
}

} // verus!
