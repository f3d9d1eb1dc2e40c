//! Visit statistics: hour slots, the hourly histograms (real when enough
//! visits were counted, simulated otherwise) and the advice on when to come.

use vstd::prelude::*;
use crate::order::{is_stable_order, key_views, stable_order, KeyView, SortKey};
use crate::text::{push_str, push_two_digits, string_from, string_of, two_digits};

verus! {

/// The centre opens at 11:00 ...
pub const OPENING_HOUR_START: u8 = 11;
/// ... and closes at 19:00.
pub const OPENING_HOUR_END_EXCLUSIVE: u8 = 19;

/// Visits counted today, this month and this year.
pub struct VisitStats {
    pub daily: i64,
    pub monthly: i64,
    pub yearly: i64,
}

/// Visits in one hour of the day.
#[derive(Clone, Copy, Debug, PartialEq, Eq, Structural)]
pub struct HourlyAffluence {
    pub hour: u8,
    pub visits: i64,
}

/// The hours to come and the hour to avoid.
pub struct VisitRecommendation {
    pub best_slots: Vec<String>,
    pub avoid_slots: Vec<String>,
}

/// The slot of an hour: `HHh-HHh`, the hour and the next.
pub open spec fn slot_text(hour: u8) -> Seq<char> {
    two_digits(hour as nat) + "h-"@ + two_digits(hour as nat + 1) + "h"@
}

pub fn hour_slot(hour: u8) -> (s: String)
    requires
        hour < 255,
    ensures
        s@ == slot_text(hour),
{
    let mut out: Vec<char> = Vec::new();
    push_two_digits(&mut out, hour as u64);
    push_str(&mut out, "h-");
    push_two_digits(&mut out, hour as u64 + 1);
    push_str(&mut out, "h");
    string_of(&out)
}

/// A 32-bit integer hash: xor-shifts and two multiplications, wrapping.
pub open spec fn mix(x: u32) -> u32 {
    let a = x ^ (x >> 16u32);
    let b = ((a as int * 0x7feb_352d) % 0x1_0000_0000) as u32;
    let c = b ^ (b >> 15u32);
    let d = ((c as int * 0x846c_a68b) % 0x1_0000_0000) as u32;
    d ^ (d >> 16u32)
}

pub fn mix32(x: u32) -> (r: u32)
    ensures
        r == mix(x),
{
    let a = x ^ (x >> 16u32);
    let b = ((a as u64 * 0x7feb_352du64) % 0x1_0000_0000u64) as u32;
    let c = b ^ (b >> 15u32);
    let d = ((c as u64 * 0x846c_a68bu64) % 0x1_0000_0000u64) as u32;
    d ^ (d >> 16u32)
}

/// `a * b`, held within the range of `i64`.
pub open spec fn sat_mul(a: int, b: int) -> int {
    let p = a * b;
    if p > i64::MAX { i64::MAX as int } else if p < i64::MIN { i64::MIN as int } else { p }
}

fn saturating_mul_i64(a: i64, b: i64) -> (r: i64)
    ensures
        r == sat_mul(a as int, b as int),
{
    assert(-0x4000_0000_0000_0000_0000_0000_0000_0000 <= (a as int) * (b as int) <= 0x4000_0000_0000_0000_0000_0000_0000_0000)
        by (nonlinear_arith)
        requires
            i64::MIN <= a <= i64::MAX,
            i64::MIN <= b <= i64::MAX,
    ;
    let p: i128 = a as i128 * b as i128;
    if p > i64::MAX as i128 {
        i64::MAX
    } else if p < i64::MIN as i128 {
        i64::MIN
    } else {
        p as i64
    }
}

/// The shape of a simulated histogram: hours, peak window, scale, jitter
/// in percent and the seed of its profile.
pub struct Profile {
    pub start_hour: u8,
    pub end_hour_exclusive: u8,
    pub peak_start: u8,
    pub peak_end: u8,
    pub base_scale: i64,
    pub jitter_pct: i64,
    pub seed: u32,
}

/// The profile is one the page can draw: hours within a day, a peak window
/// in order, a scale and jitter that keep the numbers small.
pub open spec fn profile_ok(p: Profile) -> bool {
    &&& p.start_hour <= p.end_hour_exclusive <= 24
    &&& p.peak_start <= p.peak_end <= 24
    &&& 0 <= p.base_scale <= 1_000_000
    &&& 0 <= p.jitter_pct <= 100
}

/// The hour of the day's peak: within the peak window, drawn from the day.
pub open spec fn peak_hour_of(p: Profile, day: u32) -> int {
    let day_seed = mix(p.seed ^ day ^ 0x1f12_3bb5u32);
    p.peak_start + day_seed % ((p.peak_end - p.peak_start + 1) as u32)
}

/// The simulated visits for `hour` on the day `day`.
pub open spec fn simulated_visits(p: Profile, day: u32, hour: u8) -> i64 {
    let peak = peak_hour_of(p, day);
    let distance = if hour >= peak { hour - peak } else { peak - hour };
    let shape = if 32 - 5 * distance > 8 { 32 - 5 * distance } else { 8 };
    let bonus = if 17 <= hour <= 19 { 5int } else { 0int };
    let noise = mix(p.seed ^ day ^ ((((hour as int + 1) * 0x9e37_79b9) % 0x1_0000_0000) as u32));
    let jitter = (noise % ((2 * p.jitter_pct + 1) as u32)) as int - p.jitter_pct;
    let value = sat_mul(p.base_scale * (shape + bonus) / 32, 100 + jitter) / 100;
    (if value > 1 { value } else { 1 }) as i64
}

fn simulated_bucket(p: &Profile, day: u32, peak_hour: u8, hour: u8) -> (visits: i64)
    requires
        profile_ok(*p),
        peak_hour == peak_hour_of(*p, day),
        hour < 24,
    ensures
        visits == simulated_visits(*p, day, hour),
{
    let distance: i64 = if hour >= peak_hour { (hour - peak_hour) as i64 } else { (peak_hour - hour) as i64 };
    let shape: i64 = if 32 - 5 * distance > 8 { 32 - 5 * distance } else { 8 };
    let bonus: i64 = if 17 <= hour && hour <= 19 { 5 } else { 0 };
    let spread: u32 = ((hour as u64 + 1) * 0x9e37_79b9u64 % 0x1_0000_0000u64) as u32;
    let noise = mix32(p.seed ^ day ^ spread);
    let modulus: u32 = (2 * p.jitter_pct + 1) as u32;
    let jitter: i64 = (noise % modulus) as i64 - p.jitter_pct;
    assert(0 <= p.base_scale * (shape + bonus) <= 1_000_000 * 100) by (nonlinear_arith)
        requires
            0 <= p.base_scale <= 1_000_000,
            8 <= shape + bonus <= 37,
    ;
    let scaled: i64 = p.base_scale * (shape + bonus);
    let raw = saturating_mul_i64(scaled / 32, 100 + jitter);
    let value: i64 = raw / 100;
    assert(value == sat_mul((p.base_scale * (shape + bonus)) / 32, 100 + jitter) / 100) by (nonlinear_arith)
        requires
            0 <= p.base_scale <= 1_000_000,
            8 <= shape + bonus <= 37,
            0 <= 100 + jitter <= 200,
            raw == sat_mul(scaled as int / 32, 100 + jitter),
            scaled == p.base_scale * (shape + bonus),
            value == raw / 100,
    ;
    let visits: i64 = if value > 1 { value } else { 1 };
    visits
}

/// The simulated histogram for the day `day` (days since year 1 of the
/// calendar): one bucket per hour of the profile, in order.
pub fn simulated_hourly_histogram(p: &Profile, day: u32) -> (h: Vec<HourlyAffluence>)
    requires
        profile_ok(*p),
    ensures
        h@.len() == p.end_hour_exclusive - p.start_hour,
        forall|i: int| 0 <= i < h@.len() ==> #[trigger] h@[i] == (HourlyAffluence {
            hour: (p.start_hour + i) as u8,
            visits: simulated_visits(*p, day, (p.start_hour + i) as u8),
        }),
{
    let day_seed = mix32(p.seed ^ day ^ 0x1f12_3bb5u32);
    let span: u32 = (p.peak_end - p.peak_start + 1) as u32;
    let peak_hour: u8 = p.peak_start + (day_seed % span) as u8;
    assert(peak_hour == peak_hour_of(*p, day));
    let mut result: Vec<HourlyAffluence> = Vec::new();
    let mut hour = p.start_hour;
    while hour < p.end_hour_exclusive
        invariant
            profile_ok(*p),
            p.start_hour <= hour <= p.end_hour_exclusive,
            peak_hour == peak_hour_of(*p, day),
            result@.len() == hour - p.start_hour,
            forall|i: int| 0 <= i < result@.len() ==> #[trigger] result@[i] == (HourlyAffluence {
                hour: (p.start_hour + i) as u8,
                visits: simulated_visits(*p, day, (p.start_hour + i) as u8),
            }),
        decreases p.end_hour_exclusive - hour,
    {
        let visits = simulated_bucket(p, day, peak_hour, hour);
        result.push(HourlyAffluence { hour, visits });
        proof {
            assert(hour == (p.start_hour + (result@.len() - 1)) as u8);
        }
        hour = hour + 1;
    }
    result
}

/// The visits per hour of the day from counted rows (hour, count): rows
/// for hours outside 0..24 are ignored; a later row for an hour replaces an
/// earlier one; hours without a row count 0.
pub open spec fn per_hour_of(rows: Seq<(i64, i64)>, hour: int) -> i64
    decreases rows.len(),
{
    if rows.len() == 0 {
        0
    } else if rows.last().0 == hour {
        rows.last().1
    } else {
        per_hour_of(rows.drop_last(), hour)
    }
}

pub fn per_hour_counts(rows: &Vec<(i64, i64)>) -> (counts: Vec<i64>)
    ensures
        counts@.len() == 24,
        forall|h: int| 0 <= h < 24 ==> #[trigger] counts@[h] == per_hour_of(rows@, h),
{
    let mut counts: Vec<i64> = Vec::new();
    let mut h: usize = 0;
    while h < 24
        invariant
            h <= 24,
            counts@.len() == h,
            forall|j: int| 0 <= j < h ==> #[trigger] counts@[j] == 0,
        decreases 24 - h,
    {
        counts.push(0);
        h = h + 1;
    }
    let mut i: usize = 0;
    while i < rows.len()
        invariant
            i <= rows@.len(),
            counts@.len() == 24,
            forall|j: int| 0 <= j < 24 ==> #[trigger] counts@[j] == per_hour_of(rows@.take(i as int), j),
        decreases rows@.len() - i,
    {
        proof {
            assert(rows@.take(i + 1).drop_last() == rows@.take(i as int));
        }
        let (hour, count) = rows[i];
        if 0 <= hour && hour < 24 {
            counts.set(hour as usize, count);
        }
        i = i + 1;
    }
    assert(rows@.take(rows@.len() as int) == rows@);
    counts
}

/// How many hours had visits, and the sum of all counts.
pub open spec fn non_zero_hours(v: Seq<i64>) -> nat
    decreases v.len(),
{
    if v.len() == 0 { 0 } else { non_zero_hours(v.drop_last()) + if v.last() > 0 { 1nat } else { 0nat } }
}

pub open spec fn total_of(v: Seq<i64>) -> int
    decreases v.len(),
{
    if v.len() == 0 { 0 } else { total_of(v.drop_last()) + v.last() }
}

/// Every prefix sum of `v` fits in an `i64`.
pub open spec fn sums_fit(v: Seq<i64>) -> bool {
    forall|k: int| 0 <= k <= v.len() ==> i64::MIN <= #[trigger] total_of(v.take(k)) <= i64::MAX
}

/// Enough visits were counted to show real numbers: at least so many hours
/// with visits, and at least so many visits in all.
pub fn has_enough_real_data(per_hour: &Vec<i64>, min_non_zero_buckets: usize, min_total: i64) -> (b: bool)
    requires
        sums_fit(per_hour@),
    ensures
        b == (non_zero_hours(per_hour@) >= min_non_zero_buckets && total_of(per_hour@) >= min_total),
{
    let mut non_zero: usize = 0;
    let mut total: i64 = 0;
    let mut i: usize = 0;
    while i < per_hour.len()
        invariant
            i <= per_hour@.len(),
            sums_fit(per_hour@),
            non_zero == non_zero_hours(per_hour@.take(i as int)),
            non_zero <= i,
            total == total_of(per_hour@.take(i as int)),
        decreases per_hour@.len() - i,
    {
        proof {
            assert(per_hour@.take(i + 1).drop_last() == per_hour@.take(i as int));
            assert(i64::MIN <= total_of(per_hour@.take(i + 1)) <= i64::MAX);
        }
        if per_hour[i] > 0 {
            non_zero = non_zero + 1;
        }
        total = total + per_hour[i];
        i = i + 1;
    }
    assert(per_hour@.take(per_hour@.len() as int) == per_hour@);
    non_zero >= min_non_zero_buckets && total >= min_total
}

/// The real histogram: the counted visits for each hour from `start` to `end`.
pub fn real_histogram(per_hour: &Vec<i64>, start: u8, end_exclusive: u8) -> (h: Vec<HourlyAffluence>)
    requires
        per_hour@.len() == 24,
        start <= end_exclusive <= 24,
    ensures
        h@.len() == end_exclusive - start,
        forall|i: int| 0 <= i < h@.len() ==> #[trigger] h@[i] == (HourlyAffluence {
            hour: (start + i) as u8,
            visits: per_hour@[start + i],
        }),
{
    let mut h: Vec<HourlyAffluence> = Vec::new();
    let mut hour = start;
    while hour < end_exclusive
        invariant
            start <= hour <= end_exclusive <= 24,
            per_hour@.len() == 24,
            h@.len() == hour - start,
            forall|i: int| 0 <= i < h@.len() ==> #[trigger] h@[i] == (HourlyAffluence {
                hour: (start + i) as u8,
                visits: per_hour@[start + i],
            }),
        decreases end_exclusive - hour,
    {
        h.push(HourlyAffluence { hour, visits: per_hour[hour as usize] });
        hour = hour + 1;
    }
    h
}

/// The simulated crowd in the centre.
pub open spec fn physical_profile() -> Profile {
    Profile { start_hour: 11, end_hour_exclusive: 19, peak_start: 14, peak_end: 17, base_scale: 140, jitter_pct: 16, seed: 0x5048_5953 }
}

/// The simulated traffic on the website.
pub open spec fn web_profile() -> Profile {
    Profile { start_hour: 0, end_hour_exclusive: 24, peak_start: 14, peak_end: 18, base_scale: 180, jitter_pct: 22, seed: 0x5745_4221 }
}

/// The opening-hours histogram: real counts when at least 5 hours had
/// visits and at least 50 visits were counted, else the simulated crowd
/// of the day `day` (peak from 14:00 to 17:00).
pub fn hourly_affluence(rows: &Vec<(i64, i64)>, day: u32) -> (h: Vec<HourlyAffluence>)
    requires
        sums_fit(Seq::new(24, |j: int| per_hour_of(rows@, j))),
    ensures
        h@.len() == 8,
        ({
            let counts = Seq::new(24, |j: int| per_hour_of(rows@, j));
            forall|i: int| 0 <= i < 8 ==> #[trigger] h@[i] == (HourlyAffluence {
                hour: (11 + i) as u8,
                visits: if non_zero_hours(counts) >= 5 && total_of(counts) >= 50 {
                    counts[11 + i]
                } else {
                    simulated_visits(physical_profile(), day, (11 + i) as u8)
                },
            })
        }),
{
    let per_hour = per_hour_counts(rows);
    assert(per_hour@ =~= Seq::new(24, |j: int| per_hour_of(rows@, j)));
    if has_enough_real_data(&per_hour, 5, 50) {
        real_histogram(&per_hour, OPENING_HOUR_START, OPENING_HOUR_END_EXCLUSIVE)
    } else {
        let p = Profile {
            start_hour: OPENING_HOUR_START,
            end_hour_exclusive: OPENING_HOUR_END_EXCLUSIVE,
            peak_start: 14,
            peak_end: 17,
            base_scale: 140,
            jitter_pct: 16,
            seed: 0x5048_5953,
        };
        simulated_hourly_histogram(&p, day)
    }
}

/// The whole-day web histogram: real counts when at least 10 hours had
/// visits and at least 120 visits were counted, else the simulated traffic
/// of the day `day` (peak from 14:00 to 18:00).
pub fn hourly_web_affluence(rows: &Vec<(i64, i64)>, day: u32) -> (h: Vec<HourlyAffluence>)
    requires
        sums_fit(Seq::new(24, |j: int| per_hour_of(rows@, j))),
    ensures
        h@.len() == 24,
        ({
            let counts = Seq::new(24, |j: int| per_hour_of(rows@, j));
            forall|i: int| 0 <= i < 24 ==> #[trigger] h@[i] == (HourlyAffluence {
                hour: i as u8,
                visits: if non_zero_hours(counts) >= 10 && total_of(counts) >= 120 {
                    counts[i]
                } else {
                    simulated_visits(web_profile(), day, i as u8)
                },
            })
        }),
{
    let per_hour = per_hour_counts(rows);
    assert(per_hour@ =~= Seq::new(24, |j: int| per_hour_of(rows@, j)));
    if has_enough_real_data(&per_hour, 10, 120) {
        real_histogram(&per_hour, 0, 24)
    } else {
        let p = Profile {
            start_hour: 0,
            end_hour_exclusive: 24,
            peak_start: 14,
            peak_end: 18,
            base_scale: 180,
            jitter_pct: 22,
            seed: 0x5745_4221,
        };
        simulated_hourly_histogram(&p, day)
    }
}

/// The last 24 hours of web traffic: simulated for the day `day` (peak
/// from 14:00 to 18:00), but the current local hour shows the visits
/// counted in it (none below 0).
pub fn sliding_web_affluence(day: u32, current_hour: u8, current_hour_visits: i64) -> (h: Vec<HourlyAffluence>)
    ensures
        h@.len() == 24,
        forall|i: int| 0 <= i < 24 ==> (#[trigger] h@[i]).hour == i && h@[i].visits == if i == current_hour {
            if current_hour_visits > 0 { current_hour_visits } else { 0 }
        } else {
            simulated_visits(
                Profile { start_hour: 0, end_hour_exclusive: 24, peak_start: 14, peak_end: 18, base_scale: 160, jitter_pct: 20, seed: 0x524f_4c4c },
                day,
                i as u8,
            )
        },
{
    let p = Profile {
        start_hour: 0,
        end_hour_exclusive: 24,
        peak_start: 14,
        peak_end: 18,
        base_scale: 160,
        jitter_pct: 20,
        seed: 0x524f_4c4c,
    };
    let mut h = simulated_hourly_histogram(&p, day);
    let ghost sim = h@;
    let mut i: usize = 0;
    while i < h.len()
        invariant
            i <= h@.len(),
            h@.len() == 24,
            sim.len() == 24,
            forall|j: int| 0 <= j < 24 ==> #[trigger] sim[j] == (HourlyAffluence {
                hour: j as u8,
                visits: simulated_visits(p, day, j as u8),
            }),
            forall|j: int| i <= j < 24 ==> #[trigger] h@[j] == sim[j],
            forall|j: int| 0 <= j < i ==> (#[trigger] h@[j]).hour == j && h@[j].visits == if j == current_hour {
                if current_hour_visits > 0 { current_hour_visits } else { 0 }
            } else {
                sim[j].visits
            },
        decreases h@.len() - i,
    {
        if h[i].hour == current_hour {
            let b = HourlyAffluence { hour: h[i].hour, visits: if current_hour_visits > 0 { current_hour_visits } else { 0 } };
            h.set(i, b);
        }
        i = i + 1;
    }
    h
}

/// The hours of the opening period with their counts, in order.
pub open spec fn opening_counts(per_hour: Seq<i64>) -> Seq<KeyView> {
    Seq::new(8, |i: int| KeyView { class: 0, major: per_hour[11 + i], minor: 0, text: Seq::empty() })
}

/// Today's advice: the two opening hours with the fewest visits (earlier
/// hours first among equal counts) and the hour with the most (the earliest
/// among equals).
pub fn today_physical_recommendation(rows: &Vec<(i64, i64)>) -> (r: VisitRecommendation)
    ensures
        ({
            let counts = Seq::new(24, |j: int| per_hour_of(rows@, j));
            exists|asc: Seq<usize>, desc: Seq<usize>| {
                &&& #[trigger] is_stable_order(opening_counts(counts), false, asc)
                &&& #[trigger] is_stable_order(opening_counts(counts), true, desc)
                &&& r.best_slots@.len() == 2
                &&& r.best_slots@[0]@ == slot_text((11 + asc[0]) as u8)
                &&& r.best_slots@[1]@ == slot_text((11 + asc[1]) as u8)
                &&& r.avoid_slots@.len() == 1
                &&& r.avoid_slots@[0]@ == slot_text((11 + desc[0]) as u8)
            }
        }),
{
    let per_hour = per_hour_counts(rows);
    let ghost counts = Seq::new(24, |j: int| per_hour_of(rows@, j));
    assert(per_hour@ =~= counts);
    let mut keys: Vec<SortKey> = Vec::new();
    let mut k: usize = 0;
    while k < 8
        invariant
            k <= 8,
            per_hour@ == counts,
            per_hour@.len() == 24,
            keys@.len() == k,
            forall|j: int| 0 <= j < k ==> #[trigger] keys@[j]@ == (KeyView { class: 0, major: counts[11 + j], minor: 0, text: Seq::empty() }),
        decreases 8 - k,
    {
        keys.push(SortKey { class: 0, major: per_hour[11 + k], minor: 0, text: String::new() });
        k = k + 1;
    }
    assert(key_views(keys@) =~= opening_counts(counts));
    let asc = stable_order(&keys, false);
    let desc = stable_order(&keys, true);
    let mut best_slots: Vec<String> = Vec::new();
    best_slots.push(hour_slot(11 + asc[0] as u8));
    best_slots.push(hour_slot(11 + asc[1] as u8));
    let mut avoid_slots: Vec<String> = Vec::new();
    avoid_slots.push(hour_slot(11 + desc[0] as u8));
    VisitRecommendation { best_slots, avoid_slots }
}

/// Position `k` holds the busiest hour of `v`: the last with the most visits.
pub open spec fn is_peak_at(v: Seq<HourlyAffluence>, k: int) -> bool {
    &&& 0 <= k < v.len()
    &&& forall|j: int| 0 <= j < v.len() ==> #[trigger] v[j].visits <= v[k].visits
    &&& forall|j: int| k < j < v.len() ==> #[trigger] v[j].visits < v[k].visits
}

/// The position of the busiest hour of a histogram, none when it is empty.
pub fn peak_position(hist: &Vec<HourlyAffluence>) -> (r: Option<usize>)
    ensures
        r is None <==> hist@.len() == 0,
        r matches Some(k) ==> is_peak_at(hist@, k as int),
{
    if hist.len() == 0 {
        return None;
    }
    let mut best: usize = 0;
    let mut i: usize = 1;
    while i < hist.len()
        invariant
            1 <= i <= hist@.len(),
            is_peak_at(hist@.take(i as int), best as int),
        decreases hist@.len() - i,
    {
        if hist[i].visits >= hist[best].visits {
            best = i;
        }
        assert(forall|j: int| 0 <= j < i ==> hist@.take(i as int)[j] == hist@.take(i + 1)[j]);
        i = i + 1;
    }
    assert(hist@.take(hist@.len() as int) == hist@);
    Some(best)
}

/// The peak of a histogram as the page shows it: the most visits of an hour
/// (0 for an empty histogram) and that hour's label (`--` for none).
pub struct HistogramPeak {
    pub visits: i64,
    pub hour_label: String,
}

/// The peak of a histogram: the busiest hour's visits and label.
pub fn histogram_peak(hist: &Vec<HourlyAffluence>) -> (p: HistogramPeak)
    ensures
        hist@.len() == 0 ==> p.visits == 0 && p.hour_label@ == "--"@,
        hist@.len() > 0 ==> exists|k: int| #[trigger] is_peak_at(hist@, k)
            && p.visits == hist@[k].visits
            && p.hour_label@ == two_digits(hist@[k].hour as nat) + "h"@,
{
    match peak_position(hist) {
        Some(k) => HistogramPeak { visits: hist[k].visits, hour_label: crate::site::format_hour(hist[k].hour) },
        None => {
            proof {
                reveal_strlit("--");
            }
            HistogramPeak { visits: 0, hour_label: string_from("--") }
        },
    }
}

/// The busiest hour is unique: two positions that both hold it are the same.
pub proof fn law_peak_unique(v: Seq<HourlyAffluence>, k: int, m: int)
    requires
        is_peak_at(v, k),
        is_peak_at(v, m),
    ensures
        k == m,
{
    if k < m {
        assert(v[m].visits < v[k].visits);
        assert(v[m].visits <= v[k].visits);
        assert(v[k].visits <= v[m].visits);
    } else if m < k {
        assert(v[k].visits < v[m].visits);
        assert(v[m].visits <= v[k].visits);
    }
}

} // verus!
