//! The rules of the daily prize draw and their limits.

use vstd::prelude::*;

verus! {

pub struct DiscountRangeRule {
    pub discount_percent: u32,
    pub balls_weight: u16,
}

pub struct StoreDrawRules {
    pub black_balls_min: u16,
    pub black_balls_current: u16,
    pub black_balls_max: u16,
    pub mix_seconds: u8,
    pub entropy_percent: u8,
}

pub struct DiscountDrawRules {
    pub black_balls: u16,
    pub ranges: Vec<DiscountRangeRule>,
    pub mix_seconds: u8,
    pub entropy_percent: u8,
}

pub struct VoucherRules {
    pub validity_days: u16,
}

pub struct GameRules {
    pub store_draw: StoreDrawRules,
    pub discount_draw: DiscountDrawRules,
    pub voucher: VoucherRules,
}

/// A discount range as plain numbers: (percent, weight).
pub open spec fn range_view(r: DiscountRangeRule) -> (u32, u16) {
    (r.discount_percent, r.balls_weight)
}

pub struct DiscountDrawView {
    pub black_balls: u16,
    pub ranges: Seq<(u32, u16)>,
    pub mix_seconds: u8,
    pub entropy_percent: u8,
}

pub struct GameRulesView {
    pub store_black_balls_min: u16,
    pub store_black_balls_current: u16,
    pub store_black_balls_max: u16,
    pub store_mix_seconds: u8,
    pub store_entropy_percent: u8,
    pub discount: DiscountDrawView,
    pub validity_days: u16,
}

impl View for GameRules {
    type V = GameRulesView;

    open spec fn view(&self) -> GameRulesView {
        GameRulesView {
            store_black_balls_min: self.store_draw.black_balls_min,
            store_black_balls_current: self.store_draw.black_balls_current,
            store_black_balls_max: self.store_draw.black_balls_max,
            store_mix_seconds: self.store_draw.mix_seconds,
            store_entropy_percent: self.store_draw.entropy_percent,
            discount: DiscountDrawView {
                black_balls: self.discount_draw.black_balls,
                ranges: self.discount_draw.ranges@.map_values(|r: DiscountRangeRule| range_view(r)),
                mix_seconds: self.discount_draw.mix_seconds,
                entropy_percent: self.discount_draw.entropy_percent,
            },
            validity_days: self.voucher.validity_days,
        }
    }
}

/// The discount ranges of the default rules: (percent, weight).
pub open spec fn default_ranges() -> Seq<(u32, u16)> {
    seq![(50, 1), (45, 2), (40, 2), (35, 2), (30, 2), (25, 3), (20, 3), (15, 5), (10, 5), (5, 10)]
}

/// The rules the game starts with.
pub open spec fn default_rules() -> GameRulesView {
    GameRulesView {
        store_black_balls_min: 0,
        store_black_balls_current: 9,
        store_black_balls_max: 30,
        store_mix_seconds: 7,
        store_entropy_percent: 65,
        discount: DiscountDrawView { black_balls: 15, ranges: default_ranges(), mix_seconds: 7, entropy_percent: 65 },
        validity_days: 30,
    }
}

fn default_range_rules() -> (v: Vec<DiscountRangeRule>)
    ensures
        v@.map_values(|r: DiscountRangeRule| range_view(r)) == default_ranges(),
{
    let mut v: Vec<DiscountRangeRule> = Vec::new();
    v.push(DiscountRangeRule { discount_percent: 50, balls_weight: 1 });
    v.push(DiscountRangeRule { discount_percent: 45, balls_weight: 2 });
    v.push(DiscountRangeRule { discount_percent: 40, balls_weight: 2 });
    v.push(DiscountRangeRule { discount_percent: 35, balls_weight: 2 });
    v.push(DiscountRangeRule { discount_percent: 30, balls_weight: 2 });
    v.push(DiscountRangeRule { discount_percent: 25, balls_weight: 3 });
    v.push(DiscountRangeRule { discount_percent: 20, balls_weight: 3 });
    v.push(DiscountRangeRule { discount_percent: 15, balls_weight: 5 });
    v.push(DiscountRangeRule { discount_percent: 10, balls_weight: 5 });
    v.push(DiscountRangeRule { discount_percent: 5, balls_weight: 10 });
    assert(v@.map_values(|r: DiscountRangeRule| range_view(r)) =~= default_ranges());
    v
}

pub fn default_game_rules() -> (r: GameRules)
    ensures
        r@ == default_rules(),
{
    GameRules {
        store_draw: StoreDrawRules {
            black_balls_min: 0,
            black_balls_current: 9,
            black_balls_max: 30,
            mix_seconds: 7,
            entropy_percent: 65,
        },
        discount_draw: DiscountDrawRules {
            black_balls: 15,
            ranges: default_range_rules(),
            mix_seconds: 7,
            entropy_percent: 65,
        },
        voucher: VoucherRules { validity_days: 30 },
    }
}

pub open spec fn clamp(x: int, lo: int, hi: int) -> int {
    if x < lo { lo } else if x > hi { hi } else { x }
}

/// A discount range kept to 1..=100 percent and 1..=200 balls.
pub open spec fn clamp_range(r: (u32, u16)) -> (u32, u16) {
    (clamp(r.0 as int, 1, 100) as u32, clamp(r.1 as int, 1, 200) as u16)
}

/// The rules with every setting kept within its limits: draws of 3 to 10
/// seconds, entropy up to 100 %, at most 120 black balls in the discount draw,
/// the default ranges in place of none, ranges of 1 to 100 % with 1 to 200
/// balls, and vouchers valid 1 to 365 days. The store draw's black-ball
/// counts stay as they are.
pub open spec fn clamped_rules(r: GameRulesView) -> GameRulesView {
    let ranges = if r.discount.ranges.len() == 0 { default_ranges() } else { r.discount.ranges };
    GameRulesView {
        store_mix_seconds: clamp(r.store_mix_seconds as int, 3, 10) as u8,
        store_entropy_percent: clamp(r.store_entropy_percent as int, 0, 100) as u8,
        discount: DiscountDrawView {
            black_balls: clamp(r.discount.black_balls as int, 0, 120) as u16,
            ranges: ranges.map_values(|x: (u32, u16)| clamp_range(x)),
            mix_seconds: clamp(r.discount.mix_seconds as int, 3, 10) as u8,
            entropy_percent: clamp(r.discount.entropy_percent as int, 0, 100) as u8,
        },
        validity_days: clamp(r.validity_days as int, 1, 365) as u16,
        ..r
    }
}

fn clamp_u8(x: u8, lo: u8, hi: u8) -> (r: u8)
    requires
        lo <= hi,
    ensures
        r == clamp(x as int, lo as int, hi as int),
{
    if x < lo { lo } else if x > hi { hi } else { x }
}

fn clamp_u16(x: u16, lo: u16, hi: u16) -> (r: u16)
    requires
        lo <= hi,
    ensures
        r == clamp(x as int, lo as int, hi as int),
{
    if x < lo { lo } else if x > hi { hi } else { x }
}

fn clamp_u32(x: u32, lo: u32, hi: u32) -> (r: u32)
    requires
        lo <= hi,
    ensures
        r == clamp(x as int, lo as int, hi as int),
{
    if x < lo { lo } else if x > hi { hi } else { x }
}

pub fn clamp_game_rules(rules: GameRules) -> (r: GameRules)
    ensures
        r@ == clamped_rules(rules@),
{
    let mut rules = rules;
    let ghost given = rules@;
    rules.store_draw.mix_seconds = clamp_u8(rules.store_draw.mix_seconds, 3, 10);
    rules.store_draw.entropy_percent = clamp_u8(rules.store_draw.entropy_percent, 0, 100);
    rules.discount_draw.black_balls = clamp_u16(rules.discount_draw.black_balls, 0, 120);
    rules.discount_draw.mix_seconds = clamp_u8(rules.discount_draw.mix_seconds, 3, 10);
    rules.discount_draw.entropy_percent = clamp_u8(rules.discount_draw.entropy_percent, 0, 100);
    if rules.discount_draw.ranges.len() == 0 {
        rules.discount_draw.ranges = default_range_rules();
    }
    let ghost ranges = rules.discount_draw.ranges@.map_values(|x: DiscountRangeRule| range_view(x));
    let mut clamped: Vec<DiscountRangeRule> = Vec::new();
    let mut i: usize = 0;
    while i < rules.discount_draw.ranges.len()
        invariant
            i <= rules.discount_draw.ranges@.len(),
            ranges == rules.discount_draw.ranges@.map_values(|x: DiscountRangeRule| range_view(x)),
            clamped@.len() == i,
            forall|j: int| 0 <= j < i ==> #[trigger] range_view(clamped@[j]) == clamp_range(ranges[j]),
        decreases rules.discount_draw.ranges@.len() - i,
    {
        let range = &rules.discount_draw.ranges[i];
        clamped.push(
            DiscountRangeRule {
                discount_percent: clamp_u32(range.discount_percent, 1, 100),
                balls_weight: clamp_u16(range.balls_weight, 1, 200),
            },
        );
        i = i + 1;
    }
    rules.discount_draw.ranges = clamped;
    rules.voucher.validity_days = clamp_u16(rules.voucher.validity_days, 1, 365);
    assert(rules@.discount.ranges =~= clamped_rules(given).discount.ranges);
    rules
}

/// Clamping twice gives what clamping once gives.
pub proof fn law_clamp_idempotent(r: GameRulesView)
    ensures
        clamped_rules(clamped_rules(r)) == clamped_rules(r),
{
    let c = clamped_rules(r);
    assert(c.discount.ranges.len() > 0) by {
        assert(default_ranges().len() == 10);
    }
    assert(c.discount.ranges.map_values(|x: (u32, u16)| clamp_range(x)) =~= c.discount.ranges);
}

/// Rules within the limits that `clamp_game_rules` keeps.
pub open spec fn rules_in_bounds(r: GameRulesView) -> bool {
    &&& 3 <= r.store_mix_seconds <= 10
    &&& r.store_entropy_percent <= 100
    &&& r.discount.black_balls <= 120
    &&& 3 <= r.discount.mix_seconds <= 10
    &&& r.discount.entropy_percent <= 100
    &&& r.discount.ranges.len() > 0
    &&& forall|j: int| 0 <= j < r.discount.ranges.len() ==> {
        &&& 1 <= (#[trigger] r.discount.ranges[j]).0 <= 100
        &&& 1 <= r.discount.ranges[j].1 <= 200
    }
    &&& 1 <= r.validity_days <= 365
}

/// Clamped rules are within bounds, and rules within bounds are left as they are.
pub proof fn law_clamp_bounds(r: GameRulesView)
    ensures
        rules_in_bounds(clamped_rules(r)),
        rules_in_bounds(r) ==> clamped_rules(r) == r,
{
    assert(default_ranges().len() == 10);
    if rules_in_bounds(r) {
        assert(r.discount.ranges.map_values(|x: (u32, u16)| clamp_range(x)) =~= r.discount.ranges);
    }
}

/// Black balls of the store draw for `shop_count` shops: the current setting,
/// kept between the minimum and the maximum, none of them above the number of shops.
pub open spec fn store_black_balls(shop_count: int, r: GameRulesView) -> int {
    if shop_count == 0 {
        0
    } else {
        let lo = if r.store_black_balls_min as int <= shop_count { r.store_black_balls_min as int } else { shop_count };
        let hi_req = if r.store_black_balls_max as int <= shop_count { r.store_black_balls_max as int } else { shop_count };
        let hi = if hi_req >= lo { hi_req } else { lo };
        let cur = if r.store_black_balls_current as int <= shop_count { r.store_black_balls_current as int } else { shop_count };
        clamp(cur, lo, hi)
    }
}

pub fn store_black_ball_count_for_shop_count(shop_count: usize, rules: &GameRules) -> (n: usize)
    ensures
        n == store_black_balls(shop_count as int, rules@),
{
    if shop_count == 0 {
        return 0;
    }
    let limit = shop_count;
    let min_req = rules.store_draw.black_balls_min as usize;
    let min = if min_req <= limit { min_req } else { limit };
    let max_req0 = rules.store_draw.black_balls_max as usize;
    let max_requested = if max_req0 <= limit { max_req0 } else { limit };
    let max = if max_requested >= min { max_requested } else { min };
    let cur0 = rules.store_draw.black_balls_current as usize;
    let current = if cur0 <= limit { cur0 } else { limit };
    if current < min { min } else if current > max { max } else { current }
}

/// The store draw never has more black balls than shops.
pub proof fn law_black_balls_bounded(shop_count: nat, r: GameRulesView)
    ensures
        0 <= store_black_balls(shop_count as int, r) <= shop_count,
{
}

/// A copy of the rules.
pub fn copy_game_rules(r: &GameRules) -> (c: GameRules)
    ensures
        c@ == r@,
{
    let mut ranges: Vec<DiscountRangeRule> = Vec::new();
    let mut i: usize = 0;
    while i < r.discount_draw.ranges.len()
        invariant
            i <= r.discount_draw.ranges@.len(),
            ranges@.len() == i,
            forall|j: int| 0 <= j < i ==> #[trigger] range_view(ranges@[j]) == range_view(r.discount_draw.ranges@[j]),
        decreases r.discount_draw.ranges@.len() - i,
    {
        let x = &r.discount_draw.ranges[i];
        ranges.push(DiscountRangeRule { discount_percent: x.discount_percent, balls_weight: x.balls_weight });
        i = i + 1;
    }
    let c = GameRules {
        store_draw: StoreDrawRules {
            black_balls_min: r.store_draw.black_balls_min,
            black_balls_current: r.store_draw.black_balls_current,
            black_balls_max: r.store_draw.black_balls_max,
            mix_seconds: r.store_draw.mix_seconds,
            entropy_percent: r.store_draw.entropy_percent,
        },
        discount_draw: DiscountDrawRules {
            black_balls: r.discount_draw.black_balls,
            ranges,
            mix_seconds: r.discount_draw.mix_seconds,
            entropy_percent: r.discount_draw.entropy_percent,
        },
        voucher: VoucherRules { validity_days: r.voucher.validity_days },
    };
    assert(c@.discount.ranges =~= r@.discount.ranges);
    c
}

/// The rules in force.
pub fn get_game_rules_snapshot(current: &GameRules) -> (r: GameRules)
    ensures
        r@ == current@,
{
    copy_game_rules(current)
}

/// Puts `rules`, clamped, in force and gives them back.
pub fn save_game_rules(current: &mut GameRules, rules: GameRules) -> (r: GameRules)
    ensures
        final(current)@ == clamped_rules(rules@),
        r@ == clamped_rules(rules@),
{
    let clamped = clamp_game_rules(rules);
    *current = copy_game_rules(&clamped);
    clamped
}

/// The largest black-ball count the rules page offers for the store drum:
/// the number of stores, at least 1 and at most `u16::MAX`.
pub open spec fn black_ball_limit(total_stores: int) -> u16 {
    clamp(total_stores, 1, 65535) as u16
}

pub fn store_max_limit(total_stores: usize) -> (l: u16)
    ensures
        l == black_ball_limit(total_stores as int),
{
    if total_stores < 1 {
        1
    } else if total_stores > 65535 {
        65535
    } else {
        total_stores as u16
    }
}

/// The store drum's black-ball counts as the rules page shows them: the
/// minimum and maximum cut to `limit`, the current count kept between them.
pub fn store_black_ball_form(rules: &GameRules, limit: u16) -> (f: (u16, u16, u16))
    ensures
        ({
            let lo = if rules.store_draw.black_balls_min < limit { rules.store_draw.black_balls_min } else { limit };
            let hi = if rules.store_draw.black_balls_max < limit { rules.store_draw.black_balls_max } else { limit };
            let a = if lo < hi { lo } else { hi };
            let b = if lo < hi { hi } else { lo };
            f == (lo, hi, clamp(rules.store_draw.black_balls_current as int, a as int, b as int) as u16)
        }),
{
    let lo = if rules.store_draw.black_balls_min < limit { rules.store_draw.black_balls_min } else { limit };
    let hi = if rules.store_draw.black_balls_max < limit { rules.store_draw.black_balls_max } else { limit };
    let a = if lo < hi { lo } else { hi };
    let b = if lo < hi { hi } else { lo };
    (lo, hi, clamp_u16(rules.store_draw.black_balls_current, a, b))
}

/// A value typed into a field of the rules page.
pub enum RuleInput {
    StoreBlackMin(u16),
    StoreBlackCurrent(u16),
    StoreBlackMax(u16),
    StoreMixSeconds(u8),
    StoreEntropy(u8),
    RangePercent(usize, u32),
    RangeWeight(usize, u16),
    DiscountBlackBalls(u16),
    DiscountMixSeconds(u8),
    DiscountEntropy(u8),
    ValidityDays(u16),
}

/// The smaller of `x` and `y`.
pub open spec fn min_of(x: int, y: int) -> int {
    if x < y { x } else { y }
}

/// The rules after a value is typed into a field: black-ball counts of the
/// store drum are cut to `limit`, discounts kept within 1 to 100 %, weights
/// within 1 to 200 balls, the discount drum's black balls cut to 120, the
/// validity kept within 1 to 365 days; a range that does not exist is left
/// alone; other fields take the value as typed.
pub open spec fn after_input(r: GameRulesView, input: RuleInput, limit: u16) -> GameRulesView {
    match input {
        RuleInput::StoreBlackMin(v) => GameRulesView { store_black_balls_min: min_of(v as int, limit as int) as u16, ..r },
        RuleInput::StoreBlackCurrent(v) => GameRulesView { store_black_balls_current: min_of(v as int, limit as int) as u16, ..r },
        RuleInput::StoreBlackMax(v) => GameRulesView { store_black_balls_max: min_of(v as int, limit as int) as u16, ..r },
        RuleInput::StoreMixSeconds(v) => GameRulesView { store_mix_seconds: v, ..r },
        RuleInput::StoreEntropy(v) => GameRulesView { store_entropy_percent: v, ..r },
        RuleInput::RangePercent(i, v) => if i < r.discount.ranges.len() {
            GameRulesView {
                discount: DiscountDrawView {
                    ranges: r.discount.ranges.update(i as int, (clamp(v as int, 1, 100) as u32, r.discount.ranges[i as int].1)),
                    ..r.discount
                },
                ..r
            }
        } else {
            r
        },
        RuleInput::RangeWeight(i, v) => if i < r.discount.ranges.len() {
            GameRulesView {
                discount: DiscountDrawView {
                    ranges: r.discount.ranges.update(i as int, (r.discount.ranges[i as int].0, clamp(v as int, 1, 200) as u16)),
                    ..r.discount
                },
                ..r
            }
        } else {
            r
        },
        RuleInput::DiscountBlackBalls(v) => GameRulesView {
            discount: DiscountDrawView { black_balls: min_of(v as int, 120) as u16, ..r.discount },
            ..r
        },
        RuleInput::DiscountMixSeconds(v) => GameRulesView { discount: DiscountDrawView { mix_seconds: v, ..r.discount }, ..r },
        RuleInput::DiscountEntropy(v) => GameRulesView { discount: DiscountDrawView { entropy_percent: v, ..r.discount }, ..r },
        RuleInput::ValidityDays(v) => GameRulesView { validity_days: clamp(v as int, 1, 365) as u16, ..r },
    }
}

/// Applies a value typed into a field of the rules page.
pub fn apply_rule_input(rules: &mut GameRules, input: RuleInput, limit: u16)
    ensures
        final(rules)@ == after_input(old(rules)@, input, limit),
{
    match input {
        RuleInput::StoreBlackMin(v) => {
            rules.store_draw.black_balls_min = if v < limit { v } else { limit };
        },
        RuleInput::StoreBlackCurrent(v) => {
            rules.store_draw.black_balls_current = if v < limit { v } else { limit };
        },
        RuleInput::StoreBlackMax(v) => {
            rules.store_draw.black_balls_max = if v < limit { v } else { limit };
        },
        RuleInput::StoreMixSeconds(v) => {
            rules.store_draw.mix_seconds = v;
        },
        RuleInput::StoreEntropy(v) => {
            rules.store_draw.entropy_percent = v;
        },
        RuleInput::RangePercent(i, v) => {
            if i < rules.discount_draw.ranges.len() {
                let w = rules.discount_draw.ranges[i].balls_weight;
                rules.discount_draw.ranges.set(i, DiscountRangeRule { discount_percent: clamp_u32(v, 1, 100), balls_weight: w });
                assert(rules@.discount.ranges =~= old(rules)@.discount.ranges.update(
                    i as int,
                    (clamp(v as int, 1, 100) as u32, old(rules)@.discount.ranges[i as int].1),
                ));
            }
        },
        RuleInput::RangeWeight(i, v) => {
            if i < rules.discount_draw.ranges.len() {
                let p = rules.discount_draw.ranges[i].discount_percent;
                rules.discount_draw.ranges.set(i, DiscountRangeRule { discount_percent: p, balls_weight: clamp_u16(v, 1, 200) });
                assert(rules@.discount.ranges =~= old(rules)@.discount.ranges.update(
                    i as int,
                    (old(rules)@.discount.ranges[i as int].0, clamp(v as int, 1, 200) as u16),
                ));
            }
        },
        RuleInput::DiscountBlackBalls(v) => {
            rules.discount_draw.black_balls = if v < 120 { v } else { 120 };
        },
        RuleInput::DiscountMixSeconds(v) => {
            rules.discount_draw.mix_seconds = v;
        },
        RuleInput::DiscountEntropy(v) => {
            rules.discount_draw.entropy_percent = v;
        },
        RuleInput::ValidityDays(v) => {
            rules.voucher.validity_days = clamp_u16(v, 1, 365);
        },
    }
}

} // verus!
