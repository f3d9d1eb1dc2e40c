//! The decisions of the prize draw on the rewards page: choosing categories,
//! when a store draw may start, the balls in each drum, and what a drawn
//! ball means. The drums' motion (floating point) stays with the page.

use vstd::prelude::*;
use crate::game_rules::{range_view, DiscountDrawRules};
use crate::auth::AuthState;
use crate::clock::{now_instant, utc_date, utc_date_text, Instant, CHRONO_SECS_BOUND};
use crate::text::{decimal, opt_view, push_decimal, push_str, str_eq, string_from, string_of};

verus! {

/// Where the draw stands.
#[derive(Clone, Copy, Debug, PartialEq, Eq, Structural)]
pub enum DrawPhase {
    SelectCategories,
    DrawStore,
    DrawDiscount,
    Completed,
}

/// At most this many categories can be chosen.
pub const MAX_SELECTED_CATEGORIES: usize = 3;

/// The simulation steps a drum turns: one per 16 ms of the mixing time, at least one.
pub open spec fn draw_steps(seconds: u8) -> int {
    let n = (seconds as int * 1000) / 16;
    if n < 1 { 1 } else { n }
}

pub fn draw_steps_from_seconds(seconds: u8) -> (n: usize)
    ensures
        n == draw_steps(seconds),
{
    let n: u64 = (seconds as u64 * 1000) / 16;
    if n < 1 { 1 } else { n as usize }
}

/// Every text but `key`.
pub open spec fn other_than(key: Seq<char>) -> spec_fn(Seq<char>) -> bool {
    |k: Seq<char>| k != key
}

/// The chosen categories after a click on `key`: nothing changes while the
/// draw is locked; a chosen key is let go; another key is added while fewer
/// than three are chosen.
pub open spec fn toggled(selected: Seq<Seq<char>>, key: Seq<char>, locked: bool) -> Seq<Seq<char>> {
    if locked {
        selected
    } else if selected.contains(key) {
        selected.filter(other_than(key))
    } else if selected.len() < 3 {
        selected.push(key)
    } else {
        selected
    }
}

pub fn toggle_category(selected: &Vec<String>, key: &str, locked: bool) -> (r: Vec<String>)
    ensures
        r@.map_values(|s: String| s@) == toggled(selected@.map_values(|s: String| s@), key@, locked),
{
    let ghost sv = selected@.map_values(|s: String| s@);
    let mut out: Vec<String> = Vec::new();
    let mut found = false;
    let mut i: usize = 0;
    while i < selected.len()
        invariant
            i <= selected@.len(),
            sv == selected@.map_values(|s: String| s@),
            out@.map_values(|s: String| s@) == sv.take(i as int).filter(other_than(key@)),
            found == sv.take(i as int).contains(key@),
        decreases selected@.len() - i,
    {
        proof {
            assert(sv.take(i + 1).drop_last() == sv.take(i as int));
            reveal_with_fuel(Seq::filter, 1);
            assert(sv.take(i + 1).last() == selected@[i as int]@);
        }
        let same = str_eq(selected[i].as_str(), key);
        if same {
            found = true;
        } else {
            out.push(selected[i].clone());
        }
        proof {
            assert(out@.map_values(|s: String| s@) =~= sv.take(i + 1).filter(other_than(key@)));
            if same {
                assert(sv.take(i + 1)[i as int] == key@);
            } else if sv.take(i + 1).contains(key@) {
                let j = choose|j: int| 0 <= j < i + 1 && #[trigger] sv.take(i + 1)[j] == key@;
                assert(j < i);
                assert(sv.take(i as int)[j] == key@);
            }
            if found && !same {
                let j = choose|j: int| 0 <= j < i && #[trigger] sv.take(i as int)[j] == key@;
                assert(sv.take(i + 1)[j] == key@);
            }
        }
        i = i + 1;
    }
    assert(sv.take(sv.len() as int) == sv);
    if locked {
        let mut same: Vec<String> = Vec::new();
        let mut j: usize = 0;
        while j < selected.len()
            invariant
                j <= selected@.len(),
                same@.len() == j,
                forall|k: int| 0 <= k < j ==> #[trigger] same@[k]@ == selected@[k]@,
            decreases selected@.len() - j,
        {
            same.push(selected[j].clone());
            j = j + 1;
        }
        assert(same@.map_values(|s: String| s@) =~= sv);
        return same;
    }
    if found {
        return out;
    }
    assert(!sv.contains(key@));
    proof {
        lemma_filter_absent(sv, key@);
    }
    assert(out@.map_values(|s: String| s@) == sv);
    if selected.len() < MAX_SELECTED_CATEGORIES {
        out.push(string_from(key));
        assert(out@.map_values(|s: String| s@) =~= sv.push(key@));
    }
    out
}

proof fn lemma_filter_absent(s: Seq<Seq<char>>, key: Seq<char>)
    requires
        !s.contains(key),
    ensures
        s.filter(other_than(key)) == s,
    decreases s.len(),
{
    reveal_with_fuel(Seq::filter, 1);
    if s.len() > 0 {
        assert(!s.drop_last().contains(key)) by {
            if s.drop_last().contains(key) {
                let j = choose|j: int| 0 <= j < s.drop_last().len() && #[trigger] s.drop_last()[j] == key;
                assert(s[j] == key);
            }
        }
        lemma_filter_absent(s.drop_last(), key);
        assert(s.last() != key) by {
            if s.last() == key {
                assert(s[s.len() - 1] == key);
            }
        }
        assert(s.drop_last().push(s.last()) == s);
    }
}

/// Choosing never leaves more than three categories, nor two equal ones.
pub proof fn law_toggle_bounded(selected: Seq<Seq<char>>, key: Seq<char>, locked: bool)
    requires
        selected.len() <= 3,
        selected.no_duplicates(),
    ensures
        toggled(selected, key, locked).len() <= 3,
        toggled(selected, key, locked).no_duplicates(),
{
    if !locked && selected.contains(key) {
        selected.lemma_filter_len(other_than(key));
        lemma_filter_no_duplicates(selected, key);
    } else if !locked && selected.len() < 3 {
        let t = selected.push(key);
        assert forall|i: int, j: int| 0 <= i < t.len() && 0 <= j < t.len() && i != j implies t[i] != t[j] by {
            if j == selected.len() {
                assert(t[i] == selected[i]);
            } else if i == selected.len() {
                assert(t[j] == selected[j]);
            }
        }
    }
}

proof fn lemma_filter_no_duplicates(s: Seq<Seq<char>>, key: Seq<char>)
    requires
        s.no_duplicates(),
    ensures
        s.filter(other_than(key)).no_duplicates(),
    decreases s.len(),
{
    reveal_with_fuel(Seq::filter, 1);
    if s.len() > 0 {
        let u = s.drop_last();
        assert(u.no_duplicates());
        lemma_filter_no_duplicates(u, key);
        let fu = u.filter(other_than(key));
        if s.last() != key {
            assert forall|j: int| 0 <= j < fu.len() implies fu[j] != s.last() by {
                assert(fu.contains(fu[j]));
                u.lemma_filter_contains_rev(other_than(key), fu[j]);
                let q = choose|q: int| 0 <= q < u.len() && #[trigger] u[q] == fu[j];
                assert(s[q] == u[q]);
            }
        }
    }
}

/// What answers a request to prepare the store drum.
#[derive(Clone, Copy, Debug, PartialEq, Eq, Structural)]
pub enum StoreDrawGate {
    /// The day's prizes are all given, or the quota cool-down runs.
    GameClosed,
    /// The player already played today.
    OneGamePerDay,
    /// The server could not be asked.
    ServerError,
    /// No category is chosen.
    MinOneCategory,
    /// More than three categories are chosen.
    MaxThreeCategories,
    /// No store is in the chosen categories.
    NoStore,
    /// The drum can be filled: so many stores, so many black balls.
    Ready { stores: usize, black_balls: usize },
}

/// The answer to preparing the store drum, from what the server said, in
/// the order it is asked: the prize pool (`closed`), whether the player may
/// start (`None` when the server failed), the number of chosen categories,
/// and the number of stores found (`None` when the server failed).
pub open spec fn store_gate(
    closed: bool,
    may_start: Option<bool>,
    selected: nat,
    stores: Option<nat>,
    black_balls: nat,
) -> StoreDrawGate {
    if closed {
        StoreDrawGate::GameClosed
    } else if may_start == Some(false) {
        StoreDrawGate::OneGamePerDay
    } else if may_start is None {
        StoreDrawGate::ServerError
    } else if selected == 0 {
        StoreDrawGate::MinOneCategory
    } else if selected > 3 {
        StoreDrawGate::MaxThreeCategories
    } else {
        match stores {
            None => StoreDrawGate::ServerError,
            Some(n) => if n == 0 {
                StoreDrawGate::NoStore
            } else {
                StoreDrawGate::Ready { stores: n as usize, black_balls: black_balls as usize }
            },
        }
    }
}

pub fn store_draw_gate(
    closed: bool,
    may_start: Option<bool>,
    selected: usize,
    stores: Option<usize>,
    black_balls: usize,
) -> (g: StoreDrawGate)
    ensures
        g == store_gate(
            closed,
            may_start,
            selected as nat,
            match stores { Some(n) => Some(n as nat), None => None },
            black_balls as nat,
        ),
{
    if closed {
        return StoreDrawGate::GameClosed;
    }
    match may_start {
        Some(false) => return StoreDrawGate::OneGamePerDay,
        None => return StoreDrawGate::ServerError,
        Some(true) => {},
    }
    if selected == 0 {
        return StoreDrawGate::MinOneCategory;
    }
    if selected > MAX_SELECTED_CATEGORIES {
        return StoreDrawGate::MaxThreeCategories;
    }
    match stores {
        None => StoreDrawGate::ServerError,
        Some(0) => StoreDrawGate::NoStore,
        Some(n) => StoreDrawGate::Ready { stores: n, black_balls },
    }
}

/// A ball in a drum: a store's number (from 1) or a discount, or black.
#[derive(Clone, Copy, Debug, PartialEq, Eq, Structural)]
pub struct DrawBall {
    pub value: u32,
    pub is_black: bool,
}

/// The discount values of a drum: each range's percent, as many times as
/// its weight, ranges in order.
pub open spec fn weighted_values(ranges: Seq<(u32, u16)>) -> Seq<u32>
    decreases ranges.len(),
{
    if ranges.len() == 0 {
        Seq::empty()
    } else {
        weighted_values(ranges.drop_last()) + Seq::new(ranges.last().1 as nat, |i: int| ranges.last().0)
    }
}

/// `n` black balls.
pub open spec fn black_balls(n: nat) -> Seq<DrawBall> {
    Seq::new(n, |i: int| DrawBall { value: 0, is_black: true })
}

/// The discount drum: the weighted discount balls, then the black balls.
pub open spec fn discount_drum(ranges: Seq<(u32, u16)>, black: nat) -> Seq<DrawBall> {
    weighted_values(ranges).map_values(|v: u32| DrawBall { value: v, is_black: false }) + black_balls(black)
}

pub fn discount_ball_values(rules: &DiscountDrawRules) -> (balls: Vec<DrawBall>)
    requires
        weighted_values(rules.ranges@.map_values(|r: crate::game_rules::DiscountRangeRule| range_view(r))).len()
            + rules.black_balls <= usize::MAX,
    ensures
        balls@ == discount_drum(
            rules.ranges@.map_values(|r: crate::game_rules::DiscountRangeRule| range_view(r)),
            rules.black_balls as nat,
        ),
{
    let ghost rs = rules.ranges@.map_values(|r: crate::game_rules::DiscountRangeRule| range_view(r));
    let mut balls: Vec<DrawBall> = Vec::new();
    let mut k: usize = 0;
    while k < rules.ranges.len()
        invariant
            k <= rules.ranges@.len(),
            rs == rules.ranges@.map_values(|r: crate::game_rules::DiscountRangeRule| range_view(r)),
            balls@ == weighted_values(rs.take(k as int)).map_values(|v: u32| DrawBall { value: v, is_black: false }),
        decreases rules.ranges@.len() - k,
    {
        proof {
            assert(rs.take(k + 1).drop_last() == rs.take(k as int));
        }
        let percent = rules.ranges[k].discount_percent;
        let weight = rules.ranges[k].balls_weight;
        let ghost before = balls@;
        let mut w: u16 = 0;
        while w < weight
            invariant
                w <= weight,
                balls@ == before + Seq::new(w as nat, |i: int| DrawBall { value: percent, is_black: false }),
            decreases weight - w,
        {
            balls.push(DrawBall { value: percent, is_black: false });
            w = w + 1;
            assert(balls@ =~= before + Seq::new(w as nat, |i: int| DrawBall { value: percent, is_black: false }));
        }
        proof {
            assert(rs.take(k + 1).last() == (percent, weight));
            assert(balls@ =~= weighted_values(rs.take(k + 1)).map_values(|v: u32| DrawBall { value: v, is_black: false }));
        }
        k = k + 1;
    }
    assert(rs.take(rs.len() as int) == rs);
    let ghost colored = balls@;
    let mut b: u16 = 0;
    while b < rules.black_balls
        invariant
            b <= rules.black_balls,
            balls@ == colored + black_balls(b as nat),
        decreases rules.black_balls - b,
    {
        balls.push(DrawBall { value: 0, is_black: true });
        b = b + 1;
        assert(balls@ =~= colored + black_balls(b as nat));
    }
    balls
}

/// The store drum: balls numbered 1 to `stores`, then the black balls.
pub open spec fn store_drum(stores: nat, black: nat) -> Seq<DrawBall> {
    Seq::new(stores, |i: int| DrawBall { value: (i + 1) as u32, is_black: false }) + black_balls(black)
}

pub fn store_ball_values(stores: usize, black: usize) -> (balls: Vec<DrawBall>)
    requires
        stores < u32::MAX,
    ensures
        balls@ == store_drum(stores as nat, black as nat),
{
    let mut balls: Vec<DrawBall> = Vec::new();
    let mut i: usize = 0;
    while i < stores
        invariant
            i <= stores < u32::MAX,
            balls@ == Seq::new(i as nat, |j: int| DrawBall { value: (j + 1) as u32, is_black: false }),
        decreases stores - i,
    {
        balls.push(DrawBall { value: (i + 1) as u32, is_black: false });
        i = i + 1;
        assert(balls@ =~= Seq::new(i as nat, |j: int| DrawBall { value: (j + 1) as u32, is_black: false }));
    }
    let ghost colored = balls@;
    let mut b: usize = 0;
    while b < black
        invariant
            b <= black,
            balls@ == colored + black_balls(b as nat),
        decreases black - b,
    {
        balls.push(DrawBall { value: 0, is_black: true });
        b = b + 1;
        assert(balls@ =~= colored + black_balls(b as nat));
    }
    balls
}

/// What a ball drawn from the store drum means.
#[derive(Clone, Copy, Debug, PartialEq, Eq, Structural)]
pub enum StoreBallOutcome {
    /// A black ball, the first: the player draws again.
    SecondChance,
    /// A black ball after the second chance: the game ends without a prize.
    NoPromo,
    /// The store at this position of the drawn stores.
    Store(usize),
}

pub open spec fn store_outcome(ball: DrawBall, second_chance_used: bool) -> StoreBallOutcome {
    if ball.is_black {
        if second_chance_used { StoreBallOutcome::NoPromo } else { StoreBallOutcome::SecondChance }
    } else {
        StoreBallOutcome::Store(if ball.value == 0 { 0 } else { (ball.value - 1) as usize })
    }
}

pub fn store_ball_outcome(ball: DrawBall, second_chance_used: bool) -> (o: StoreBallOutcome)
    ensures
        o == store_outcome(ball, second_chance_used),
{
    if ball.is_black {
        if second_chance_used {
            StoreBallOutcome::NoPromo
        } else {
            StoreBallOutcome::SecondChance
        }
    } else {
        StoreBallOutcome::Store((ball.value as usize).saturating_sub(1))
    }
}

/// A white ball of the store drum names the store it was made for.
pub proof fn law_store_ball_names_its_store(stores: nat, black: nat, i: int)
    requires
        0 <= i < stores,
        stores < u32::MAX,
    ensures
        store_outcome(store_drum(stores, black)[i], false) == StoreBallOutcome::Store(i as usize),
        store_outcome(store_drum(stores, black)[i], true) == StoreBallOutcome::Store(i as usize),
{
}

/// The drum after the ball at `index` is taken out.
pub fn take_ball(balls: &mut Vec<DrawBall>, index: usize) -> (b: Option<DrawBall>)
    ensures
        index < old(balls)@.len() ==> b == Some(old(balls)@[index as int]) && final(balls)@ == old(balls)@.remove(index as int),
        index >= old(balls)@.len() ==> b is None && final(balls)@ == old(balls)@,
{
    if index < balls.len() {
        Some(balls.remove(index))
    } else {
        None
    }
}

/// The discount won with the drawn ball: its value, 0 for a black ball or
/// an empty drum.
pub open spec fn won_discount(ball: Option<DrawBall>) -> u32 {
    match ball {
        Some(b) => if b.is_black { 0 } else { b.value },
        None => 0,
    }
}

pub fn discount_won(ball: Option<DrawBall>) -> (d: u32)
    ensures
        d == won_discount(ball),
{
    match ball {
        Some(b) => if b.is_black { 0 } else { b.value },
        None => 0,
    }
}

/// The key of a player for the one-game-a-day rule: `user:<id>` for a
/// signed-in user, `guest` otherwise.
pub fn player_key(user_id: Option<i64>) -> (k: String)
    ensures
        k@ == match user_id {
            Some(id) => "user:"@ + crate::text::int_text(id as int),
            None => "guest"@,
        },
{
    match user_id {
        Some(id) => {
            let mut out: Vec<char> = Vec::new();
            push_str(&mut out, "user:");
            crate::text::push_int(&mut out, id);
            string_of(&out)
        },
        None => string_from("guest"),
    }
}

/// The translation key of a store category's name, for the keys the game uses.
pub fn category_translation_key(key: &str) -> (r: Option<&'static str>)
    ensures
        r matches Some(s) ==> s@ == crate::site::category_key_text(game_category(key@)->0),
        r is Some <==> game_category(key@) is Some,
{
    match category_of_game_key(key) {
        Some(c) => Some(crate::site::category_label(&c)),
        None => None,
    }
}

/// The category a game key (`HIGH_FASHION`, ...) stands for.
pub open spec fn game_category(key: Seq<char>) -> Option<crate::site::Category> {
    if key == "HIGH_FASHION"@ {
        Some(crate::site::Category::HighFashion)
    } else if key == "LADIES_MENSWEAR"@ {
        Some(crate::site::Category::LadiesMenswear)
    } else if key == "CASUALWEAR"@ {
        Some(crate::site::Category::Casualwear)
    } else if key == "SPORTSWEAR_EQUIPMENT"@ {
        Some(crate::site::Category::SportswearEquipment)
    } else if key == "CHILDRENSWEAR"@ {
        Some(crate::site::Category::Childrenswear)
    } else if key == "FOOTWEAR"@ {
        Some(crate::site::Category::Footwear)
    } else if key == "UNDERWEAR"@ {
        Some(crate::site::Category::Underwear)
    } else if key == "WATCHES_JEWELLERY"@ {
        Some(crate::site::Category::WatchesJewellery)
    } else if key == "ACCESSORIES"@ {
        Some(crate::site::Category::Accessories)
    } else if key == "ELECTRONICS"@ {
        Some(crate::site::Category::Electronics)
    } else if key == "BEAUTY"@ {
        Some(crate::site::Category::Beauty)
    } else if key == "HOME"@ {
        Some(crate::site::Category::Home)
    } else if key == "FOOD_DRINKS"@ {
        Some(crate::site::Category::FoodDrinks)
    } else if key == "SERVICES"@ {
        Some(crate::site::Category::Services)
    } else {
        None
    }
}

pub fn category_of_game_key(key: &str) -> (r: Option<crate::site::Category>)
    ensures
        r == game_category(key@),
{
    if str_eq(key, "HIGH_FASHION") {
        Some(crate::site::Category::HighFashion)
    } else if str_eq(key, "LADIES_MENSWEAR") {
        Some(crate::site::Category::LadiesMenswear)
    } else if str_eq(key, "CASUALWEAR") {
        Some(crate::site::Category::Casualwear)
    } else if str_eq(key, "SPORTSWEAR_EQUIPMENT") {
        Some(crate::site::Category::SportswearEquipment)
    } else if str_eq(key, "CHILDRENSWEAR") {
        Some(crate::site::Category::Childrenswear)
    } else if str_eq(key, "FOOTWEAR") {
        Some(crate::site::Category::Footwear)
    } else if str_eq(key, "UNDERWEAR") {
        Some(crate::site::Category::Underwear)
    } else if str_eq(key, "WATCHES_JEWELLERY") {
        Some(crate::site::Category::WatchesJewellery)
    } else if str_eq(key, "ACCESSORIES") {
        Some(crate::site::Category::Accessories)
    } else if str_eq(key, "ELECTRONICS") {
        Some(crate::site::Category::Electronics)
    } else if str_eq(key, "BEAUTY") {
        Some(crate::site::Category::Beauty)
    } else if str_eq(key, "HOME") {
        Some(crate::site::Category::Home)
    } else if str_eq(key, "FOOD_DRINKS") {
        Some(crate::site::Category::FoodDrinks)
    } else if str_eq(key, "SERVICES") {
        Some(crate::site::Category::Services)
    } else {
        None
    }
}

/// The spins left after a click on the spin button: one fewer while any is
/// left (the button is disabled at none).
pub fn take_spin(remaining: u32) -> (r: u32)
    ensures
        r == if remaining > 0 { remaining - 1 } else { 0 },
{
    if remaining > 0 {
        remaining - 1
    } else {
        0
    }
}

/// The label of the spin button: the count, then "SPIN", plural but for one.
pub open spec fn spins_label_text(remaining: u32) -> Seq<char> {
    decimal(remaining as nat) + " SPIN"@ + if remaining != 1 { "S"@ } else { ""@ }
}

/// The label of the spin button for `remaining` spins.
pub fn spins_label(remaining: u32) -> (s: String)
    ensures
        s@ == spins_label_text(remaining),
{
    let mut out: Vec<char> = Vec::new();
    push_decimal(&mut out, remaining as u64);
    push_str(&mut out, " SPIN");
    if remaining != 1 {
        push_str(&mut out, "S");
    } else {
        proof {
            reveal_strlit("");
            assert(out@ + ""@ =~= out@);
        }
    }
    string_of(&out)
}

/// The last valid day of a voucher won at `now` and valid `validity_days`
/// days: the UTC date of the instant that many days later.
pub fn valid_until_at(now: Instant, validity_days: u16) -> (r: Option<String>)
    requires
        -CHRONO_SECS_BOUND < now.secs < CHRONO_SECS_BOUND,
    ensures
        opt_view(r) == utc_date_text((now.secs + validity_days * 86400) as i64),
{
    let later: i64 = now.secs + (validity_days as i64) * 86400;
    utc_date(later)
}

/// The last valid day of a voucher won now (see `valid_until_at`).
pub fn valid_until_from_now(validity_days: u16) -> (r: Option<String>)
    ensures
        exists|now: Instant|
            -CHRONO_SECS_BOUND < now.secs < CHRONO_SECS_BOUND
            && opt_view(r) == #[trigger] utc_date_text((now.secs + validity_days * 86400) as i64),
{
    let now = now_instant();
    valid_until_at(now, validity_days)
}

/// Who a prize goes to: the signed-in user's name and e-mail, else a guest.
pub fn winner_identity(state: &AuthState) -> (r: (String, String))
    ensures
        match *state {
            AuthState::LoggedIn(u) => r.0@ == u.username@ && r.1@ == u.email@,
            _ => r.0@ == "Guest"@ && r.1@ == "guest@example.com"@,
        },
{
    match state {
        AuthState::LoggedIn(u) => (u.username.clone(), u.email.clone()),
        _ => (string_from("Guest"), string_from("guest@example.com")),
    }
}

/// The text a winner's QR code carries on the draw page.
pub open spec fn winner_qr_text(user: Seq<char>, store: Seq<char>, discount: u32, valid_until: Seq<char>) -> Seq<char> {
    "user="@ + user + ";store="@ + store + ";discount="@ + decimal(discount as nat) + "%;valid_until="@ + valid_until
}

/// The QR text of a win: `user=…;store=…;discount=…%;valid_until=…`.
pub fn winner_qr_payload(user: &str, store: &str, discount: u32, valid_until: &str) -> (s: String)
    ensures
        s@ == winner_qr_text(user@, store@, discount, valid_until@),
{
    let mut out: Vec<char> = Vec::new();
    push_str(&mut out, "user=");
    push_str(&mut out, user);
    push_str(&mut out, ";store=");
    push_str(&mut out, store);
    push_str(&mut out, ";discount=");
    push_decimal(&mut out, discount as u64);
    push_str(&mut out, "%;valid_until=");
    push_str(&mut out, valid_until);
    string_of(&out)
}

} // verus!
