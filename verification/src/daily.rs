//! The day's book-keeping of the prize game: who played today and how many
//! prizes each shop gave today. Everything starts afresh on a new UTC day.

use vstd::prelude::*;
use crate::clock::{format_rfc3339, now_instant, rfc3339_text, utc_date_text, utc_day_key, Instant, CHRONO_SECS_BOUND};
use crate::game::{random_index, shop_views, ShopInfo, ShopView, MAX_DAILY_PRIZES};
use crate::text::{decimal, format_hms, hms_text, push_decimal, str_eq, string_from, string_of, views};

verus! {

/// Prize counts by shop name, as the entries `e` give them.
pub open spec fn entry_map(e: Seq<(String, u32)>) -> Map<Seq<char>, nat>
    decreases e.len(),
{
    if e.len() == 0 {
        Map::empty()
    } else {
        entry_map(e.drop_last()).insert(e.last().0@, e.last().1 as nat)
    }
}

/// No shop name appears twice among the entries.
pub open spec fn distinct_names(e: Seq<(String, u32)>) -> bool {
    forall|i: int, j: int| 0 <= i < j < e.len() ==> (#[trigger] e[i]).0@ != (#[trigger] e[j]).0@
}

pub struct DailyView {
    pub day: Seq<char>,
    pub players: Set<Seq<char>>,
    pub prizes: Map<Seq<char>, nat>,
}

/// The game's state for one UTC day.
pub struct DailyRulesState {
    day_key: String,
    players_who_played: Vec<String>,
    prize_count_by_shop: Vec<(String, u32)>,
}

/// The state brought to `today`: unchanged on the same day, emptied on another.
pub open spec fn on_day(v: DailyView, today: Seq<char>) -> DailyView {
    if v.day == today {
        v
    } else {
        DailyView { day: today, players: Set::empty(), prizes: Map::empty() }
    }
}

/// The text is the UTC date of some instant, as the clock's day key is
/// (`utc_day_key`): a real day, not any text.
pub open spec fn is_day_key(d: Seq<char>) -> bool {
    exists|secs: i64| #[trigger] utc_date_text(secs) == Some(d)
}

/// Prizes a shop gave on the state's day.
pub open spec fn prizes_of(v: DailyView, shop: Seq<char>) -> nat {
    if v.prizes.contains_key(shop) { v.prizes[shop] } else { 0 }
}

/// The player may start a game on `today`: they have not played that day.
pub open spec fn may_start(v: DailyView, player: Seq<char>, today: Seq<char>) -> bool {
    !on_day(v, today).players.contains(player)
}

/// The state after `player` started a game on `today`.
pub open spec fn after_start(v: DailyView, player: Seq<char>, today: Seq<char>) -> DailyView {
    let d = on_day(v, today);
    DailyView { players: d.players.insert(player), ..d }
}

/// A prize may be awarded: no cool-down and fewer vouchers today than the daily maximum.
pub open spec fn may_award(cooldown_active: bool, issued_today: u32) -> bool {
    !cooldown_active && issued_today < MAX_DAILY_PRIZES
}

/// The state after `shop` gave a prize on `today`.
pub open spec fn after_award(v: DailyView, shop: Seq<char>, today: Seq<char>) -> DailyView {
    let d = on_day(v, today);
    DailyView { prizes: d.prizes.insert(shop, prizes_of(d, shop) + 1), ..d }
}

/// Whether a prize may be awarded, from the voucher book's cool-down and today's count.
pub fn can_award_prize_today(cooldown_active: bool, issued_today: u32) -> (b: bool)
    ensures
        b == may_award(cooldown_active, issued_today),
{
    !cooldown_active && issued_today < MAX_DAILY_PRIZES
}

proof fn lemma_entry_map_contains(e: Seq<(String, u32)>, name: Seq<char>)
    ensures
        entry_map(e).contains_key(name) <==> exists|i: int| 0 <= i < e.len() && (#[trigger] e[i]).0@ == name,
    decreases e.len(),
{
    if e.len() > 0 {
        lemma_entry_map_contains(e.drop_last(), name);
        if exists|i: int| 0 <= i < e.len() && (#[trigger] e[i]).0@ == name {
            let i = choose|i: int| 0 <= i < e.len() && (#[trigger] e[i]).0@ == name;
            if i < e.len() - 1 {
                assert(e.drop_last()[i] == e[i]);
            }
        }
        if exists|i: int| 0 <= i < e.drop_last().len() && (#[trigger] e.drop_last()[i]).0@ == name {
            let i = choose|i: int| 0 <= i < e.drop_last().len() && (#[trigger] e.drop_last()[i]).0@ == name;
            assert(e[i] == e.drop_last()[i]);
        }
    }
}

proof fn lemma_entry_map_at(e: Seq<(String, u32)>, k: int)
    requires
        distinct_names(e),
        0 <= k < e.len(),
    ensures
        entry_map(e).contains_key(e[k].0@),
        entry_map(e)[e[k].0@] == e[k].1 as nat,
    decreases e.len(),
{
    if k < e.len() - 1 {
        assert(e.drop_last()[k] == e[k]);
        assert(distinct_names(e.drop_last())) by {
            assert forall|i: int, j: int| 0 <= i < j < e.drop_last().len() implies (#[trigger] e.drop_last()[i]).0@
                != (#[trigger] e.drop_last()[j]).0@ by {
                assert(e.drop_last()[i] == e[i]);
                assert(e.drop_last()[j] == e[j]);
            }
        }
        lemma_entry_map_at(e.drop_last(), k);
        assert(e[k].0@ != e.last().0@);
    }
}

proof fn lemma_entry_map_update(e: Seq<(String, u32)>, k: int, entry: (String, u32))
    requires
        distinct_names(e),
        0 <= k < e.len(),
        entry.0@ == e[k].0@,
    ensures
        entry_map(e.update(k, entry)) == entry_map(e).insert(entry.0@, entry.1 as nat),
        distinct_names(e.update(k, entry)),
    decreases e.len(),
{
    let u = e.update(k, entry);
    assert(distinct_names(u)) by {
        assert forall|i: int, j: int| 0 <= i < j < u.len() implies (#[trigger] u[i]).0@ != (#[trigger] u[j]).0@ by {
            assert(e[i].0@ != e[j].0@);
        }
    }
    if k == e.len() - 1 {
        assert(u.drop_last() == e.drop_last());
        assert(entry_map(u) =~= entry_map(e).insert(entry.0@, entry.1 as nat));
    } else {
        let d = e.drop_last();
        assert(distinct_names(d)) by {
            assert forall|i: int, j: int| 0 <= i < j < d.len() implies (#[trigger] d[i]).0@ != (#[trigger] d[j]).0@ by {
                assert(d[i] == e[i]);
                assert(d[j] == e[j]);
            }
        }
        lemma_entry_map_update(d, k, entry);
        assert(u.drop_last() == d.update(k, entry));
        assert(e.last().0@ != entry.0@);
        assert(entry_map(u) =~= entry_map(e).insert(entry.0@, entry.1 as nat));
    }
}

impl View for DailyRulesState {
    type V = DailyView;

    closed spec fn view(&self) -> DailyView {
        DailyView {
            day: self.day_key@,
            players: views(self.players_who_played@).to_set(),
            prizes: entry_map(self.prize_count_by_shop@),
        }
    }
}

impl DailyRulesState {
    /// The names are each kept once.
    pub closed spec fn wf(&self) -> bool {
        distinct_names(self.prize_count_by_shop@)
    }

    /// A state for no day yet, with nobody and nothing counted.
    pub fn new() -> (s: Self)
        ensures
            s.wf(),
            s@.day == Seq::<char>::empty(),
            s@.players == Set::<Seq<char>>::empty(),
            s@.prizes == Map::<Seq<char>, nat>::empty(),
    {
        let s = DailyRulesState {
            day_key: String::new(),
            players_who_played: Vec::new(),
            prize_count_by_shop: Vec::new(),
        };
        assert(views(s.players_who_played@).to_set() =~= Set::<Seq<char>>::empty());
        s
    }

    /// Brings the state to `today`, emptying it when the day changed.
    pub fn ensure_current_day(&mut self, today: &str)
        requires
            old(self).wf(),
        ensures
            final(self).wf(),
            final(self)@ == on_day(old(self)@, today@),
    {
        if !str_eq(self.day_key.as_str(), today) {
            self.day_key = string_from(today);
            self.players_who_played = Vec::new();
            self.prize_count_by_shop = Vec::new();
            assert(views(self.players_who_played@).to_set() =~= Set::<Seq<char>>::empty());
            assert(entry_map(self.prize_count_by_shop@) =~= Map::<Seq<char>, nat>::empty());
        }
    }

    fn has_played(&self, player: &str) -> (b: bool)
        ensures
            b == self@.players.contains(player@),
    {
        let mut i: usize = 0;
        while i < self.players_who_played.len()
            invariant
                i <= self.players_who_played@.len(),
                forall|j: int| 0 <= j < i ==> self.players_who_played@[j]@ != player@,
            decreases self.players_who_played@.len() - i,
        {
            if str_eq(self.players_who_played[i].as_str(), player) {
                assert(views(self.players_who_played@)[i as int] == player@);
                assert(views(self.players_who_played@).contains(player@));
                return true;
            }
            i = i + 1;
        }
        assert(!views(self.players_who_played@).contains(player@)) by {
            if views(self.players_who_played@).contains(player@) {
                let j = choose|j: int| 0 <= j < views(self.players_who_played@).len() && views(self.players_who_played@)[j] == player@;
                assert(self.players_who_played@[j]@ == player@);
            }
        }
        false
    }

    /// Whether `player_key` may start a game on `today` (the state is brought to `today`).
    pub fn can_start_game_on(&mut self, player_key: &str, today: &str) -> (b: bool)
        requires
            old(self).wf(),
        ensures
            final(self).wf(),
            final(self)@ == on_day(old(self)@, today@),
            b == may_start(old(self)@, player_key@, today@),
    {
        self.ensure_current_day(today);
        !self.has_played(player_key)
    }

    /// Records that `player_key` started a game on `today`.
    pub fn register_game_start_on(&mut self, player_key: &str, today: &str)
        requires
            old(self).wf(),
        ensures
            final(self).wf(),
            final(self)@ == after_start(old(self)@, player_key@, today@),
    {
        self.ensure_current_day(today);
        let ghost before = views(self.players_who_played@);
        if !self.has_played(player_key) {
            self.players_who_played.push(string_from(player_key));
            proof {
                assert(views(self.players_who_played@) =~= before.push(player_key@));
                before.lemma_push_to_set_commute(player_key@);
            }
        } else {
            assert(before.to_set().insert(player_key@) =~= before.to_set());
        }
    }

    /// Whether `player_key` may start a game today (UTC).
    pub fn can_start_game_today(&mut self, player_key: &str) -> (b: bool)
        requires
            old(self).wf(),
        ensures
            final(self).wf(),
            exists|today: Seq<char>|
                is_day_key(today) && final(self)@ == on_day(old(self)@, today) && b == #[trigger] may_start(old(self)@, player_key@, today),
            is_day_key(final(self)@.day),
    {
        let today = utc_day_key();
        self.can_start_game_on(player_key, today.as_str())
    }

    /// Records that `player_key` started a game today (UTC).
    pub fn register_game_start(&mut self, player_key: &str)
        requires
            old(self).wf(),
        ensures
            final(self).wf(),
            exists|today: Seq<char>| is_day_key(today) && final(self)@ == #[trigger] after_start(old(self)@, player_key@, today),
            is_day_key(final(self)@.day),
    {
        let today = utc_day_key();
        self.register_game_start_on(player_key, today.as_str());
    }

    fn find_shop(&self, shop: &str) -> (r: Option<usize>)
        requires
            self.wf(),
        ensures
            match r {
                Some(k) => k < self.prize_count_by_shop@.len() && self.prize_count_by_shop@[k as int].0@ == shop@
                    && self@.prizes.contains_key(shop@) && self@.prizes[shop@] == self.prize_count_by_shop@[k as int].1,
                None => !self@.prizes.contains_key(shop@),
            },
    {
        let mut i: usize = 0;
        while i < self.prize_count_by_shop.len()
            invariant
                self.wf(),
                i <= self.prize_count_by_shop@.len(),
                forall|j: int| 0 <= j < i ==> self.prize_count_by_shop@[j].0@ != shop@,
            decreases self.prize_count_by_shop@.len() - i,
        {
            if str_eq(self.prize_count_by_shop[i].0.as_str(), shop) {
                proof {
                    lemma_entry_map_at(self.prize_count_by_shop@, i as int);
                }
                return Some(i);
            }
            i = i + 1;
        }
        proof {
            lemma_entry_map_contains(self.prize_count_by_shop@, shop@);
        }
        None
    }

    /// Prizes `shop` gave on the state's day.
    pub fn prize_count(&self, shop: &str) -> (n: u32)
        requires
            self.wf(),
        ensures
            n == prizes_of(self@, shop@),
    {
        match self.find_shop(shop) {
            Some(k) => self.prize_count_by_shop[k].1,
            None => 0,
        }
    }

    /// The candidates that gave the fewest prizes on `today`, in their order
    /// (the state is brought to `today`).
    pub fn least_awarded_on(&mut self, candidates: &Vec<ShopInfo>, today: &str) -> (r: Vec<ShopInfo>)
        requires
            old(self).wf(),
        ensures
            final(self).wf(),
            final(self)@ == on_day(old(self)@, today@),
            shop_views(r@) == least_awarded(shop_views(candidates@), final(self)@),
    {
        self.ensure_current_day(today);
        let ghost cs = shop_views(candidates@);
        let mut min_count: u32 = 0;
        let mut i: usize = 0;
        while i < candidates.len()
            invariant
                self.wf(),
                cs == shop_views(candidates@),
                i <= candidates@.len(),
                min_count == min_prizes(cs.take(i as int), self@),
            decreases candidates@.len() - i,
        {
            let c = self.prize_count(candidates[i].name.as_str());
            proof {
                assert(cs.take(i + 1).drop_last() == cs.take(i as int));
            }
            if i == 0 || c < min_count {
                min_count = c;
            }
            i = i + 1;
        }
        assert(cs.take(candidates@.len() as int) == cs);
        let mut best: Vec<ShopInfo> = Vec::new();
        let mut i: usize = 0;
        while i < candidates.len()
            invariant
                self.wf(),
                cs == shop_views(candidates@),
                i <= candidates@.len(),
                min_count == min_prizes(cs, self@),
                shop_views(best@) == cs.take(i as int).filter(|s: ShopView| prizes_of(self@, s.name) == min_count),
            decreases candidates@.len() - i,
        {
            let c = &candidates[i];
            proof {
                assert(cs.take(i + 1).drop_last() == cs.take(i as int));
                reveal_with_fuel(Seq::filter, 1);
            }
            if self.prize_count(c.name.as_str()) == min_count {
                best.push(ShopInfo { id: c.id, name: c.name.clone(), category: c.category.clone() });
                assert(shop_views(best@) =~= cs.take(i as int + 1).filter(|s: ShopView| prizes_of(self@, s.name) == min_count));
            } else {
                assert(shop_views(best@) =~= cs.take(i as int + 1).filter(|s: ShopView| prizes_of(self@, s.name) == min_count));
            }
            i = i + 1;
        }
        best
    }

    /// A random one of the candidates that gave the fewest prizes today, so
    /// that prizes spread over the shops; `None` without candidates.
    pub fn choose_distributed_shop(&mut self, candidates: &Vec<ShopInfo>) -> (r: Option<ShopInfo>)
        requires
            old(self).wf(),
        ensures
            final(self).wf(),
            candidates@.len() == 0 ==> r is None && final(self)@ == old(self)@,
            candidates@.len() > 0 ==> (r matches Some(s) && exists|today: Seq<char>| {
                &&& is_day_key(today)
                &&& final(self)@ == #[trigger] on_day(old(self)@, today)
                &&& least_awarded(shop_views(candidates@), final(self)@).contains(s@)
            }),
    {
        if candidates.len() == 0 {
            return None;
        }
        let today = utc_day_key();
        let best = self.least_awarded_on(candidates, today.as_str());
        proof {
            lemma_least_awarded_nonempty(shop_views(candidates@), self@);
        }
        let k = random_index(best.len());
        let c = &best[k];
        let r = ShopInfo { id: c.id, name: c.name.clone(), category: c.category.clone() };
        assert(shop_views(best@)[k as int] == r@);
        Some(r)
    }

    /// Counts a prize for `shop_name` on `today` when one may be awarded (no
    /// cool-down and fewer vouchers issued today than the maximum); tells
    /// whether it was counted.
    pub fn register_prize_award_on(&mut self, shop_name: &str, today: &str, cooldown_active: bool, issued_today: u32) -> (b: bool)
        requires
            old(self).wf(),
            prizes_of(on_day(old(self)@, today@), shop_name@) < u32::MAX,
        ensures
            final(self).wf(),
            b == may_award(cooldown_active, issued_today),
            b ==> final(self)@ == after_award(old(self)@, shop_name@, today@),
            !b ==> final(self)@ == old(self)@,
    {
        if cooldown_active {
            return false;
        }
        if issued_today >= MAX_DAILY_PRIZES {
            return false;
        }
        self.ensure_current_day(today);
        match self.find_shop(shop_name) {
            Some(k) => {
                let n = self.prize_count_by_shop[k].1;
                let entry = (self.prize_count_by_shop[k].0.clone(), n + 1);
                proof {
                    lemma_entry_map_update(self.prize_count_by_shop@, k as int, entry);
                }
                self.prize_count_by_shop.set(k, entry);
            },
            None => {
                let ghost before = self.prize_count_by_shop@;
                self.prize_count_by_shop.push((string_from(shop_name), 1));
                proof {
                    assert(self.prize_count_by_shop@.drop_last() == before);
                    lemma_entry_map_contains(before, shop_name@);
                    assert forall|i: int, j: int| 0 <= i < j < self.prize_count_by_shop@.len() implies
                        (#[trigger] self.prize_count_by_shop@[i]).0@ != (#[trigger] self.prize_count_by_shop@[j]).0@ by {
                        if j == before.len() {
                            assert(self.prize_count_by_shop@[i] == before[i]);
                        } else {
                            assert(self.prize_count_by_shop@[i] == before[i]);
                            assert(self.prize_count_by_shop@[j] == before[j]);
                        }
                    }
                }
            },
        }
        true
    }

    /// Counts a prize for `shop_name` today (UTC) when one may be awarded.
    pub fn register_prize_award(&mut self, shop_name: &str, cooldown_active: bool, issued_today: u32) -> (b: bool)
        requires
            old(self).wf(),
            prizes_of(old(self)@, shop_name@) < u32::MAX,
        ensures
            final(self).wf(),
            b == may_award(cooldown_active, issued_today),
            b ==> exists|today: Seq<char>| is_day_key(today) && final(self)@ == #[trigger] after_award(old(self)@, shop_name@, today),
            !b ==> final(self)@ == old(self)@,
    {
        let today = utc_day_key();
        self.register_prize_award_on(shop_name, today.as_str(), cooldown_active, issued_today)
    }
}

/// The fewest prizes given by any of `cs` (0 without candidates).
pub open spec fn min_prizes(cs: Seq<ShopView>, v: DailyView) -> nat
    decreases cs.len(),
{
    if cs.len() == 0 {
        0
    } else if cs.len() == 1 {
        prizes_of(v, cs[0].name)
    } else {
        let m = min_prizes(cs.drop_last(), v);
        let c = prizes_of(v, cs.last().name);
        if c < m { c } else { m }
    }
}

/// The candidates that gave the fewest prizes, in order.
pub open spec fn least_awarded(cs: Seq<ShopView>, v: DailyView) -> Seq<ShopView> {
    cs.filter(|s: ShopView| prizes_of(v, s.name) == min_prizes(cs, v))
}

proof fn lemma_min_attained(cs: Seq<ShopView>, v: DailyView)
    requires
        cs.len() > 0,
    ensures
        exists|i: int| 0 <= i < cs.len() && prizes_of(v, (#[trigger] cs[i]).name) == min_prizes(cs, v),
    decreases cs.len(),
{
    if cs.len() == 1 {
        assert(prizes_of(v, cs[0].name) == min_prizes(cs, v));
    } else {
        lemma_min_attained(cs.drop_last(), v);
        let i = choose|i: int| 0 <= i < cs.drop_last().len() && prizes_of(v, (#[trigger] cs.drop_last()[i]).name) == min_prizes(cs.drop_last(), v);
        assert(cs.drop_last()[i] == cs[i]);
        if prizes_of(v, cs.last().name) < min_prizes(cs.drop_last(), v) {
            assert(prizes_of(v, cs[cs.len() - 1].name) == min_prizes(cs, v));
        } else {
            assert(prizes_of(v, cs[i].name) == min_prizes(cs, v));
        }
    }
}

proof fn lemma_least_awarded_nonempty(cs: Seq<ShopView>, v: DailyView)
    requires
        cs.len() > 0,
    ensures
        least_awarded(cs, v).len() > 0,
{
    lemma_min_attained(cs, v);
    let i = choose|i: int| 0 <= i < cs.len() && prizes_of(v, (#[trigger] cs[i]).name) == min_prizes(cs, v);
    let f = |s: ShopView| prizes_of(v, s.name) == min_prizes(cs, v);
    cs.lemma_filter_contains(f, i);
    let fl = cs.filter(f);
    assert(fl.contains(cs[i]));
    assert(fl == least_awarded(cs, v));
}

proof fn lemma_least_awarded_member(cs: Seq<ShopView>, v: DailyView, x: ShopView) -> (k: int)
    requires
        least_awarded(cs, v).contains(x),
    ensures
        0 <= k < cs.len(),
        cs[k] == x,
{
    let f = |s: ShopView| prizes_of(v, s.name) == min_prizes(cs, v);
    let fl = cs.filter(f);
    assert(fl == least_awarded(cs, v));
    cs.lemma_filter_contains_rev(f, x);
    choose|k: int| 0 <= k < cs.len() && cs[k] == x
}

/// A player who started a game cannot start another the same day; other
/// players are not affected.
pub proof fn law_one_game_per_day(v: DailyView, player: Seq<char>, other: Seq<char>, today: Seq<char>)
    ensures
        !may_start(after_start(v, player, today), player, today),
        other != player ==> may_start(after_start(v, player, today), other, today) == may_start(v, other, today),
{
}

/// After a player starts a game, the state is on the day used, and asking
/// again on that day refuses the player: a second game needs another day.
pub proof fn law_started_player_refused_on_state_day(v: DailyView, player: Seq<char>, today: Seq<char>)
    ensures
        after_start(v, player, today).day == today,
        !may_start(after_start(v, player, today), player, after_start(v, player, today).day),
        after_start(v, player, today).day != v.day ==> after_start(v, player, today).players == set![player],
{
    let w = after_start(v, player, today);
    if today != v.day {
        assert(w.players =~= set![player]);
    }
}

/// On a new day every player may start a game again.
pub proof fn law_new_day_resets(v: DailyView, player: Seq<char>, today: Seq<char>)
    requires
        v.day != today,
    ensures
        may_start(v, player, today),
        prizes_of(on_day(v, today), player) == 0,
{
}

/// An awarded prize raises the shop's count by one and leaves the other shops'.
pub proof fn law_award_counts(v: DailyView, shop: Seq<char>, other: Seq<char>, today: Seq<char>)
    ensures
        prizes_of(after_award(v, shop, today), shop) == prizes_of(on_day(v, today), shop) + 1,
        other != shop ==> prizes_of(after_award(v, shop, today), other) == prizes_of(on_day(v, today), other),
{
}

/// The shop drawn among the least awarded gave no more prizes than any candidate.
pub proof fn law_least_awarded_minimal(cs: Seq<ShopView>, v: DailyView, s: ShopView, c: int)
    requires
        least_awarded(cs, v).contains(s),
        0 <= c < cs.len(),
    ensures
        prizes_of(v, s.name) <= prizes_of(v, cs[c].name),
{
    let f = |x: ShopView| prizes_of(v, x.name) == min_prizes(cs, v);
    lemma_min_below(cs, v, c);
    assert(f(s)) by {
        broadcast use vstd::seq_lib::group_filter_ensures;
        let j = choose|j: int| 0 <= j < cs.filter(f).len() && cs.filter(f)[j] == s;
        cs.lemma_filter_pred(f, j);
    }
}

proof fn lemma_min_below(cs: Seq<ShopView>, v: DailyView, c: int)
    requires
        0 <= c < cs.len(),
    ensures
        min_prizes(cs, v) <= prizes_of(v, cs[c].name),
    decreases cs.len(),
{
    if cs.len() > 1 && c < cs.len() - 1 {
        lemma_min_below(cs.drop_last(), v, c);
        assert(cs.drop_last()[c] == cs[c]);
    }
}

/// The prize pool shown to players: prizes given today, the daily maximum,
/// and the end of the cool-down when one runs.
pub struct DailyPrizePoolSnapshot {
    pub distributed: u32,
    pub max: u32,
    pub cooldown_active: bool,
    pub cooldown_until_utc: Option<String>,
}

/// The prize pool for `issued_today` vouchers and the cool-down end `cooldown_until`.
pub fn daily_prize_pool_snapshot(issued_today: u32, cooldown_until: Option<Instant>) -> (r: DailyPrizePoolSnapshot)
    ensures
        r.distributed == issued_today,
        r.max == MAX_DAILY_PRIZES,
        r.cooldown_active == cooldown_until is Some,
        match cooldown_until {
            Some(i) => match r.cooldown_until_utc {
                Some(t) => rfc3339_text(i.secs, i.nanos) == Some(t@),
                None => rfc3339_text(i.secs, i.nanos) is None,
            },
            None => r.cooldown_until_utc is None,
        },
{
    let text = match cooldown_until {
        Some(i) => format_rfc3339(i),
        None => None,
    };
    DailyPrizePoolSnapshot {
        distributed: issued_today,
        max: MAX_DAILY_PRIZES,
        cooldown_active: cooldown_until.is_some(),
        cooldown_until_utc: text,
    }
}

/// Whole seconds from the instant (`secs`, `nanos`) to the next UTC midnight.
pub open spec fn seconds_to_midnight(secs: int, nanos: int) -> int {
    86400 - secs % 86400 - if nanos > 0 { 1int } else { 0int }
}

pub fn seconds_until_next_utc_midnight(now: Instant) -> (r: u64)
    ensures
        r == seconds_to_midnight(now.secs as int, now.nanos as int),
        r <= 86400,
{
    let sod: u64 = if now.secs >= 0 {
        (now.secs as u64) % 86400
    } else {
        let back = ((-(now.secs + 1)) as u64) % 86400;
        assert(((now.secs as int) % 86400) == 86399 - back) by (nonlinear_arith)
            requires
                now.secs < 0,
                back == (-(now.secs as int + 1)) % 86400;
        86399 - back
    };
    86400 - sod - if now.nanos > 0 { 1 } else { 0 }
}

/// Seconds until the daily quota and the game reset (next UTC midnight):
/// the countdown from the instant the clock gives at the call.
pub fn daily_prize_reset_countdown_secs() -> (r: u64)
    ensures
        r <= 86400,
        exists|now: Instant|
            -CHRONO_SECS_BOUND < now.secs < CHRONO_SECS_BOUND
            && r == #[trigger] seconds_to_midnight(now.secs as int, now.nanos as int),
{
    let now = now_instant();
    let r = seconds_until_next_utc_midnight(now);
    assert(r == seconds_to_midnight(now.secs as int, now.nanos as int));
    r
}

/// The countdown to the next reset as `hh:mm:ss`.
pub fn format_daily_prize_reset_countdown_hms() -> (r: String)
    ensures
        exists|now: Instant|
            -CHRONO_SECS_BOUND < now.secs < CHRONO_SECS_BOUND
            && r@ == hms_text(#[trigger] seconds_to_midnight(now.secs as int, now.nanos as int) as nat),
{
    format_hms(daily_prize_reset_countdown_secs())
}

/// Whole seconds from `now` to `target`, none when `target` has passed.
pub open spec fn seconds_until(target: Instant, now: Instant) -> int {
    let d = crate::clock::nanos_of(target) - crate::clock::nanos_of(now);
    if d > 0 { d / 1_000_000_000 } else { 0 }
}

pub fn seconds_between(target: Instant, now: Instant) -> (r: u64)
    requires
        -CHRONO_SECS_BOUND < target.secs < CHRONO_SECS_BOUND,
        -CHRONO_SECS_BOUND < now.secs < CHRONO_SECS_BOUND,
    ensures
        r == seconds_until(target, now),
{
    let diff: i128 = target.secs as i128 - now.secs as i128;
    assert(-20_000_000_000_000_000_000_000i128 <= diff * 1_000_000_000 <= 20_000_000_000_000_000_000_000i128) by (nonlinear_arith)
        requires
            -20_000_000_000_000i128 <= diff <= 20_000_000_000_000i128;
    let d: i128 = diff * 1_000_000_000 + (target.nanos as i128 - now.nanos as i128);
    if d > 0 {
        assert(d / 1_000_000_000 <= u64::MAX) by (nonlinear_arith)
            requires
                0 < d <= 20_000_000_000_000_000_000_005i128;
        (d / 1_000_000_000) as u64
    } else {
        0
    }
}

/// The time left at `now` until the RFC 3339 instant written `target` as
/// `hh:mm:ss` (zero once it has passed); `None` when the text is not RFC 3339.
pub open spec fn remaining_hms(target: Seq<char>, now: Instant) -> Option<Seq<char>> {
    match crate::clock::rfc3339_instant(target) {
        None => None,
        Some(t) => Some(hms_text(seconds_until(Instant { secs: t.0, nanos: t.1 }, now) as nat)),
    }
}

/// The time left at `now` until the RFC 3339 instant `target_rfc3339` as
/// `hh:mm:ss` (zero once it has passed); `None` when the text is not RFC 3339.
pub fn format_remaining_hms_at(target_rfc3339: &str, now: Instant) -> (r: Option<String>)
    requires
        -CHRONO_SECS_BOUND < now.secs < CHRONO_SECS_BOUND,
    ensures
        crate::text::opt_view(r) == remaining_hms(target_rfc3339@, now),
{
    match crate::clock::parse_rfc3339(target_rfc3339) {
        Some(target) => Some(format_hms(seconds_between(target, now))),
        None => None,
    }
}

/// The time left until the RFC 3339 instant `target_rfc3339` as `hh:mm:ss`
/// (zero once it has passed); `None` when the text is not RFC 3339.
pub fn format_remaining_to_timestamp_hms(target_rfc3339: &str) -> (r: Option<String>)
    ensures
        r is Some <==> crate::clock::rfc3339_instant(target_rfc3339@) is Some,
        exists|now: Instant|
            -CHRONO_SECS_BOUND < now.secs < CHRONO_SECS_BOUND
            && #[trigger] remaining_hms(target_rfc3339@, now) == crate::text::opt_view(r),
{
    format_remaining_hms_at(target_rfc3339, now_instant())
}

/// What the ticker shows of the prize pool: prizes given (all of them while
/// the cool-down runs) out of the maximum; a dash out of 10 before the pool
/// is known.
pub fn pool_display(pool: &Option<DailyPrizePoolSnapshot>) -> (r: (String, String, bool))
    ensures
        match pool {
            Some(s) => r.0@ == decimal((if s.cooldown_active { s.max } else { s.distributed }) as nat)
                && r.1@ == decimal(s.max as nat) && r.2 == s.cooldown_active,
            None => r.0@ == "\u{2014}"@ && r.1@ == "10"@ && !r.2,
        },
{
    match pool {
        Some(s) => {
            let shown = if s.cooldown_active { s.max } else { s.distributed };
            let mut a: Vec<char> = Vec::new();
            push_decimal(&mut a, shown as u64);
            let mut b: Vec<char> = Vec::new();
            push_decimal(&mut b, s.max as u64);
            (string_of(&a), string_of(&b), s.cooldown_active)
        },
        None => (string_from("\u{2014}"), string_from("10"), false),
    }
}

/// The shops named `names` as draw candidates: numbered from 1, no category.
pub open spec fn named_candidates(names: Seq<Seq<char>>) -> Seq<ShopView> {
    Seq::new(names.len(), |i: int| ShopView { id: (i + 1) as u32, name: names[i], category: Seq::empty() })
}

impl DailyRulesState {
    /// The shop that receives a prize among the shops named `names`: one of
    /// those that gave the fewest prizes today; `None` without names.
    pub fn choose_distributed_shop_name(&mut self, names: &Vec<String>) -> (r: Option<String>)
        requires
            old(self).wf(),
            names@.len() < u32::MAX,
        ensures
            final(self).wf(),
            names@.len() == 0 ==> r is None && final(self)@ == old(self)@,
            names@.len() > 0 ==> (r matches Some(n) && exists|today: Seq<char>, k: int| {
                &&& final(self)@ == #[trigger] on_day(old(self)@, today)
                &&& 0 <= k < names@.len()
                &&& n@ == names@[k]@
                &&& least_awarded(named_candidates(views(names@)), final(self)@).contains(#[trigger] named_candidates(views(names@))[k])
            }),
    {
        if names.len() == 0 {
            return None;
        }
        let mut candidates: Vec<ShopInfo> = Vec::new();
        let mut i: usize = 0;
        while i < names.len()
            invariant
                i <= names@.len() < u32::MAX,
                candidates@.len() == i,
                forall|j: int| 0 <= j < i ==> #[trigger] candidates@[j]@ == named_candidates(views(names@))[j],
            decreases names@.len() - i,
        {
            candidates.push(ShopInfo { id: (i + 1) as u32, name: names[i].clone(), category: String::new() });
            proof {
                assert(candidates@[i as int]@ == named_candidates(views(names@))[i as int]);
            }
            i = i + 1;
        }
        assert(shop_views(candidates@) =~= named_candidates(views(names@)));
        match self.choose_distributed_shop(&candidates) {
            Some(s) => {
                proof {
                    let today = choose|today: Seq<char>| {
                        &&& self@ == #[trigger] on_day(old(self)@, today)
                        &&& least_awarded(shop_views(candidates@), self@).contains(s@)
                    };
                    let k = lemma_least_awarded_member(shop_views(candidates@), self@, s@);
                    assert(named_candidates(views(names@))[k] == s@);
                    assert(names@[k]@ == s.name@);
                }
                Some(s.name)
            },
            None => None,
        }
    }
}

} // verus!
