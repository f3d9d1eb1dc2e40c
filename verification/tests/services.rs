use foxtown::auth::{
    admin_page_redirect, guard_redirect, AdminRedirect, OthersGo,
    check_login, claims_for, jwt_secret, registration_error, require_role, role_from_claim, session_after_check,
    token_expiry, user_from_claims, winner_public_label, AccountRow, AuthError, AuthState, Role, TokenCheck, UserDto,
};
use foxtown::clock::Instant;
use foxtown::daily::{daily_prize_pool_snapshot, seconds_between, seconds_until_next_utc_midnight, DailyRulesState};
use foxtown::draw::{
    valid_until_at, valid_until_from_now, winner_identity, winner_qr_payload,
    category_translation_key, discount_ball_values, discount_won, draw_steps_from_seconds, player_key,
    store_ball_outcome, store_ball_values, store_draw_gate, take_ball, toggle_category, DrawBall, StoreBallOutcome,
    StoreDrawGate,
};
use foxtown::game_rules::{clamp_game_rules, default_game_rules, store_black_ball_count_for_shop_count};
use foxtown::order::{stable_order, SortKey};
use foxtown::parking::{default_state, to_snapshot, validate_state, ParkingError};
use foxtown::parking_sim::BitwiseFakeAdapter;
use foxtown::text::format_hms;
use foxtown::visits::{
    has_enough_real_data, hour_slot, mix32, per_hour_counts, simulated_hourly_histogram, sliding_web_affluence,
    today_physical_recommendation, Profile,
};

fn user(role: Role) -> UserDto {
    UserDto {
        id: 7,
        username: "jean".to_string(),
        email: "jean@example.com".to_string(),
        first_name: "Jean".to_string(),
        last_name: "Dupont".to_string(),
        role,
    }
}

#[test]
fn winner_label_uses_names_then_user_name() {
    assert_eq!(winner_public_label("  jEAN ", "dupont", "x"), "Jean D.");
    assert_eq!(winner_public_label("", "", "marco rossi"), "Marco R.");
    assert_eq!(winner_public_label("", "", "  elena  "), "Elena E.");
    assert_eq!(winner_public_label(" ", "\t", "   "), "User U.");
    assert_eq!(winner_public_label("anna", "", "x"), "Anna U.");
}

#[test]
fn protected_actions_check_the_role() {
    assert_eq!(require_role(None, &Role::Editor).err(), Some(AuthError::Unauthorized));
    assert_eq!(require_role(Some(user(Role::Editor)), &Role::Admin).err(), Some(AuthError::Forbidden));
    assert_eq!(require_role(Some(user(Role::Editor)), &Role::Editor).map(|u| u.id).ok(), Some(7));
    assert_eq!(require_role(Some(user(Role::Admin)), &Role::Admin).map(|u| u.id).ok(), Some(7));
    assert_eq!(AuthError::Forbidden.message(), "Forbidden: insufficient permissions");
    assert_eq!(AuthError::Unauthorized.message(), "Unauthorized: invalid or expired token");
}

#[test]
fn claims_carry_the_user_and_read_back() {
    let c = claims_for(&user(Role::Admin), 123);
    assert_eq!(c.role, "Admin");
    assert_eq!(c.exp, 123);
    let u = user_from_claims(c);
    assert_eq!(u.role, Role::Admin);
    assert_eq!(u.username, "jean");
    assert_eq!(role_from_claim("Editor"), Role::Editor);
    assert_eq!(role_from_claim("admin"), Role::Editor);
    assert_eq!(token_expiry(1_000), 1_000 + 30 * 86_400);
    assert_eq!(jwt_secret(None), "dev-secret-change-in-production");
    assert_eq!(jwt_secret(Some("s3".to_string())), "s3");
}

#[test]
fn login_accepts_only_the_right_password() {
    let hash = foxtown::auth::hash_password("admin").expect("hash");
    let row = || AccountRow {
        id: 1,
        username: "admin".to_string(),
        email: "admin@foxtown.local".to_string(),
        first_name: "Admin".to_string(),
        last_name: "User".to_string(),
        password_hash: hash.clone(),
        role: "Admin".to_string(),
    };
    let ok = check_login(Some(row()), "admin").ok().expect("logged in");
    assert_eq!(ok.role, Role::Admin);
    assert_eq!(check_login(Some(row()), "nope").err(), Some(AuthError::InvalidCredentials));
    assert_eq!(check_login(None, "admin").err(), Some(AuthError::InvalidCredentials));
}

#[test]
fn sign_up_errors_are_told_plainly() {
    assert_eq!(registration_error("UNIQUE constraint failed: users.email"), "Username or email already taken");
    assert_eq!(registration_error("disk full"), "disk full");
}

#[test]
fn session_follows_the_token_check() {
    let (s, clear) = session_after_check(TokenCheck::NoToken);
    assert!(matches!(s, AuthState::LoggedOut) && !clear);
    let (s, clear) = session_after_check(TokenCheck::Checked(Ok(Some(user(Role::Editor)))));
    assert!(matches!(s, AuthState::LoggedIn(_)) && !clear);
    let (s, clear) = session_after_check(TokenCheck::Checked(Ok(None)));
    assert!(matches!(s, AuthState::LoggedOut) && clear);
}

#[test]
fn draw_steps_follow_the_mixing_time() {
    assert_eq!(draw_steps_from_seconds(0), 1);
    assert_eq!(draw_steps_from_seconds(1), 62);
    assert_eq!(draw_steps_from_seconds(5), 312);
}

#[test]
fn categories_toggle_up_to_three() {
    let sel = vec!["A".to_string(), "B".to_string()];
    assert_eq!(toggle_category(&sel, "C", false), vec!["A", "B", "C"]);
    assert_eq!(toggle_category(&sel, "A", false), vec!["B"]);
    assert_eq!(toggle_category(&sel, "C", true), vec!["A", "B"]);
    let full = vec!["A".to_string(), "B".to_string(), "C".to_string()];
    assert_eq!(toggle_category(&full, "D", false), vec!["A", "B", "C"]);
}

#[test]
fn store_draw_gate_checks_in_order() {
    assert_eq!(store_draw_gate(true, None, 0, None, 0), StoreDrawGate::GameClosed);
    assert_eq!(store_draw_gate(false, Some(false), 1, Some(3), 2), StoreDrawGate::OneGamePerDay);
    assert_eq!(store_draw_gate(false, None, 1, Some(3), 2), StoreDrawGate::ServerError);
    assert_eq!(store_draw_gate(false, Some(true), 0, Some(3), 2), StoreDrawGate::MinOneCategory);
    assert_eq!(store_draw_gate(false, Some(true), 4, Some(3), 2), StoreDrawGate::MaxThreeCategories);
    assert_eq!(store_draw_gate(false, Some(true), 2, Some(0), 2), StoreDrawGate::NoStore);
    assert_eq!(store_draw_gate(false, Some(true), 2, Some(5), 3), StoreDrawGate::Ready { stores: 5, black_balls: 3 });
}

#[test]
fn drums_hold_the_expected_balls() {
    let rules = default_game_rules();
    let balls = discount_ball_values(&rules.discount_draw);
    let weights: usize = rules.discount_draw.ranges.iter().map(|r| r.balls_weight as usize).sum();
    assert_eq!(balls.len(), weights + rules.discount_draw.black_balls as usize);
    assert!(balls[..weights].iter().all(|b| !b.is_black));
    assert!(balls[weights..].iter().all(|b| b.is_black && b.value == 0));
    let stores = store_ball_values(3, 2);
    assert_eq!(stores.len(), 5);
    assert_eq!(stores[0], DrawBall { value: 1, is_black: false });
    assert_eq!(stores[2], DrawBall { value: 3, is_black: false });
    assert!(stores[4].is_black);
}

#[test]
fn a_drawn_ball_decides_the_next_step() {
    let black = DrawBall { value: 0, is_black: true };
    assert_eq!(store_ball_outcome(black, false), StoreBallOutcome::SecondChance);
    assert_eq!(store_ball_outcome(black, true), StoreBallOutcome::NoPromo);
    assert_eq!(store_ball_outcome(DrawBall { value: 4, is_black: false }, true), StoreBallOutcome::Store(3));
    assert_eq!(discount_won(Some(DrawBall { value: 30, is_black: false })), 30);
    assert_eq!(discount_won(Some(black)), 0);
    assert_eq!(discount_won(None), 0);
    let mut drum = store_ball_values(2, 1);
    assert_eq!(take_ball(&mut drum, 1), Some(DrawBall { value: 2, is_black: false }));
    assert_eq!(drum.len(), 2);
    assert_eq!(take_ball(&mut drum, 5), None);
    assert_eq!(player_key(Some(12)), "user:12");
    assert_eq!(player_key(None), "guest");
    assert_eq!(category_translation_key("HOME"), Some("home.category.home_lifestyle"));
    assert_eq!(category_translation_key("NOPE"), None);
}

#[test]
fn stable_order_sorts_and_keeps_ties_in_place() {
    let key = |m: i64, t: &str| SortKey { class: 0, major: m, minor: 0, text: t.to_string() };
    let keys = vec![key(3, "a"), key(1, "z"), key(3, "a"), key(2, "b")];
    assert_eq!(stable_order(&keys, false), vec![1, 3, 0, 2]);
    assert_eq!(stable_order(&keys, true), vec![0, 2, 3, 1]);
    let texts = vec![key(0, "b"), key(0, "ab"), key(0, "a")];
    assert_eq!(stable_order(&texts, false), vec![2, 1, 0]);
}

#[test]
fn hour_slots_and_histograms() {
    assert_eq!(hour_slot(9), "09h-10h");
    assert_eq!(hour_slot(23), "23h-24h");
    let rows = vec![(11, 5), (30, 9), (12, 1), (11, 7)];
    let per_hour = per_hour_counts(&rows);
    assert_eq!(per_hour[11], 7);
    assert_eq!(per_hour[12], 1);
    assert_eq!(per_hour.iter().sum::<i64>(), 8);
    assert!(!has_enough_real_data(&per_hour, 5, 50));
    assert!(has_enough_real_data(&per_hour, 2, 8));
    let p = Profile { start_hour: 11, end_hour_exclusive: 19, peak_start: 14, peak_end: 17, base_scale: 140, jitter_pct: 16, seed: 0x5048_5953 };
    let h = simulated_hourly_histogram(&p, 739_000);
    assert_eq!(h.len(), 8);
    assert_eq!(h[0].hour, 11);
    assert!(h.iter().all(|b| b.visits >= 1));
    assert_eq!(mix32(0), 0);
    let s = sliding_web_affluence(739_000, 5, -3);
    assert_eq!(s.len(), 24);
    assert_eq!(s[5].visits, 0);
}

#[test]
fn advice_names_the_quietest_and_busiest_hours() {
    let rows = vec![(11, 9), (12, 1), (13, 4), (14, 20), (15, 20), (16, 1), (17, 6), (18, 3)];
    let r = today_physical_recommendation(&rows);
    assert_eq!(r.best_slots, vec!["12h-13h", "16h-17h"]);
    assert_eq!(r.avoid_slots, vec!["14h-15h"]);
    let quiet = today_physical_recommendation(&vec![]);
    assert_eq!(quiet.best_slots, vec!["11h-12h", "12h-13h"]);
    assert_eq!(quiet.avoid_slots, vec!["11h-12h"]);
}

#[test]
fn default_parking_state_is_valid_and_counts_cars() {
    let state = default_state();
    assert!(validate_state(&state).is_ok());
    let snap = to_snapshot(&state);
    assert_eq!(snap.zones.len(), 6);
    assert_eq!(snap.zones[0].id, "p1");
    assert_eq!(snap.zones[0].occupied, 120);
    assert_eq!(snap.zones[0].capacity, 220);
}

#[test]
fn entry_then_exit_leaves_the_count_unchanged() {
    let mut a = BitwiseFakeAdapter::new(default_state());
    let before = a.get_state().lots[0].occupied;
    let r = a.vehicle_entry("p1", false).ok().expect("accepted");
    assert!(r.accepted);
    assert_eq!(r.state.lots[0].occupied, before + 1);
    let r = a.vehicle_exit("p1", false).ok().expect("accepted");
    assert!(r.accepted);
    assert_eq!(r.state.lots[0].occupied, before);
    assert!(matches!(a.vehicle_entry("p9", false), Err(ParkingError::LotNotFound)));
}

#[test]
fn zone_occupancy_is_bounded_by_capacity() {
    let mut a = BitwiseFakeAdapter::new(default_state());
    let s = a.set_zone_occupancy("p1", 221, 0).ok().expect("set");
    assert_eq!(s.lots[0].occupied, 220);
    let s = a.set_zone_occupancy("p1", 50, 0).ok().expect("set");
    assert_eq!(s.lots[0].occupied, 50);
    assert!(matches!(a.set_zone_occupancy("p9", 1, 0), Err(ParkingError::LotNotFound)));
}

#[test]
fn game_rules_are_clamped_and_black_balls_bounded() {
    let rules = default_game_rules();
    let clamped = clamp_game_rules(default_game_rules());
    assert_eq!(clamped.voucher.validity_days, rules.voucher.validity_days);
    let n = store_black_ball_count_for_shop_count(10, &rules);
    assert!(n <= 10);
    assert_eq!(store_black_ball_count_for_shop_count(0, &rules), 0);
    assert!(store_black_ball_count_for_shop_count(1, &rules) <= 1);
}

#[test]
fn one_game_per_player_per_day() {
    let mut d = DailyRulesState::new();
    assert!(d.can_start_game_on("user:1", "2026-05-01"));
    d.register_game_start_on("user:1", "2026-05-01");
    assert!(!d.can_start_game_on("user:1", "2026-05-01"));
    assert!(d.can_start_game_on("user:2", "2026-05-01"));
    assert!(d.can_start_game_on("user:1", "2026-05-02"));
}

#[test]
fn prize_pool_and_countdowns() {
    let snap = daily_prize_pool_snapshot(3, None);
    assert_eq!(snap.distributed, 3);
    assert_eq!(snap.max, 10);
    assert!(!snap.cooldown_active);
    assert_eq!(seconds_until_next_utc_midnight(Instant { secs: 86_400 * 5 + 3600, nanos: 0 }), 82_800);
    assert_eq!(seconds_until_next_utc_midnight(Instant { secs: 86_400 * 5 + 3600, nanos: 5 }), 82_799);
    assert_eq!(seconds_between(Instant { secs: 100, nanos: 0 }, Instant { secs: 40, nanos: 500 }), 59);
    assert_eq!(seconds_between(Instant { secs: 10, nanos: 0 }, Instant { secs: 40, nanos: 0 }), 0);
    assert_eq!(format_hms(3_725), "01:02:05");
}

#[test]
fn ticker_shows_the_pool_and_free_places() {
    let shown = foxtown::daily::pool_display(&Some(daily_prize_pool_snapshot(4, None)));
    assert_eq!(shown, ("4".to_string(), "10".to_string(), false));
    let closed = foxtown::daily::pool_display(&Some(daily_prize_pool_snapshot(
        7,
        Some(Instant { secs: 1_700_000_000, nanos: 0 }),
    )));
    assert_eq!(closed.0, "10");
    assert!(closed.2);
    let until = daily_prize_pool_snapshot(7, Some(Instant { secs: 1_700_000_000, nanos: 0 }));
    assert_eq!(until.cooldown_until_utc.as_deref(), Some("2023-11-14T22:13:20+00:00"));
    assert!(foxtown::game::random_index(5) < 5);
    assert_eq!(foxtown::game::random_index(0), 0);
    assert_eq!(foxtown::daily::pool_display(&None), ("\u{2014}".to_string(), "10".to_string(), false));
    let snap = to_snapshot(&default_state());
    let (free, ev_free) = foxtown::parking::parking_availability(&snap);
    let occupied: u32 = snap.zones.iter().map(|z| z.occupied).sum();
    let capacity: u32 = snap.zones.iter().map(|z| z.capacity).sum();
    assert_eq!(free, capacity - occupied);
    assert!(ev_free <= snap.zones.iter().map(|z| z.ev_capacity).sum::<u32>());
}

#[test]
fn prizes_go_to_the_least_awarded_shop() {
    let mut d = DailyRulesState::new();
    let names = vec!["Gucci".to_string(), "Prada".to_string()];
    assert!(d.choose_distributed_shop_name(&vec![]).is_none());
    assert!(d.register_prize_award("Gucci", false, 0));
    assert_eq!(d.choose_distributed_shop_name(&names), Some("Prada".to_string()));
    assert!(!d.register_prize_award("Prada", true, 0));
    assert!(!d.register_prize_award("Prada", false, 10));
}

#[test]
fn clamping_rules_twice_changes_nothing_more() {
    let mut wild = default_game_rules();
    wild.voucher.validity_days = 900;
    wild.discount_draw.black_balls = 999;
    wild.discount_draw.ranges.clear();
    let once = clamp_game_rules(wild);
    let twice = clamp_game_rules(foxtown::game_rules::copy_game_rules(&once));
    assert_eq!(once.voucher.validity_days, 365);
    assert_eq!(twice.voucher.validity_days, 365);
    assert_eq!(once.discount_draw.black_balls, twice.discount_draw.black_balls);
    assert_eq!(once.discount_draw.ranges.len(), twice.discount_draw.ranges.len());
    assert!(!once.discount_draw.ranges.is_empty());
}

#[test]
fn reported_parking_states_always_validate() {
    let mut a = BitwiseFakeAdapter::new(default_state());
    assert!(validate_state(&a.get_state()).is_ok());
    a.shuffle_with_seed(12345);
    assert!(validate_state(&a.get_state()).is_ok());
    a.simulate_tick(999);
    assert!(validate_state(&a.get_state()).is_ok());
}

#[test]
fn admin_pages_turn_away_visitors_as_their_guard_says() {
    assert_eq!(admin_page_redirect(&AuthState::Loading), AdminRedirect::Stay);
    assert_eq!(admin_page_redirect(&AuthState::LoggedOut), AdminRedirect::Login);
    assert_eq!(admin_page_redirect(&AuthState::LoggedIn(user(Role::Admin))), AdminRedirect::Stay);
    assert_eq!(admin_page_redirect(&AuthState::LoggedIn(user(Role::Editor))), AdminRedirect::Rewards);
    assert_eq!(guard_redirect(&AuthState::LoggedIn(user(Role::Editor)), OthersGo::ToHome), AdminRedirect::Home);
    assert_eq!(guard_redirect(&AuthState::LoggedIn(user(Role::Editor)), OthersGo::Nowhere), AdminRedirect::Stay);
    assert_eq!(guard_redirect(&AuthState::LoggedOut, OthersGo::Nowhere), AdminRedirect::Login);
}

#[test]
fn a_draw_picks_its_remainder() {
    assert_eq!(foxtown::game::index_from_draw(Some(17), 5), 2);
    assert_eq!(foxtown::game::index_from_draw(Some(4), 5), 4);
    assert_eq!(foxtown::game::index_from_draw(None, 5), 0);
    assert_eq!(foxtown::game::index_from_draw(Some(9), 0), 0);
    assert!(foxtown::daily::daily_prize_reset_countdown_secs() <= 86400);
}

#[test]
fn password_hash_is_argon2id_phc_text() {
    let h = foxtown::auth::hash_password("secret").expect("hash");
    assert!(h.starts_with("$argon2id$v=19$"));
    let h2 = foxtown::auth::hash_password("secret").expect("hash");
    assert_ne!(h, h2);
}

#[test]
fn win_tail_valid_day_identity_and_qr_text() {
    let now = Instant { secs: 1_700_000_000, nanos: 5 };
    assert_eq!(valid_until_at(now, 30).as_deref(), Some("2023-12-14"));
    assert_eq!(valid_until_at(now, 0).as_deref(), Some("2023-11-14"));
    assert_eq!(valid_until_from_now(30).map(|s| s.len()), Some(10));
    assert_eq!(winner_identity(&AuthState::LoggedOut), ("Guest".to_string(), "guest@example.com".to_string()));
    assert_eq!(
        winner_identity(&AuthState::LoggedIn(user(Role::Editor))),
        ("jean".to_string(), "jean@example.com".to_string())
    );
    assert_eq!(
        winner_qr_payload("jean", "Prada", 20, "2023-12-14"),
        "user=jean;store=Prada;discount=20%;valid_until=2023-12-14"
    );
}
