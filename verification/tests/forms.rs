use foxtown::auth::{check_sign_up, SignUpProblem};
use foxtown::clock::Instant;
use foxtown::content::{banner_form_error, banner_link, event_form_error, new_banner_order, news_form_error};
use foxtown::daily::format_remaining_hms_at;
use foxtown::game_rules::{
    apply_rule_input, default_game_rules, save_game_rules, store_black_ball_form, store_max_limit, RuleInput,
};
use foxtown::site::{
    checkout_error, format_date, format_next_reset_utc, is_development_mode, next_utc_midnight, refresh_interval_secs,
    schema_error_tolerated,
};
use foxtown::store_form::{image_too_large, validate_store_form, StoreFormError};

#[test]
fn store_form_accepts_a_clean_store() {
    let f = validate_store_form("  Armani ", " 2 ", "B-12", "+41 (0)91 123", " https://armani.com ", "")
        .ok()
        .expect("accepted");
    assert_eq!(f.name, "Armani");
    assert_eq!(f.level, Some(2));
    assert_eq!(f.store_number.as_deref(), Some("B-12"));
    assert_eq!(f.phone.as_deref(), Some("+41 (0)91 123"));
    assert_eq!(f.website.as_deref(), Some("https://armani.com"));
    assert_eq!(f.icon_path, None);
}

#[test]
fn store_form_refuses_in_order() {
    let err = |n: &str, l: &str, s: &str, p: &str, w: &str| validate_store_form(n, l, s, p, w, "").err();
    assert_eq!(err("   ", "", "", "", ""), Some(StoreFormError::NameRequired));
    assert_eq!(err("A", "", "", "", ""), Some(StoreFormError::NameTooShort));
    assert_eq!(err("é", "", "", "", ""), None);
    assert_eq!(err(&"x".repeat(121), "", "", "", ""), Some(StoreFormError::NameTooLong));
    assert_eq!(err("Ab", "x", "", "", ""), Some(StoreFormError::LevelNotNumber));
    assert_eq!(err("Ab", "300", "", "", ""), Some(StoreFormError::LevelNotNumber));
    assert_eq!(err("Ab", "21", "", "", ""), Some(StoreFormError::LevelOutOfRange));
    assert_eq!(err("Ab", "20", "#1", "", ""), Some(StoreFormError::StoreNumberInvalid));
    assert_eq!(err("Ab", "", &"1".repeat(33), "", ""), Some(StoreFormError::StoreNumberTooLong));
    assert_eq!(err("Ab", "", "", "12a", ""), Some(StoreFormError::PhoneInvalid));
    assert_eq!(err("Ab", "", "", "", "www.x.ch"), Some(StoreFormError::WebsiteScheme));
    assert_eq!(err("Ab", "", "", "", "http://x.ch"), None);
    assert_eq!(StoreFormError::LevelOutOfRange.message(), "Le niveau doit etre compris entre 0 et 20.");
    assert!(image_too_large(5 * 1024 * 1024 + 1));
    assert!(!image_too_large(5 * 1024 * 1024));
}

#[test]
fn rules_page_inputs_are_bounded() {
    let mut rules = default_game_rules();
    let limit = store_max_limit(7);
    assert_eq!(limit, 7);
    assert_eq!(store_max_limit(0), 1);
    assert_eq!(store_max_limit(100_000), u16::MAX);
    apply_rule_input(&mut rules, RuleInput::StoreBlackMax(50), limit);
    assert_eq!(rules.store_draw.black_balls_max, 7);
    apply_rule_input(&mut rules, RuleInput::RangePercent(0, 250), limit);
    assert_eq!(rules.discount_draw.ranges[0].discount_percent, 100);
    apply_rule_input(&mut rules, RuleInput::RangeWeight(0, 0), limit);
    assert_eq!(rules.discount_draw.ranges[0].balls_weight, 1);
    apply_rule_input(&mut rules, RuleInput::RangeWeight(99, 5), limit);
    apply_rule_input(&mut rules, RuleInput::DiscountBlackBalls(500), limit);
    assert_eq!(rules.discount_draw.black_balls, 120);
    apply_rule_input(&mut rules, RuleInput::ValidityDays(0), limit);
    assert_eq!(rules.voucher.validity_days, 1);
    apply_rule_input(&mut rules, RuleInput::StoreBlackMin(3), limit);
    apply_rule_input(&mut rules, RuleInput::StoreBlackCurrent(1), limit);
    assert_eq!(store_black_ball_form(&rules, limit), (3, 7, 3));
    let mut current = default_game_rules();
    let saved = save_game_rules(&mut current, rules);
    assert_eq!(saved.voucher.validity_days, 1);
    assert_eq!(current.discount_draw.black_balls, 120);
}

#[test]
fn sign_up_form_checks_passwords_then_fields() {
    assert_eq!(check_sign_up("u", "e", "F", "L", "pw", "pX"), Some(SignUpProblem::PasswordMismatch));
    assert_eq!(check_sign_up("u", "e", " ", "L", "pw", "pw"), Some(SignUpProblem::MissingField));
    assert_eq!(check_sign_up("", "e", "F", "L", "pw", "pw"), Some(SignUpProblem::MissingField));
    assert_eq!(check_sign_up("u", "e", "F", "L", "pw", "pw"), None);
    assert_eq!(SignUpProblem::MissingField.message_key(), "login.error.required");
}

#[test]
fn content_forms_need_their_fields() {
    assert_eq!(news_form_error("", "b"), Some("Title and body are required"));
    assert_eq!(news_form_error("t", "b"), None);
    assert_eq!(event_form_error("t", "d", "", "l"), Some("All fields are required"));
    assert_eq!(banner_form_error("t", ""), Some("Title and image URL are required"));
    assert_eq!(banner_link(String::new()), None);
    assert_eq!(banner_link("/x".to_string()).as_deref(), Some("/x"));
    assert_eq!(new_banner_order(3), 4);
    assert_eq!(checkout_error("a", "b", " ", "d", "e"), Some("Please complete all checkout fields."));
    assert_eq!(checkout_error("a", "b", "c", "d", "e"), None);
}

#[test]
fn deployment_settings() {
    assert!(is_development_mode(None));
    assert!(!is_development_mode(Some(" Production ")));
    assert!(!is_development_mode(Some("PROD")));
    assert!(is_development_mode(Some("staging")));
    assert!(schema_error_tolerated("duplicate column name: first_name"));
    assert!(!schema_error_tolerated("no such table"));
    assert_eq!(refresh_interval_secs(Some("15")), 15);
    assert_eq!(refresh_interval_secs(Some("soon")), 60);
    assert_eq!(refresh_interval_secs(None), 60);
}

#[test]
fn dates_and_reset_times() {
    let now = Instant { secs: 1_700_000_000, nanos: 5 };
    let next = next_utc_midnight(now);
    assert_eq!(next.secs, 1_700_006_400);
    assert_eq!(format_next_reset_utc(next).as_deref(), Some("2023-11-15 00:00 UTC"));
    assert_eq!(format_date(now).as_deref(), Some("November 14, 2023"));
    assert_eq!(
        format_remaining_hms_at("2023-11-14T23:00:00Z", Instant { secs: 1_700_000_000, nanos: 0 }).as_deref(),
        Some("00:46:40")
    );
    assert_eq!(format_remaining_hms_at("nope", now), None);
    assert_eq!(
        format_remaining_hms_at("2000-01-01T00:00:00Z", now).as_deref(),
        Some("00:00:00")
    );
}
