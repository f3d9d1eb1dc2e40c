use foxtown::i18n::{locale_cookie_header, read_locale, translate, translate_fmt, Catalog, Entry, Locale, Var};
use foxtown::site::{
    category_label, desktop_language_button_class, floor_marker_classes, format_hour, icon_src_from_db_path,
    language_buttons, level_badge_class, level_label, login_footer_link_hrefs, mobile_language_button_class,
    read_consent, relative_age, store_admin_row_matches_query, store_matches, strip_html, Ago, Category, FilterGroup,
    StoreAdminRow, DESKTOP_ACTIVE_LANG_BTN_CLASS, DESKTOP_INACTIVE_LANG_BTN_CLASS, MOBILE_ACTIVE_LANG_BTN_CLASS,
    MOBILE_INACTIVE_LANG_BTN_CLASS,
};

fn entry(key: &str, text: &str) -> Entry {
    Entry { key: key.to_string(), text: text.to_string() }
}

fn catalog() -> Catalog {
    Catalog {
        en: vec![
            entry("nav.logo", "FOXTOWN"),
            entry("directory.floor_button", "Level {level}"),
            entry("home.ticker.ago.minutes", "{n} min ago"),
        ],
        it: vec![entry("nav.logo", "FOXTOWN")],
        de: vec![],
        fr: vec![entry("directory.floor_button", "Niveau {level}")],
    }
}

#[test]
fn locale_code_roundtrip_works_for_all_supported_locales() {
    for locale in [Locale::En, Locale::It, Locale::De, Locale::Fr] {
        assert_eq!(Locale::from_code(locale.code()), Some(locale));
    }
    assert_eq!(Locale::from_code("es"), None);
}

#[test]
fn translate_returns_known_values_and_falls_back_to_key() {
    let c = catalog();
    assert_eq!(translate(&c, Locale::En, "nav.logo"), "FOXTOWN");
    assert_eq!(
        translate(&c, Locale::Fr, "this.translation.key.does.not.exist"),
        "this.translation.key.does.not.exist"
    );
}

#[test]
fn translate_fmt_replaces_named_placeholders() {
    let c = catalog();
    let vars = vec![Var { name: "level".to_string(), value: "2".to_string() }];
    let out = translate_fmt(&c, Locale::En, "directory.floor_button", &vars);
    assert_eq!(out, "Level 2");
}

#[test]
fn translate_falls_back_to_english_then_uses_own_table() {
    let c = catalog();
    assert_eq!(translate(&c, Locale::De, "nav.logo"), "FOXTOWN");
    let vars = vec![Var { name: "level".to_string(), value: "1".to_string() }];
    assert_eq!(translate_fmt(&c, Locale::Fr, "directory.floor_button", &vars), "Niveau 1");
}

#[test]
fn translate_fmt_replaces_every_occurrence() {
    let c = Catalog { en: vec![entry("k", "{x}-{x}-{y}")], it: vec![], de: vec![], fr: vec![] };
    let vars = vec![Var { name: "x".to_string(), value: "ab".to_string() }];
    assert_eq!(translate_fmt(&c, Locale::It, "k", &vars), "ab-ab-{y}");
}

#[test]
fn locale_comes_from_cookie_then_storage_then_english() {
    assert_eq!(read_locale(Some("a=1; foxtown_locale=it"), Some("fr")), Locale::It);
    assert_eq!(read_locale(Some("foxtown_locale=xx"), Some("fr")), Locale::Fr);
    assert_eq!(read_locale(None, Some("zz")), Locale::En);
    assert_eq!(locale_cookie_header(Locale::De), "foxtown_locale=de; path=/; max-age=31536000");
}

#[test]
fn language_buttons_match_expected_order_and_locales() {
    assert_eq!(
        language_buttons(),
        vec![(Locale::It, "IT"), (Locale::De, "DE"), (Locale::Fr, "FR"), (Locale::En, "EN")]
    );
}

#[test]
fn desktop_language_button_class_highlights_only_active_locale() {
    for (target, _) in language_buttons() {
        let class = desktop_language_button_class(Locale::Fr, target);
        let expected = if target == Locale::Fr { DESKTOP_ACTIVE_LANG_BTN_CLASS } else { DESKTOP_INACTIVE_LANG_BTN_CLASS };
        assert_eq!(class, expected);
    }
}

#[test]
fn mobile_language_button_class_highlights_only_active_locale() {
    for (target, _) in language_buttons() {
        let class = mobile_language_button_class(Locale::De, target);
        let expected = if target == Locale::De { MOBILE_ACTIVE_LANG_BTN_CLASS } else { MOBILE_INACTIVE_LANG_BTN_CLASS };
        assert_eq!(class, expected);
    }
}

#[test]
fn login_footer_links_are_real_routes() {
    for href in login_footer_link_hrefs() {
        assert_ne!(href, "#");
        assert!(href.starts_with('/'));
    }
}

#[test]
fn filter_group_label_keys_are_stable_and_complete() {
    assert!(
        FilterGroup::all()
            == vec![
                FilterGroup::All,
                FilterGroup::Luxury,
                FilterGroup::FashionAccessories,
                FilterGroup::SportOutdoor,
                FilterGroup::HomeLifestyle,
                FilterGroup::Kids,
            ]
    );
    assert_eq!(FilterGroup::All.label_key(), "home.filter.all");
    assert_eq!(FilterGroup::Kids.label_key(), "home.filter.kids");
}

#[test]
fn filter_group_matching_rules_cover_expected_categories() {
    assert!(FilterGroup::All.matches(&Category::Services));
    assert!(FilterGroup::Luxury.matches(&Category::HighFashion));
    assert!(FilterGroup::Luxury.matches(&Category::WatchesJewellery));
    assert!(!FilterGroup::Luxury.matches(&Category::SportswearEquipment));

    assert!(FilterGroup::FashionAccessories.matches(&Category::Accessories));
    assert!(FilterGroup::FashionAccessories.matches(&Category::Footwear));
    assert!(!FilterGroup::FashionAccessories.matches(&Category::Beauty));

    assert!(FilterGroup::HomeLifestyle.matches(&Category::Home));
    assert!(FilterGroup::HomeLifestyle.matches(&Category::Electronics));
    assert!(!FilterGroup::HomeLifestyle.matches(&Category::Childrenswear));
}

#[test]
fn category_label_maps_to_expected_translation_keys() {
    assert_eq!(category_label(&Category::HighFashion), "home.category.luxury_fashion");
    assert_eq!(category_label(&Category::Accessories), "home.category.accessories");
    assert_eq!(category_label(&Category::Services), "home.category.services");
}

#[test]
fn level_badge_class_matches_floor_palette() {
    assert_eq!(level_badge_class(0), "bg-yellow-100 text-yellow-700 border border-yellow-200");
    assert_eq!(level_badge_class(1), "bg-red-100 text-red-700 border border-red-200");
    assert_eq!(level_badge_class(2), "bg-blue-100 text-blue-700 border border-blue-200");
    assert_eq!(level_badge_class(3), "bg-green-100 text-green-700 border border-green-200");
    assert_eq!(level_badge_class(99), "bg-green-100 text-green-700 border border-green-200");
}

#[test]
fn level_label_maps_to_expected_translation_keys() {
    assert_eq!(level_label(0), "store.level.0");
    assert_eq!(level_label(1), "store.level.1");
    assert_eq!(level_label(2), "store.level.2");
    assert_eq!(level_label(3), "store.level.3");
    assert_eq!(level_label(99), "store.level.3");
}

#[test]
fn floor_markers_follow_the_floor_palette() {
    assert_eq!(floor_marker_classes(0), "bg-yellow-400 border-yellow-700 text-yellow-900");
    assert_eq!(floor_marker_classes(7), "bg-green-500 border-green-800 text-white");
}

#[test]
fn strip_html_keeps_words_only() {
    assert_eq!(strip_html("<p>Hello   <b>big</b>\n world</p>"), "Hello big world");
    assert_eq!(strip_html("  <br/>  "), "");
    assert_eq!(strip_html("a<x>b"), "ab");
}

#[test]
fn format_hour_pads_to_two_digits() {
    assert_eq!(format_hour(7), "07h");
    assert_eq!(format_hour(18), "18h");
}

#[test]
fn icon_paths_are_served_from_brands() {
    assert_eq!(icon_src_from_db_path("  /public/brands/nike.png "), "/brands/nike.png");
    assert_eq!(icon_src_from_db_path("/img/a.png"), "/img/a.png");
    assert_eq!(icon_src_from_db_path("   "), "");
}

#[test]
fn store_search_and_category_filter() {
    assert!(store_matches("Nike Outlet", Category::SportswearEquipment, "nike", None));
    assert!(!store_matches("Nike Outlet", Category::SportswearEquipment, "nike", Some(Category::Beauty)));
    assert!(store_matches("Gucci", Category::HighFashion, "", Some(Category::HighFashion)));
    assert!(!store_matches("Gucci", Category::HighFashion, "prada", None));
}

#[test]
fn admin_row_search_reads_every_column() {
    let row = StoreAdminRow {
        id: 42,
        name: "Armani".to_string(),
        store_number: Some("B-12".to_string()),
        level: Some(2),
        phone: None,
        website: Some("https://Armani.example".to_string()),
        icon_path: None,
    };
    assert!(store_admin_row_matches_query(&row, ""));
    assert!(store_admin_row_matches_query(&row, "arm"));
    assert!(store_admin_row_matches_query(&row, "42"));
    assert!(store_admin_row_matches_query(&row, "b-12"));
    assert!(store_admin_row_matches_query(&row, "2"));
    assert!(store_admin_row_matches_query(&row, "example"));
    assert!(!store_admin_row_matches_query(&row, "zzz"));
}

#[test]
fn ages_fall_in_minutes_hours_and_days() {
    assert_eq!(relative_age(None), Ago::Now);
    assert_eq!(relative_age(Some(-30)), Ago::Now);
    assert_eq!(relative_age(Some(59)), Ago::Now);
    assert_eq!(relative_age(Some(60)), Ago::Minutes(1));
    assert_eq!(relative_age(Some(3599)), Ago::Minutes(59));
    assert_eq!(relative_age(Some(3600)), Ago::Hours(1));
    assert_eq!(relative_age(Some(86_399)), Ago::Hours(23));
    assert_eq!(relative_age(Some(2 * 86_400 + 5)), Ago::Days(2));
}

#[test]
fn ticker_fills_in_the_number() {
    let c = catalog();
    assert_eq!(foxtown::site::ticker_relative_time(&c, Locale::En, Ago::Minutes(5)), "5 min ago");
}

#[test]
fn ticker_reads_the_winning_time() {
    let c = catalog();
    let now = foxtown::clock::Instant { secs: 1_700_000_000, nanos: 0 };
    assert_eq!(foxtown::site::ticker_text_at(&c, Locale::En, "2023-11-14T22:08:20Z", now), "5 min ago");
    assert_eq!(foxtown::site::ticker_text_at(&c, Locale::En, "later", now), "home.ticker.ago.now");
}

#[test]
fn consent_comes_from_cookie_then_storage() {
    assert_eq!(read_consent(Some("foxtown_cookie_consent=accepted"), None), Some("accepted".to_string()));
    assert_eq!(read_consent(Some("foxtown_cookie_consent=maybe"), Some("rejected")), Some("rejected".to_string()));
    assert_eq!(read_consent(None, Some("yes")), None);
}

#[test]
fn named_filters_do_not_overlap() {
    let groups = [
        FilterGroup::Luxury,
        FilterGroup::FashionAccessories,
        FilterGroup::SportOutdoor,
        FilterGroup::HomeLifestyle,
        FilterGroup::Kids,
    ];
    for c in [Category::HighFashion, Category::Footwear, Category::Beauty, Category::Childrenswear, Category::Services] {
        let n = groups.iter().filter(|g| g.matches(&c)).count();
        assert!(n <= 1);
        if c != Category::Services {
            assert_eq!(n, 1);
        }
    }
}
