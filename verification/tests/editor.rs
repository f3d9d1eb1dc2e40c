use foxtown::site::{floor_button_class, FloorLevel};
use foxtown::site::{
    any_filter_active, marker_classes, ring_color, search_is_blank, shown_cards, Category, FilterGroup, SearchTickets,
    StoreCard,
};
use foxtown::draw::{spins_label, take_spin};
use foxtown::map_editor::{
    editor_listing, empty_list_message_key, floor_badge, floor_markers, placed_count, query_of, stores_on_level, EditorFloor,
    EditorStore,
};

fn store(name: &str, unit: Option<&str>, level: Option<u8>, has_x: bool, has_y: bool) -> EditorStore {
    EditorStore { name: name.to_string(), store_number: unit.map(|u| u.to_string()), level, has_x, has_y }
}

fn mall() -> Vec<EditorStore> {
    vec![
        store("Prada", Some("L1-245"), Some(1), true, true),
        store("Adidas", Some("L1-312"), Some(1), false, false),
        store("Gucci", Some("L0-120"), Some(0), true, true),
        store("Armani", None, Some(1), true, false),
        store("Boss", Some("B-7"), Some(1), false, false),
        store("Kiosk", None, None, false, false),
    ]
}

fn names(v: &[EditorStore]) -> Vec<String> {
    v.iter().map(|s| s.name.clone()).collect()
}

#[test]
fn editor_keeps_the_stores_of_the_floor_in_order() {
    let level1 = stores_on_level(&mall(), 1);
    assert_eq!(names(&level1), vec!["Prada", "Adidas", "Armani", "Boss"]);
    assert_eq!(stores_on_level(&mall(), 3).len(), 0);
}

#[test]
fn editor_counts_placed_stores_with_both_positions() {
    let level1 = stores_on_level(&mall(), 1);
    assert_eq!(placed_count(&level1), 1);
}

#[test]
fn editor_floor_badge_counts_horizontal_positions() {
    let b = floor_badge(&mall(), 1, 1, true);
    assert_eq!((b.placed, b.total), (2, 4));
    assert_eq!(b.chevron, " \u{25be}");
    let b = floor_badge(&mall(), 1, 1, false);
    assert_eq!(b.chevron, " \u{25b8}");
    let b = floor_badge(&mall(), 0, 1, true);
    assert_eq!((b.placed, b.total), (1, 1));
    assert_eq!(b.chevron, "");
}

#[test]
fn editor_lists_unplaced_first_then_by_name() {
    let level1 = stores_on_level(&mall(), 1);
    let listed = editor_listing(&level1, "", false);
    assert_eq!(names(&listed), vec!["Adidas", "Boss", "Armani", "Prada"]);
}

#[test]
fn editor_hides_stores_with_a_horizontal_position() {
    let level1 = stores_on_level(&mall(), 1);
    let listed = editor_listing(&level1, "", true);
    assert_eq!(names(&listed), vec!["Adidas", "Boss"]);
}

#[test]
fn editor_searches_name_and_unit_ignoring_case_and_spaces() {
    let level1 = stores_on_level(&mall(), 1);
    assert_eq!(names(&editor_listing(&level1, "  PRA ", false)), vec!["Prada"]);
    assert_eq!(names(&editor_listing(&level1, "l1-3", false)), vec!["Adidas"]);
    assert_eq!(names(&editor_listing(&level1, "a", false)), vec!["Adidas", "Armani", "Prada"]);
    assert!(editor_listing(&level1, "zara", false).is_empty());
    assert_eq!(query_of("  MiXed Case\t"), "mixed case");
}

#[test]
fn editor_floor_button_toggles_or_switches() {
    let f = EditorFloor::new();
    assert_eq!(f, EditorFloor { level: 0, list_visible: true });
    let (g, cleared) = f.click(0);
    assert_eq!(g, EditorFloor { level: 0, list_visible: false });
    assert!(!cleared);
    let (h, cleared) = g.click(0);
    assert_eq!(h, f);
    assert!(!cleared);
    let (k, cleared) = g.click(2);
    assert_eq!(k, EditorFloor { level: 2, list_visible: true });
    assert!(cleared);
}

#[test]
fn editor_empty_list_messages() {
    assert_eq!(empty_list_message_key(0, 0), Some("map_editor.no_stores_for_level"));
    assert_eq!(empty_list_message_key(3, 0), Some("map_editor.no_filter_match"));
    assert_eq!(empty_list_message_key(3, 2), None);
}

#[test]
fn spin_button_counts_down_and_labels() {
    assert_eq!(take_spin(1), 0);
    assert_eq!(take_spin(0), 0);
    assert_eq!(spins_label(1), "1 SPIN");
    assert_eq!(spins_label(0), "0 SPINS");
    assert_eq!(spins_label(12), "12 SPINS");
}

#[test]
fn floor_markers_are_the_placed_stores_of_the_floor() {
    assert_eq!(names(&floor_markers(&mall(), 1)), vec!["Prada"]);
    assert_eq!(names(&floor_markers(&mall(), 0)), vec!["Gucci"]);
    assert!(floor_markers(&mall(), 2).is_empty());
}

#[test]
fn directory_markers_fade_or_pulse_under_a_filter() {
    assert!(!any_filter_active("", None));
    assert!(any_filter_active("gu", None));
    assert!(any_filter_active("", Some(Category::Footwear)));
    assert_eq!(marker_classes(false, false), ("opacity-100", ""));
    assert_eq!(marker_classes(true, false), ("opacity-20 grayscale", ""));
    assert_eq!(marker_classes(true, true), ("opacity-100", "ring-2 ring-accent ring-offset-1 animate-pulse"));
}

#[test]
fn occupancy_ring_colours() {
    assert_eq!(ring_color(0), "text-emerald-500");
    assert_eq!(ring_color(69), "text-emerald-500");
    assert_eq!(ring_color(70), "text-amber-500");
    assert_eq!(ring_color(89), "text-amber-500");
    assert_eq!(ring_color(90), "text-red-500");
    assert_eq!(ring_color(250), "text-red-500");
}

fn card(name: &str, icon: Option<&str>, category: Category) -> StoreCard {
    StoreCard { name: name.to_string(), icon_path: icon.map(|p| p.to_string()), category }
}

#[test]
fn stores_page_shows_cards_with_an_icon_in_the_group() {
    let cards = vec![
        card("Gucci", Some("/brands/gucci.png"), Category::HighFashion),
        card("NoIcon", None, Category::HighFashion),
        card("Blank", Some("   "), Category::WatchesJewellery),
        card("Nike", Some("/brands/nike.png"), Category::SportswearEquipment),
        card("Rolex", Some("/brands/rolex.png"), Category::WatchesJewellery),
    ];
    let all: Vec<String> = shown_cards(&cards, FilterGroup::All).into_iter().map(|c| c.name).collect();
    assert_eq!(all, vec!["Gucci", "Nike", "Rolex"]);
    let lux: Vec<String> = shown_cards(&cards, FilterGroup::Luxury).into_iter().map(|c| c.name).collect();
    assert_eq!(lux, vec!["Gucci", "Rolex"]);
    assert!(search_is_blank("  \t"));
    assert!(!search_is_blank(" gu "));
}

#[test]
fn only_the_latest_search_shows_its_results() {
    let mut t = SearchTickets::new();
    let first = t.issue();
    assert!(t.accepts(first));
    let second = t.issue();
    assert_eq!((first, second), (1, 2));
    assert!(!t.accepts(first));
    assert!(t.accepts(second));
}

#[test]
fn interactive_map_highlights_the_floor_shown() {
    assert_eq!(floor_button_class(FloorLevel::Level1, FloorLevel::Level1), "button-71 px-4 py-2 bg-gray-900 text-white rounded-lg font-bold");
    assert_eq!(
        floor_button_class(FloorLevel::Level1, FloorLevel::Level2),
        "button-73 px-4 py-2 bg-white text-rgb-163-163-163 border border-gray-200 rounded-lg hover:bg-gray-50 transition"
    );
}
