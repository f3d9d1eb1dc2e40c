use foxtown::cart::{CartItem, CartState};

fn subtotal(cart: &CartState) -> f32 {
    cart.items
        .iter()
        .map(|item| f32::from_bits(item.unit_price_bits) * item.quantity as f32)
        .sum()
}

#[test]
fn add_item_appends_new_line_item() {
    let mut cart = CartState::default();
    cart.add_item(10, "Sneakers".to_string(), 99.0f32.to_bits(), 2);

    assert_eq!(cart.items.len(), 1);
    assert_eq!(cart.items[0].product_id, 10);
    assert_eq!(cart.items[0].quantity, 2);
}

#[test]
fn add_item_merges_quantity_for_existing_product() {
    let mut cart = CartState::default();
    cart.add_item(10, "Sneakers".to_string(), 99.0f32.to_bits(), 2);
    cart.add_item(10, "Sneakers".to_string(), 99.0f32.to_bits(), 3);

    assert_eq!(cart.items.len(), 1);
    assert_eq!(cart.items[0].quantity, 5);
}

#[test]
fn remove_item_drops_only_selected_product() {
    let mut cart = CartState::default();
    cart.add_item(10, "Sneakers".to_string(), 99.0f32.to_bits(), 2);
    cart.add_item(20, "Bag".to_string(), 50.0f32.to_bits(), 1);

    cart.remove_item(10);

    assert_eq!(cart.items.len(), 1);
    assert_eq!(cart.items[0].product_id, 20);
}

#[test]
fn update_quantity_replaces_existing_quantity() {
    let mut cart = CartState::default();
    cart.add_item(10, "Sneakers".to_string(), 99.0f32.to_bits(), 2);

    cart.update_quantity(10, 7);

    assert_eq!(cart.items[0].quantity, 7);
}

#[test]
fn update_quantity_zero_removes_item() {
    let mut cart = CartState::default();
    cart.add_item(10, "Sneakers".to_string(), 99.0f32.to_bits(), 2);

    cart.update_quantity(10, 0);

    assert!(cart.items.is_empty());
}

#[test]
fn subtotal_and_total_items_sum_all_lines() {
    let mut cart = CartState::default();
    cart.add_item(10, "Sneakers".to_string(), 99.0f32.to_bits(), 2);
    cart.add_item(20, "Bag".to_string(), 50.5f32.to_bits(), 3);

    assert!((subtotal(&cart) - 349.5).abs() < f32::EPSILON);
    assert_eq!(cart.total_items(), 5);
}

#[test]
fn clear_empties_cart() {
    let mut cart = CartState::default();
    cart.add_item(10, "Sneakers".to_string(), 99.0f32.to_bits(), 2);

    cart.clear();

    assert!(cart.items.is_empty());
    assert_eq!(cart.total_items(), 0);
    assert!((subtotal(&cart) - 0.0).abs() < f32::EPSILON);
}

#[test]
fn add_item_holds_quantity_at_the_maximum() {
    let mut cart = CartState::new();
    cart.add_item(1, "Cap".to_string(), 10.0f32.to_bits(), u32::MAX - 1);
    cart.add_item(1, "Cap".to_string(), 10.0f32.to_bits(), 5);
    assert_eq!(cart.items[0].quantity, u32::MAX);
}

#[test]
fn update_quantity_of_missing_product_changes_nothing() {
    let mut cart = CartState::new();
    cart.add_item(1, "Cap".to_string(), 10.0f32.to_bits(), 1);
    cart.update_quantity(2, 4);
    assert_eq!(cart.items.len(), 1);
    assert_eq!(cart.items[0].quantity, 1);
}

#[test]
fn remove_then_add_gives_a_fresh_line() {
    let mut cart = CartState::new();
    cart.add_item(1, "Cap".to_string(), 10.0f32.to_bits(), 3);
    cart.add_item(2, "Belt".to_string(), 20.0f32.to_bits(), 1);
    cart.remove_item(1);
    cart.add_item(1, "Cap".to_string(), 10.0f32.to_bits(), 2);
    assert_eq!(cart.items.len(), 2);
    assert_eq!(cart.items[0].product_id, 2);
    assert_eq!(cart.items[1].product_id, 1);
    assert_eq!(cart.items[1].quantity, 2);
}

#[test]
fn typed_quantity_is_read_as_a_u32() {
    let mut cart = CartState::default();
    cart.add_item(10, "Sneakers".to_string(), 99.0f32.to_bits(), 2);
    cart.set_quantity_from_input(10, "7");
    assert_eq!(cart.items[0].quantity, 7);
    cart.set_quantity_from_input(10, "+3");
    assert_eq!(cart.items[0].quantity, 3);
    cart.set_quantity_from_input(10, "abc");
    cart.set_quantity_from_input(10, "");
    cart.set_quantity_from_input(10, "-1");
    cart.set_quantity_from_input(10, "4294967296");
    assert_eq!(cart.items[0].quantity, 3);
    cart.set_quantity_from_input(10, "0");
    assert!(cart.items.is_empty());
}

#[test]
fn add_and_update_change_the_first_line_of_a_product() {
    let line = |q: u32| CartItem { product_id: 10, title: "Sneakers".to_string(), unit_price_bits: 99.0f32.to_bits(), quantity: q };
    let mut cart = CartState { items: vec![line(1), line(5)] };
    cart.add_item(10, "Sneakers".to_string(), 99.0f32.to_bits(), 2);
    assert_eq!((cart.items[0].quantity, cart.items[1].quantity), (3, 5));
    cart.update_quantity(10, 8);
    assert_eq!((cart.items[0].quantity, cart.items[1].quantity), (8, 5));
}
