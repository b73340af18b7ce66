use storecore::auth::AuthUser;
use storecore::lifecycle::Notification;
use storecore::money::format_money;
use storecore::orders::{CreateOrderResponse, OrderItemRequest};
use storecore::settings::{SettingItem, UpdateSettingReq};
use storecore::store::{
    parse_status, OrderError, OrderStatus, ProductRecord, ShippingInfo, Store, UserRecord,
};
use storecore::tier::Tier;

fn product(id: &str, name: &str, stock: u64) -> ProductRecord {
    ProductRecord {
        id: id.to_string(),
        name: name.to_string(),
        stock,
    }
}

fn user(id: &str, email: &str, points: i64) -> UserRecord {
    UserRecord {
        id: id.to_string(),
        email: email.to_string(),
        points,
        tier: Tier::Bronze,
        phone: None,
        address: None,
    }
}

fn shipping() -> ShippingInfo {
    ShippingInfo {
        name: "An".to_string(),
        phone: "0900".to_string(),
        address: "12 Elm St".to_string(),
        note: None,
    }
}

fn line(product_id: &str, quantity: u32, price: u64) -> OrderItemRequest {
    OrderItemRequest {
        product_id: product_id.to_string(),
        quantity,
        price,
    }
}

fn base_store() -> Store {
    let mut s = Store::new();
    s.add_product(product("p1", "Keyboard", 10)).unwrap();
    s.add_product(product("p2", "Mouse", 5)).unwrap();
    s.add_product(product("p3", "Monitor", 0)).unwrap();
    s.add_user(user("u1", "an@example.com", 0)).unwrap();
    s.add_user(user("u2", "b@example.com", 900)).unwrap();
    s
}

fn create(
    s: &mut Store,
    user_id: &str,
    items: Vec<OrderItemRequest>,
    order_id: &str,
) -> Result<CreateOrderResponse, OrderError> {
    let n = items.len();
    let ids: Vec<String> = (0..n).map(|k| format!("{}-it{}", order_id, k)).collect();
    s.create_order_with_ids(
        &user_id.to_string(),
        &items,
        shipping(),
        order_id.to_string(),
        ids,
    )
}

#[test]
fn creating_an_order_computes_totals_points_and_stock() {
    let mut s = base_store();
    let resp = create(
        &mut s,
        "u1",
        vec![line("p1", 2, 1_200_000), line("p2", 1, 150_500)],
        "o1",
    )
    .unwrap();
    assert_eq!(resp.order_id, "o1");
    assert_eq!(resp.final_amount, 2_550_500);
    assert_eq!(resp.points_earned, 2550);
    // stock reserved
    assert_eq!(s.products[0].stock, 8);
    assert_eq!(s.products[1].stock, 4);
    // order row
    assert_eq!(s.orders.len(), 1);
    assert_eq!(s.orders[0].status, OrderStatus::Created);
    assert_eq!(s.orders[0].total_amount, 2_550_500);
    assert_eq!(s.orders[0].discount_amount, 0);
    assert_eq!(s.orders[0].points_earned, 2550);
    // line rows with their price snapshots
    assert_eq!(s.order_items.len(), 2);
    assert_eq!(s.order_items[0].price, 1_200_000);
    assert_eq!(s.order_items[0].quantity, 2);
    // points are NOT credited at creation
    assert_eq!(s.users[0].points, 0);
    // contact snapshot overwritten, last order wins
    assert_eq!(s.users[0].phone.as_deref(), Some("0900"));
    assert_eq!(s.users[0].address.as_deref(), Some("12 Elm St"));
}

#[test]
fn a_failed_reservation_rolls_the_whole_order_back() {
    // three lines: the first two could reserve, the third has no stock
    let mut s = base_store();
    let before_p1 = s.products[0].stock;
    let before_p2 = s.products[1].stock;
    let r = create(
        &mut s,
        "u1",
        vec![line("p1", 1, 100), line("p2", 1, 100), line("p3", 1, 100)],
        "o1",
    );
    assert_eq!(r, Err(OrderError::InsufficientStock));
    // no partial order is visible afterwards
    assert_eq!(s.orders.len(), 0);
    assert_eq!(s.order_items.len(), 0);
    assert_eq!(s.products[0].stock, before_p1);
    assert_eq!(s.products[1].stock, before_p2);
    assert_eq!(s.users[0].phone, None);
}

#[test]
fn the_same_line_twice_draws_stock_twice() {
    let mut s = base_store();
    create(
        &mut s,
        "u1",
        vec![line("p2", 3, 100), line("p2", 2, 100)],
        "o1",
    )
    .unwrap();
    assert_eq!(s.products[1].stock, 0);
    let r = create(&mut s, "u1", vec![line("p2", 1, 100)], "o2");
    assert_eq!(r, Err(OrderError::InsufficientStock));
}

#[test]
fn creation_rejects_bad_requests_without_touching_the_store() {
    let mut s = base_store();
    assert_eq!(
        create(&mut s, "u1", vec![line("p1", 0, 100)], "o1"),
        Err(OrderError::InvalidQuantity)
    );
    assert_eq!(
        create(&mut s, "ghost", vec![line("p1", 1, 100)], "o1"),
        Err(OrderError::UserNotFound)
    );
    assert_eq!(
        create(&mut s, "u1", vec![line("p1", 2, u64::MAX)], "o1"),
        Err(OrderError::AmountOverflow)
    );
    assert_eq!(s.orders.len(), 0);
    create(&mut s, "u1", vec![line("p1", 1, 100)], "o1").unwrap();
    assert_eq!(
        create(&mut s, "u1", vec![line("p1", 1, 100)], "o1"),
        Err(OrderError::DuplicateId)
    );
    assert_eq!(s.orders.len(), 1);
}

#[test]
fn minted_creation_works_end_to_end() {
    let mut s = base_store();
    let mut g = storecore::suid::SuidGenerator::new();
    let resp = s
        .create_order(
            &mut g,
            &"u1".to_string(),
            &vec![line("p1", 1, 2_000_000)],
            shipping(),
        )
        .unwrap();
    assert_eq!(resp.order_id.len(), 11);
    assert_eq!(resp.points_earned, 2000);
    assert_eq!(s.orders.len(), 1);
    assert_eq!(s.orders[0].id, resp.order_id);
    // the identifier decodes back to a minted value
    assert!(storecore::codec::from_base64url(&resp.order_id).is_some());
}

#[test]
fn entering_shipping_reports_the_notification_with_rendered_lines() {
    let mut s = base_store();
    create(
        &mut s,
        "u1",
        vec![line("p1", 2, 1_200_000), line("p2", 1, 150_500)],
        "o1",
    )
    .unwrap();
    let notes = s
        .update_order_status(&"o1".to_string(), OrderStatus::Shipping)
        .unwrap();
    assert_eq!(s.orders[0].status, OrderStatus::Shipping);
    // no points move on this transition
    assert_eq!(s.users[0].points, 0);
    assert_eq!(notes.len(), 1);
    match &notes[0] {
        Notification::Shipping {
            email,
            order_id,
            lines,
            final_amount,
        } => {
            assert_eq!(email, "an@example.com");
            assert_eq!(order_id, "o1");
            assert_eq!(*final_amount, 2_550_500);
            assert_eq!(lines.len(), 2);
            assert_eq!(lines[0].name, "Keyboard");
            assert_eq!(lines[0].quantity, 2);
            assert_eq!(lines[0].price, 1_200_000);
            assert_eq!(lines[0].line_total, 2_400_000);
            assert_eq!(lines[1].name, "Mouse");
            assert_eq!(lines[1].line_total, 150_500);
        }
        other => panic!("expected a shipping notification, got {:?}", notification_kind(other)),
    }
}

fn notification_kind(n: &Notification) -> &'static str {
    match n {
        Notification::Shipping { .. } => "shipping",
        Notification::ThankYou { .. } => "thank-you",
    }
}

#[test]
fn completion_credits_points_once_and_updates_the_tier() {
    let mut s = base_store();
    create(&mut s, "u2", vec![line("p1", 1, 4_100_000)], "o1").unwrap();
    s.update_order_status(&"o1".to_string(), OrderStatus::Shipping)
        .unwrap();
    let notes = s
        .update_order_status(&"o1".to_string(), OrderStatus::Completed)
        .unwrap();
    // 900 + 4100 = 5000: exactly the gold threshold
    assert_eq!(s.users[1].points, 5000);
    assert_eq!(s.users[1].tier, Tier::Gold);
    assert_eq!(s.orders[0].status, OrderStatus::Completed);
    assert_eq!(notes.len(), 1);
    match &notes[0] {
        Notification::ThankYou {
            email,
            order_id,
            points,
        } => {
            assert_eq!(email, "b@example.com");
            assert_eq!(order_id, "o1");
            assert_eq!(*points, 4100);
        }
        other => panic!("expected a thank-you notification, got {:?}", notification_kind(other)),
    }
    // completing again is a no-op for points and tier
    let notes2 = s
        .update_order_status(&"o1".to_string(), OrderStatus::Completed)
        .unwrap();
    assert_eq!(s.users[1].points, 5000);
    assert_eq!(s.users[1].tier, Tier::Gold);
    assert!(notes2.is_empty());
}

#[test]
fn reverting_a_completion_debits_the_same_points() {
    let mut s = base_store();
    create(&mut s, "u2", vec![line("p1", 1, 1_500_000)], "o1").unwrap();
    s.update_order_status(&"o1".to_string(), OrderStatus::Completed)
        .unwrap();
    assert_eq!(s.users[1].points, 2400);
    s.update_order_status(&"o1".to_string(), OrderStatus::Cancelled)
        .unwrap();
    // back to where the balance began
    assert_eq!(s.users[1].points, 900);
    assert_eq!(s.orders[0].status, OrderStatus::Cancelled);
}

#[test]
fn completion_uses_the_thresholds_configured_at_that_moment() {
    let mut s = base_store();
    s.update_settings(UpdateSettingReq {
        settings: vec![SettingItem {
            id: "level_diamond".to_string(),
            value: Some("2000".to_string()),
        }],
    });
    create(&mut s, "u2", vec![line("p1", 1, 1_500_000)], "o1").unwrap();
    s.update_order_status(&"o1".to_string(), OrderStatus::Completed)
        .unwrap();
    assert_eq!(s.users[1].points, 2400);
    assert_eq!(s.users[1].tier, Tier::Diamond);
}

#[test]
fn a_missing_order_is_its_own_error() {
    let mut s = base_store();
    assert_eq!(
        s.update_order_status(&"nope".to_string(), OrderStatus::Shipping),
        Err(OrderError::OrderNotFound)
    );
}

#[test]
fn confirm_receipt_enforces_owner_and_status() {
    let mut s = base_store();
    create(&mut s, "u1", vec![line("p1", 1, 2_000_000)], "o1").unwrap();
    let owner = AuthUser {
        user_id: "u1".to_string(),
    };
    let stranger = AuthUser {
        user_id: "u2".to_string(),
    };
    // not yet shipping
    assert_eq!(
        s.confirm_receipt(&owner, &"o1".to_string()),
        Err(OrderError::InvalidStatus)
    );
    s.update_order_status(&"o1".to_string(), OrderStatus::Shipping)
        .unwrap();
    // not the owner: reads as not found
    assert_eq!(
        s.confirm_receipt(&stranger, &"o1".to_string()),
        Err(OrderError::OrderNotFound)
    );
    assert_eq!(
        s.confirm_receipt(&owner, &"missing".to_string()),
        Err(OrderError::OrderNotFound)
    );
    // the owner confirms: completed, credited, thanked
    let notes = s.confirm_receipt(&owner, &"o1".to_string()).unwrap();
    assert_eq!(s.orders[0].status, OrderStatus::Completed);
    assert_eq!(s.users[0].points, 2000);
    assert_eq!(notes.len(), 1);
    assert_eq!(notification_kind(&notes[0]), "thank-you");
}

#[test]
fn reservation_is_a_single_conditional_decrement() {
    let mut s = base_store();
    assert_eq!(s.reserve("p2", 3), Ok(()));
    assert_eq!(s.products[1].stock, 2);
    // the second racing reservation must not also succeed
    assert_eq!(s.reserve("p2", 3), Err(OrderError::InsufficientStock));
    assert_eq!(s.products[1].stock, 2);
    assert_eq!(s.reserve("p2", 2), Ok(()));
    assert_eq!(s.products[1].stock, 0);
    // a missing product reads as insufficient stock
    assert_eq!(s.reserve("ghost", 1), Err(OrderError::InsufficientStock));
}

#[test]
fn settings_upserts_insert_or_overwrite_by_key() {
    let mut s = Store::new();
    s.update_settings(UpdateSettingReq {
        settings: vec![
            SettingItem {
                id: "level_gold".to_string(),
                value: Some("2000".to_string()),
            },
            SettingItem {
                id: "site_name".to_string(),
                value: Some("ElectroShop".to_string()),
            },
        ],
    });
    assert_eq!(s.settings.len(), 2);
    s.update_settings(UpdateSettingReq {
        settings: vec![SettingItem {
            id: "level_gold".to_string(),
            value: Some("3000".to_string()),
        }],
    });
    assert_eq!(s.settings.len(), 2);
    assert_eq!(s.settings[0].value.as_deref(), Some("3000"));
}

#[test]
fn money_renders_with_thousands_separators() {
    assert_eq!(format_money(0), "0");
    assert_eq!(format_money(7), "7");
    assert_eq!(format_money(999), "999");
    assert_eq!(format_money(1000), "1,000");
    assert_eq!(format_money(1000500), "1,000,500");
    assert_eq!(format_money(2550500), "2,550,500");
    assert_eq!(format_money(1234567890), "1,234,567,890");
    assert_eq!(format_money(u64::MAX), "18,446,744,073,709,551,615");
}

#[test]
fn status_names_parse_and_print() {
    assert_eq!(parse_status("created"), Some(OrderStatus::Created));
    assert_eq!(parse_status("shipping"), Some(OrderStatus::Shipping));
    assert_eq!(parse_status("completed"), Some(OrderStatus::Completed));
    assert_eq!(parse_status("cancelled"), Some(OrderStatus::Cancelled));
    assert_eq!(parse_status("refunded"), None);
    assert_eq!(parse_status(""), None);
    assert_eq!(OrderStatus::Shipping.as_text(), "shipping");
    assert_eq!(parse_status(&OrderStatus::Cancelled.as_text()), Some(OrderStatus::Cancelled));
}
