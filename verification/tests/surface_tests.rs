use storecore::cart::{apply_cart_update, UpdateCartReq};
use storecore::catalog::{contains_str, product_matches_filter, ProductFilter};
use storecore::contact::ContactRequest;
use storecore::reviews::{review_stats, CreateReviewReq};

fn cart_line(product_id: &str, quantity: i32) -> UpdateCartReq {
    UpdateCartReq {
        product_id: product_id.to_string(),
        quantity,
    }
}

#[test]
fn cart_updates_upsert_one_line_per_product() {
    let mut cart: Vec<UpdateCartReq> = Vec::new();
    apply_cart_update(&mut cart, cart_line("p1", 2));
    apply_cart_update(&mut cart, cart_line("p2", 1));
    assert_eq!(cart.len(), 2);
    // overwriting keeps one line
    apply_cart_update(&mut cart, cart_line("p1", 5));
    assert_eq!(cart.len(), 2);
    assert_eq!(cart[0].quantity, 5);
    // a non-positive quantity removes the line
    apply_cart_update(&mut cart, cart_line("p1", 0));
    assert_eq!(cart.len(), 1);
    assert_eq!(cart[0].product_id, "p2");
    // removing what is absent changes nothing
    apply_cart_update(&mut cart, cart_line("ghost", -1));
    assert_eq!(cart.len(), 1);
}

#[test]
fn substring_search_finds_patterns() {
    assert!(contains_str("gaming keyboard", "key"));
    assert!(contains_str("gaming keyboard", "gaming keyboard"));
    assert!(contains_str("gaming keyboard", ""));
    assert!(contains_str("aaab", "aab"));
    assert!(!contains_str("gaming keyboard", "mouse"));
    assert!(!contains_str("ab", "abc"));
    assert!(!contains_str("", "a"));
}

fn filter(category: Option<&str>, search: Option<&str>) -> ProductFilter {
    ProductFilter {
        category_id: category.map(|c| c.to_string()),
        search: search.map(|q| q.to_string()),
    }
}

#[test]
fn the_list_filter_checks_category_and_name() {
    assert!(product_matches_filter("c1", "Keyboard", &filter(None, None)));
    assert!(product_matches_filter("c1", "Keyboard", &filter(Some("all"), None)));
    assert!(product_matches_filter("c1", "Keyboard", &filter(Some("c1"), None)));
    assert!(!product_matches_filter("c1", "Keyboard", &filter(Some("c2"), None)));
    assert!(product_matches_filter("c1", "Keyboard", &filter(None, Some("eyb"))));
    assert!(!product_matches_filter("c1", "Keyboard", &filter(None, Some("mouse"))));
    assert!(!product_matches_filter("c2", "Keyboard", &filter(Some("c1"), Some("eyb"))));
}

#[test]
fn contact_requests_need_both_fields() {
    let ok = ContactRequest {
        email: "a@b.c".to_string(),
        message: "hello".to_string(),
    };
    assert!(ok.is_valid());
    let no_mail = ContactRequest {
        email: "".to_string(),
        message: "hello".to_string(),
    };
    assert!(!no_mail.is_valid());
    let no_text = ContactRequest {
        email: "a@b.c".to_string(),
        message: "".to_string(),
    };
    assert!(!no_text.is_valid());
}

#[test]
fn review_stats_sum_and_count_the_ratings() {
    assert_eq!(review_stats(&Vec::new()), None);
    assert_eq!(review_stats(&vec![4]), Some((4, 1)));
    // 5 + 3 + 4 + 1 = 13 over 4 reviews: the stored average is 3.25
    assert_eq!(review_stats(&vec![5, 3, 4, 1]), Some((13, 4)));
}

#[test]
fn review_ratings_are_one_to_five_stars() {
    for (rating, ok) in [(0, false), (1, true), (3, true), (5, true), (6, false), (-1, false)] {
        let req = CreateReviewReq {
            product_id: "p1".to_string(),
            rating,
            content: "fine".to_string(),
        };
        assert_eq!(req.rating_valid(), ok);
    }
}
