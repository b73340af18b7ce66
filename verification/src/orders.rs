//! Order creation.
//!
//! Creating an order computes the totals from the submitted lines,
//! mints identifiers, appends the order and its line rows, reserves
//! stock line by line through the inventory ledger's conditional
//! decrement, and overwrites the user's contact snapshot — all of it
//! atomically: the first failing step leaves the store untouched.
//! Points are computed and stored on the order but deliberately not
//! credited here; crediting waits for completion.

use vstd::prelude::*;
use vstd::arithmetic::div_mod::lemma_fundamental_div_mod;
use vstd::arithmetic::mul::lemma_mul_inequality;
use crate::settings::str_eq;
use crate::store::{
    find_item, find_order, find_product, find_user, lemma_item_index, lemma_order_index,
    lemma_order_index_of, lemma_product_index, lemma_product_index_of, lemma_user_index,
    lemma_user_index_of, spec_item_index, spec_order_consistent, spec_order_index,
    spec_product_index, spec_products_unique, spec_reserve, spec_user_index, ItemV, OrderError,
    OrderItemRecord, OrderRecord, OrderStatus, OrderV, ProductRecord, ProductV, ShippingInfo,
    ShippingV, Store, StoreV, UserV,
};
use crate::suid::SuidGenerator;

verus! {

/// One requested order line: the product, the quantity and the unit
/// price snapshot the order will carry.
pub struct OrderItemRequest {
    pub product_id: String,
    pub quantity: u32,
    pub price: u64,
}

pub struct OrderItemReqV {
    pub product_id: Seq<char>,
    pub quantity: u32,
    pub price: u64,
}

impl View for OrderItemRequest {
    type V = OrderItemReqV;

    open spec fn view(&self) -> OrderItemReqV {
        OrderItemReqV {
            product_id: self.product_id@,
            quantity: self.quantity,
            price: self.price,
        }
    }
}

/// A create-order request: the lines and the shipping snapshot.
pub struct CreateOrderRequest {
    pub items: Vec<OrderItemRequest>,
    pub shipping_info: ShippingInfo,
}

/// What a successful creation reports back to the caller.
#[derive(Clone, Debug, PartialEq, Eq)]
pub struct CreateOrderResponse {
    pub order_id: String,
    pub points_earned: i64,
    pub final_amount: u64,
}

pub struct CreateRespV {
    pub order_id: Seq<char>,
    pub points_earned: i64,
    pub final_amount: u64,
}

impl View for CreateOrderResponse {
    type V = CreateRespV;

    open spec fn view(&self) -> CreateRespV {
        CreateRespV {
            order_id: self.order_id@,
            points_earned: self.points_earned,
            final_amount: self.final_amount,
        }
    }
}

/// The order total: price times quantity, summed over the lines.
pub open spec fn spec_items_total(items: Seq<OrderItemReqV>) -> int
    decreases items.len(),
{
    if items.len() == 0 {
        0
    } else {
        spec_items_total(items.drop_last()) + items.last().price * items.last().quantity
    }
}

/// Every line asks for at least one unit.
pub open spec fn spec_quantities_positive(items: Seq<OrderItemReqV>) -> bool {
    forall|i: int| 0 <= i < items.len() ==> (#[trigger] items[i]).quantity > 0
}

/// The stock reservations of all lines applied in order: the resulting
/// product rows, or None as soon as one line finds less stock than it
/// asks — the same line twice draws twice.
pub open spec fn spec_reserve_all(ps: Seq<ProductV>, items: Seq<OrderItemReqV>) -> Option<
    Seq<ProductV>,
>
    decreases items.len(),
{
    if items.len() == 0 {
        Some(ps)
    } else {
        match spec_reserve_all(ps, items.drop_last()) {
            Some(ps2) => spec_reserve(ps2, items.last().product_id, items.last().quantity),
            None => None,
        }
    }
}

/// The minted line identifiers are pairwise distinct and collide with
/// no stored line row.
pub open spec fn spec_item_ids_ok(existing: Seq<ItemV>, ids: Seq<Seq<char>>) -> bool {
    &&& forall|i: int| 0 <= i < ids.len() ==> spec_item_index(existing, #[trigger] ids[i]) == -1
    &&& forall|i: int, j: int| 0 <= i < j < ids.len() ==> ids[i] != ids[j]
}

/// The line rows a creation appends, in request order.
pub open spec fn spec_new_items(
    items: Seq<OrderItemReqV>,
    ids: Seq<Seq<char>>,
    order_id: Seq<char>,
) -> Seq<ItemV> {
    Seq::new(
        items.len(),
        |i: int|
            ItemV {
                id: ids[i],
                order_id: order_id,
                product_id: items[i].product_id,
                quantity: items[i].quantity,
                price: items[i].price,
            },
    )
}

/// The views of all requested lines, in order.
pub open spec fn spec_items_view(items: Vec<OrderItemRequest>) -> Seq<OrderItemReqV> {
    items@.map_values(|it: OrderItemRequest| it@)
}

/// What one creation does to the store, or why it refuses.
pub enum CreateOutcome {
    Done(StoreV, CreateRespV),
    Fail(OrderError),
}

/// The whole create-order operation as a pure function of the store and
/// the request: checks in order — positive quantities, a total that
/// fits the machine word, a known user, fresh identifiers, then the
/// line-by-line stock reservations — and on success the new store:
/// reserved stock, the appended order in `Created` status with
/// `final = total - discount` (discount is zero in this design) and
/// `points = final / 1000` stored but not yet credited, the appended
/// line rows, and the user's contact snapshot overwritten from the
/// shipping info.
pub open spec fn spec_create_order(
    s: StoreV,
    user_id: Seq<char>,
    items: Seq<OrderItemReqV>,
    shipping: ShippingV,
    order_id: Seq<char>,
    item_ids: Seq<Seq<char>>,
) -> CreateOutcome {
    if !spec_quantities_positive(items) {
        CreateOutcome::Fail(OrderError::InvalidQuantity)
    } else if spec_items_total(items) > u64::MAX {
        CreateOutcome::Fail(OrderError::AmountOverflow)
    } else if spec_user_index(s.users, user_id) == -1 {
        CreateOutcome::Fail(OrderError::UserNotFound)
    } else if spec_order_index(s.orders, order_id) != -1 || !spec_item_ids_ok(
        s.order_items,
        item_ids,
    ) {
        CreateOutcome::Fail(OrderError::DuplicateId)
    } else {
        match spec_reserve_all(s.products, items) {
            None => CreateOutcome::Fail(OrderError::InsufficientStock),
            Some(ps2) => {
                let total = spec_items_total(items) as u64;
                let points = (total as int / 1000) as i64;
                let ui = spec_user_index(s.users, user_id);
                let u = s.users[ui];
                CreateOutcome::Done(
                    StoreV {
                        products: ps2,
                        users: s.users.update(
                            ui,
                            UserV { phone: Some(shipping.phone), address: Some(shipping.address), ..u },
                        ),
                        orders: s.orders.push(
                            OrderV {
                                id: order_id,
                                user_id: user_id,
                                total_amount: total,
                                discount_amount: 0,
                                final_amount: total,
                                points_earned: points,
                                status: OrderStatus::Created,
                                shipping: shipping,
                            },
                        ),
                        order_items: s.order_items + spec_new_items(items, item_ids, order_id),
                        settings: s.settings,
                    },
                    CreateRespV { order_id: order_id, points_earned: points, final_amount: total },
                )
            },
        }
    }
}

/// One line's amount is never negative.
proof fn lemma_line_amount_nonneg(item: OrderItemReqV)
    ensures
        item.price * item.quantity >= 0,
{
    assert(item.price * item.quantity >= 0) by (nonlinear_arith)
        requires
            item.price >= 0 && item.quantity >= 0,
    ;
}

/// The total is never negative.
pub proof fn lemma_items_total_nonneg(items: Seq<OrderItemReqV>)
    ensures
        spec_items_total(items) >= 0,
    decreases items.len(),
{
    if items.len() > 0 {
        lemma_items_total_nonneg(items.drop_last());
        lemma_line_amount_nonneg(items.last());
    }
}

/// A total over fewer lines never exceeds the total over all of them.
pub proof fn lemma_items_total_extends(items: Seq<OrderItemReqV>, k: int)
    requires
        0 <= k <= items.len(),
    ensures
        spec_items_total(items) >= spec_items_total(items.take(k)),
    decreases items.len() - k,
{
    if k == items.len() {
        assert(items.take(k) =~= items);
    } else {
        lemma_items_total_step(items, k);
        lemma_line_amount_nonneg(items[k]);
        lemma_items_total_extends(items, k + 1);
    }
}

/// Extending the prefix by one line adds that line's amount.
pub proof fn lemma_items_total_step(items: Seq<OrderItemReqV>, k: int)
    requires
        0 <= k < items.len(),
    ensures
        spec_items_total(items.take(k + 1)) == spec_items_total(items.take(k)) + items[k].price
            * items[k].quantity,
{
    assert(items.take(k + 1).drop_last() =~= items.take(k));
    assert(items.take(k + 1).last() == items[k]);
}

/// No line's amount exceeds the total.
pub proof fn lemma_items_total_bounds(items: Seq<OrderItemReqV>, k: int)
    requires
        0 <= k < items.len(),
    ensures
        items[k].price * items[k].quantity <= spec_items_total(items),
    decreases items.len(),
{
    lemma_line_amount_nonneg(items.last());
    if k == items.len() - 1 {
        lemma_items_total_nonneg(items.drop_last());
    } else {
        lemma_items_total_bounds(items.drop_last(), k);
        assert(items.drop_last()[k] == items[k]);
    }
}

/// One more line folds one more reservation.
pub proof fn lemma_reserve_all_step(ps: Seq<ProductV>, items: Seq<OrderItemReqV>, k: int)
    requires
        0 <= k < items.len(),
    ensures
        spec_reserve_all(ps, items.take(k + 1)) == match spec_reserve_all(ps, items.take(k)) {
            Some(ps2) => spec_reserve(ps2, items[k].product_id, items[k].quantity),
            None => None,
        },
{
    assert(items.take(k + 1).drop_last() =~= items.take(k));
    assert(items.take(k + 1).last() == items[k]);
}

/// Once a prefix of the lines fails to reserve, the whole request
/// fails.
pub proof fn lemma_reserve_all_none(ps: Seq<ProductV>, items: Seq<OrderItemReqV>, k: int)
    requires
        0 <= k <= items.len(),
        spec_reserve_all(ps, items.take(k)) is None,
    ensures
        spec_reserve_all(ps, items) is None,
    decreases items.len() - k,
{
    if k == items.len() {
        assert(items.take(k) =~= items);
    } else {
        lemma_reserve_all_step(ps, items, k);
        lemma_reserve_all_none(ps, items, k + 1);
    }
}

/// Whether multiplying fits the machine word, decided by one division.
proof fn lemma_mul_div_bound(p: u64, q: u64)
    requires
        q > 0,
    ensures
        p <= u64::MAX / q ==> p * q <= u64::MAX,
        p > u64::MAX / q ==> p * q > u64::MAX,
{
    let d = u64::MAX as int / q as int;
    lemma_fundamental_div_mod(u64::MAX as int, q as int);
    if p <= u64::MAX / q {
        lemma_mul_inequality(p as int, d, q as int);
        assert(d * (q as int) == (q as int) * d) by (nonlinear_arith);
    } else {
        lemma_mul_inequality(d + 1, p as int, q as int);
        assert((d + 1) * (q as int) == d * (q as int) + q as int) by (nonlinear_arith);
        assert(d * (q as int) == (q as int) * d) by (nonlinear_arith);
    }
}

/// Checks that every line asks for at least one unit.
fn check_quantities(items: &Vec<OrderItemRequest>) -> (r: bool)
    ensures
        r == spec_quantities_positive(items@.map_values(|it: OrderItemRequest| it@)),
{
    let ghost itemsv = items@.map_values(|it: OrderItemRequest| it@);
    let mut i: usize = 0;
    while i < items.len()
        invariant
            0 <= i <= items.len(),
            itemsv == items@.map_values(|it: OrderItemRequest| it@),
            itemsv.len() == items@.len(),
            forall|j: int| 0 <= j < i ==> (#[trigger] itemsv[j]).quantity > 0,
        decreases items.len() - i,
    {
        if items[i].quantity == 0 {
            proof {
                assert(itemsv[i as int].quantity == 0);
            }
            return false;
        }
        i = i + 1;
    }
    true
}

/// Computes the order total, or None when it exceeds the machine word.
fn compute_total(items: &Vec<OrderItemRequest>) -> (r: Option<u64>)
    requires
        spec_quantities_positive(items@.map_values(|it: OrderItemRequest| it@)),
    ensures
        ({
            let itemsv = items@.map_values(|it: OrderItemRequest| it@);
            match r {
                Some(t) => t as int == spec_items_total(itemsv),
                None => spec_items_total(itemsv) > u64::MAX,
            }
        }),
{
    let ghost itemsv = items@.map_values(|it: OrderItemRequest| it@);
    let mut total: u64 = 0;
    let mut i: usize = 0;
    while i < items.len()
        invariant
            0 <= i <= items.len(),
            itemsv == items@.map_values(|it: OrderItemRequest| it@),
            itemsv.len() == items@.len(),
            spec_quantities_positive(itemsv),
            total as int == spec_items_total(itemsv.take(i as int)),
        decreases items.len() - i,
    {
        let q = items[i].quantity as u64;
        let p = items[i].price;
        proof {
            assert(itemsv[i as int].quantity > 0);
            lemma_items_total_step(itemsv, i as int);
            lemma_mul_div_bound(p, q);
        }
        if p > u64::MAX / q {
            proof {
                lemma_items_total_extends(itemsv, i + 1);
            }
            return None;
        }
        let term = p * q;
        if term > u64::MAX - total {
            proof {
                lemma_items_total_extends(itemsv, i + 1);
            }
            return None;
        }
        total = total + term;
        i = i + 1;
    }
    proof {
        assert(itemsv.take(items@.len() as int) =~= itemsv);
    }
    Some(total)
}

/// Checks that the minted line identifiers are pairwise distinct and
/// collide with no stored line row.
fn check_item_ids(existing: &Vec<OrderItemRecord>, ids: &Vec<String>) -> (r: bool)
    ensures
        r == spec_item_ids_ok(
            existing@.map_values(|it: OrderItemRecord| it@),
            ids@.map_values(|s: String| s@),
        ),
{
    let ghost ev = existing@.map_values(|it: OrderItemRecord| it@);
    let ghost idsv = ids@.map_values(|s: String| s@);
    let mut i: usize = 0;
    while i < ids.len()
        invariant
            0 <= i <= ids.len(),
            ev == existing@.map_values(|it: OrderItemRecord| it@),
            idsv == ids@.map_values(|s: String| s@),
            idsv.len() == ids@.len(),
            forall|a: int| 0 <= a < i ==> spec_item_index(ev, #[trigger] idsv[a]) == -1,
            forall|a: int, b: int| 0 <= a < b < i ==> idsv[a] != idsv[b],
        decreases ids.len() - i,
    {
        match find_item(existing, ids[i].as_str()) {
            Some(j) => {
                proof {
                    lemma_item_index(ev, idsv[i as int]);
                }
                return false;
            },
            None => {
                proof {
                    lemma_item_index(ev, idsv[i as int]);
                }
            },
        }
        let mut b: usize = 0;
        while b < i
            invariant
                0 <= b <= i < ids@.len(),
                idsv == ids@.map_values(|s: String| s@),
                idsv.len() == ids@.len(),
                forall|c: int| 0 <= c < b ==> idsv[c] != idsv[i as int],
            decreases i - b,
        {
            if str_eq(ids[b].as_str(), ids[i].as_str()) {
                proof {
                    assert(idsv[b as int] == idsv[i as int]);
                }
                return false;
            }
            b = b + 1;
        }
        i = i + 1;
    }
    true
}

/// The product rows with the stocks substituted position by position.
pub open spec fn spec_with_stocks(ps: Seq<ProductV>, stocks: Seq<u64>) -> Seq<ProductV> {
    Seq::new(ps.len(), |m: int| ProductV { stock: stocks[m], ..ps[m] })
}

/// Runs the line-by-line reservations against a scratch copy of the
/// stocks: the stocks all lines leave behind, or None on the first line
/// that finds less stock than it asks.
fn check_reserve_all(products: &Vec<ProductRecord>, items: &Vec<OrderItemRequest>) -> (r: Option<
    Vec<u64>,
>)
    requires
        spec_products_unique(products@.map_values(|p: ProductRecord| p@)),
    ensures
        ({
            let pv = products@.map_values(|p: ProductRecord| p@);
            let itemsv = items@.map_values(|it: OrderItemRequest| it@);
            match r {
                Some(stocks) => stocks@.len() == pv.len() && spec_reserve_all(pv, itemsv) == Some(
                    spec_with_stocks(pv, stocks@),
                ),
                None => spec_reserve_all(pv, itemsv) is None,
            }
        }),
{
    let ghost pv = products@.map_values(|p: ProductRecord| p@);
    let ghost itemsv = items@.map_values(|it: OrderItemRequest| it@);
    let mut stocks: Vec<u64> = Vec::new();
    let mut j: usize = 0;
    while j < products.len()
        invariant
            0 <= j <= products.len(),
            pv == products@.map_values(|p: ProductRecord| p@),
            pv.len() == products@.len(),
            stocks@.len() == j,
            forall|m: int| 0 <= m < j ==> stocks@[m] == pv[m].stock,
        decreases products.len() - j,
    {
        stocks.push(products[j].stock);
        j = j + 1;
    }
    let mut k: usize = 0;
    while k < items.len()
        invariant
            0 <= k <= items.len(),
            pv == products@.map_values(|p: ProductRecord| p@),
            itemsv == items@.map_values(|it: OrderItemRequest| it@),
            itemsv.len() == items@.len(),
            pv.len() == products@.len(),
            spec_products_unique(pv),
            stocks@.len() == pv.len(),
            spec_reserve_all(pv, itemsv.take(k as int)) == Some(spec_with_stocks(pv, stocks@)),
        decreases items.len() - k,
    {
        let ghost cur = spec_with_stocks(pv, stocks@);
        proof {
            assert forall|a: int, b: int| 0 <= a < b < cur.len() implies (#[trigger] cur[a]).id
                != (#[trigger] cur[b]).id by {
                assert(cur[a].id == pv[a].id);
                assert(cur[b].id == pv[b].id);
            }
            lemma_reserve_all_step(pv, itemsv, k as int);
        }
        match find_product(products, items[k].product_id.as_str()) {
            None => {
                proof {
                    assert forall|m: int| 0 <= m < cur.len() implies (#[trigger] cur[m]).id
                        != itemsv[k as int].product_id by {
                        assert(cur[m].id == pv[m].id);
                    }
                    lemma_product_index(cur, itemsv[k as int].product_id);
                    lemma_reserve_all_none(pv, itemsv, k + 1);
                }
                return None;
            },
            Some(j2) => {
                proof {
                    assert(cur[j2 as int].id == pv[j2 as int].id);
                    lemma_product_index_of(cur, j2 as int, itemsv[k as int].product_id);
                }
                let q64 = items[k].quantity as u64;
                if stocks[j2] < q64 {
                    proof {
                        lemma_reserve_all_none(pv, itemsv, k + 1);
                    }
                    return None;
                }
                let had = stocks.remove(j2);
                stocks.insert(j2, had - q64);
                proof {
                    assert(spec_with_stocks(pv, stocks@) =~= cur.update(
                        j2 as int,
                        ProductV { stock: (had - q64) as u64, ..cur[j2 as int] },
                    ));
                }
            },
        }
        k = k + 1;
    }
    proof {
        assert(itemsv.take(items@.len() as int) =~= itemsv);
    }
    Some(stocks)
}

/// The product rows rebuilt with the stocks the reservations left.
fn build_products(products: &Vec<ProductRecord>, stocks: &Vec<u64>) -> (r: Vec<ProductRecord>)
    requires
        stocks@.len() == products@.len(),
    ensures
        r@.map_values(|p: ProductRecord| p@) =~= spec_with_stocks(
            products@.map_values(|p: ProductRecord| p@),
            stocks@,
        ),
{
    let ghost pv = products@.map_values(|p: ProductRecord| p@);
    let mut out: Vec<ProductRecord> = Vec::new();
    let mut m: usize = 0;
    while m < products.len()
        invariant
            0 <= m <= products.len(),
            pv == products@.map_values(|p: ProductRecord| p@),
            pv.len() == products@.len(),
            stocks@.len() == pv.len(),
            out@.len() == m,
            forall|x: int| 0 <= x < m ==> (#[trigger] out@[x])@ == spec_with_stocks(
                pv,
                stocks@,
            )[x],
        decreases products.len() - m,
    {
        out.push(
            ProductRecord {
                id: products[m].id.clone(),
                name: products[m].name.clone(),
                stock: stocks[m],
            },
        );
        m = m + 1;
    }
    out
}

impl Store {
    /// Creates an order from caller-supplied identifiers: the exact,
    /// deterministic core of order creation. The result and the new
    /// store are precisely what `spec_create_order` states on the old
    /// store, and every error leaves the store untouched — the rollback
    /// the enclosing transaction guarantees.
    pub fn create_order_with_ids(
        &mut self,
        user_id: &String,
        items: &Vec<OrderItemRequest>,
        shipping: ShippingInfo,
        order_id: String,
        item_ids: Vec<String>,
    ) -> (r: Result<CreateOrderResponse, OrderError>)
        requires
            old(self).wf(),
            item_ids@.len() == items@.len(),
        ensures
            final(self).wf(),
            (r matches Ok(resp) ==> spec_create_order(
                old(self)@,
                user_id@,
                items@.map_values(|it: OrderItemRequest| it@),
                shipping@,
                order_id@,
                item_ids@.map_values(|s: String| s@),
            ) == CreateOutcome::Done(final(self)@, resp@)),
            (r matches Err(e) ==> *final(self) == *old(self) && spec_create_order(
                old(self)@,
                user_id@,
                items@.map_values(|it: OrderItemRequest| it@),
                shipping@,
                order_id@,
                item_ids@.map_values(|s: String| s@),
            ) == CreateOutcome::Fail(e)),
    {
        let ghost s0 = self@;
        let ghost itemsv = items@.map_values(|it: OrderItemRequest| it@);
        let ghost idsv = item_ids@.map_values(|s: String| s@);
        let ghost shipv = shipping@;
        let ghost oidv = order_id@;
        if !check_quantities(items) {
            return Err(OrderError::InvalidQuantity);
        }
        let total = match compute_total(items) {
            Some(t) => t,
            None => {
                return Err(OrderError::AmountOverflow);
            },
        };
        let ui = match find_user(&self.users, user_id.as_str()) {
            Some(j) => j,
            None => {
                proof {
                    lemma_user_index(s0.users, user_id@);
                }
                return Err(OrderError::UserNotFound);
            },
        };
        proof {
            lemma_user_index_of(s0.users, ui as int, user_id@);
        }
        match find_order(&self.orders, order_id.as_str()) {
            Some(j) => {
                proof {
                    lemma_order_index_of(s0.orders, j as int, order_id@);
                }
                return Err(OrderError::DuplicateId);
            },
            None => {
                proof {
                    lemma_order_index(s0.orders, order_id@);
                }
            },
        }
        if !check_item_ids(&self.order_items, &item_ids) {
            return Err(OrderError::DuplicateId);
        }
        let stocks = match check_reserve_all(&self.products, items) {
            Some(st) => st,
            None => {
                return Err(OrderError::InsufficientStock);
            },
        };
        let new_products = build_products(&self.products, &stocks);
        self.products = new_products;
        let mut urec = self.users.remove(ui);
        urec.phone = Some(shipping.phone.clone());
        urec.address = Some(shipping.address.clone());
        self.users.insert(ui, urec);
        let points_earned: i64 = (total / 1000) as i64;
        let resp = CreateOrderResponse {
            order_id: order_id.clone(),
            points_earned: points_earned,
            final_amount: total,
        };
        let mut new_items = build_items(items, &item_ids, &order_id);
        let order = OrderRecord {
            id: order_id,
            user_id: user_id.clone(),
            total_amount: total,
            discount_amount: 0,
            final_amount: total,
            points_earned: points_earned,
            status: OrderStatus::Created,
            shipping: shipping,
        };
        self.orders.push(order);
        self.order_items.append(&mut new_items);
        proof {
            let ps2 = spec_with_stocks(s0.products, stocks@);
            let u2 = UserV {
                phone: Some(shipv.phone),
                address: Some(shipv.address),
                ..s0.users[ui as int]
            };
            let o2 = OrderV {
                id: oidv,
                user_id: user_id@,
                total_amount: total,
                discount_amount: 0,
                final_amount: total,
                points_earned: points_earned,
                status: OrderStatus::Created,
                shipping: shipv,
            };
            let expected = StoreV {
                products: ps2,
                users: s0.users.update(ui as int, u2),
                orders: s0.orders.push(o2),
                order_items: s0.order_items + spec_new_items(itemsv, idsv, oidv),
                settings: s0.settings,
            };
            assert(self@.products =~= ps2);
            assert(self@.users =~= s0.users.update(ui as int, u2));
            assert(self@.orders =~= s0.orders.push(o2));
            assert(self@.order_items =~= s0.order_items + spec_new_items(itemsv, idsv, oidv));
            assert(self@ =~= expected);
            assert(spec_create_order(s0, user_id@, itemsv, shipv, oidv, idsv)
                == CreateOutcome::Done(self@, resp@));

            let nw = self@;
            assert forall|a: int, b: int| 0 <= a < b < nw.products.len() implies (
            #[trigger] nw.products[a]).id != (#[trigger] nw.products[b]).id by {
                assert(nw.products[a].id == s0.products[a].id);
                assert(nw.products[b].id == s0.products[b].id);
            }
            assert forall|a: int, b: int| 0 <= a < b < nw.users.len() implies (
            #[trigger] nw.users[a]).id != (#[trigger] nw.users[b]).id by {
                assert(nw.users[a].id == s0.users[a].id);
                assert(nw.users[b].id == s0.users[b].id);
            }
            assert forall|a: int, b: int| 0 <= a < b < nw.orders.len() implies (
            #[trigger] nw.orders[a]).id != (#[trigger] nw.orders[b]).id by {
                lemma_order_index(s0.orders, oidv);
                if b < s0.orders.len() {
                    assert(nw.orders[a].id == s0.orders[a].id);
                    assert(nw.orders[b].id == s0.orders[b].id);
                } else {
                    assert(nw.orders[a].id == s0.orders[a].id);
                    assert(nw.orders[b].id == oidv);
                }
            }
            assert forall|a: int, b: int| 0 <= a < b < nw.order_items.len() implies (
            #[trigger] nw.order_items[a]).id != (#[trigger] nw.order_items[b]).id by {
                let n0 = s0.order_items.len() as int;
                if b < n0 {
                } else if a < n0 {
                    assert(nw.order_items[b].id == idsv[b - n0]);
                    lemma_item_index(s0.order_items, idsv[b - n0]);
                    assert(nw.order_items[a].id == s0.order_items[a].id);
                } else {
                    assert(nw.order_items[a].id == idsv[a - n0]);
                    assert(nw.order_items[b].id == idsv[b - n0]);
                }
            }
            assert forall|i: int| 0 <= i < nw.orders.len() implies spec_order_consistent(
                #[trigger] nw.orders[i],
            ) by {
                if i < s0.orders.len() {
                    assert(nw.orders[i] == s0.orders[i]);
                }
            }
            assert forall|i: int| 0 <= i < nw.order_items.len() implies (
            #[trigger] nw.order_items[i]).price * nw.order_items[i].quantity <= u64::MAX by {
                let n0 = s0.order_items.len() as int;
                if i < n0 {
                    assert(nw.order_items[i] == s0.order_items[i]);
                } else {
                    assert(nw.order_items[i].price == itemsv[i - n0].price);
                    assert(nw.order_items[i].quantity == itemsv[i - n0].quantity);
                    lemma_items_total_bounds(itemsv, i - n0);
                }
            }
        }
        Ok(resp)
    }
}

/// A stock shortfall and only a stock shortfall is reported as
/// insufficient stock, and a creation can only succeed when every
/// reservation goes through.
pub proof fn lemma_create_order_stock(
    s: StoreV,
    user_id: Seq<char>,
    items: Seq<OrderItemReqV>,
    shipping: ShippingV,
    order_id: Seq<char>,
    item_ids: Seq<Seq<char>>,
)
    ensures
        spec_create_order(s, user_id, items, shipping, order_id, item_ids) == CreateOutcome::Fail(
            OrderError::InsufficientStock,
        ) ==> spec_reserve_all(s.products, items) is None,
        spec_reserve_all(s.products, items) is None ==> !(spec_create_order(
            s,
            user_id,
            items,
            shipping,
            order_id,
            item_ids,
        ) is Done),
{
}

impl Store {
    /// Creates an order, minting the order and line identifiers from
    /// the shared generator. The wall clock decides what the generator
    /// returns, so this contract states what holds of every outcome:
    /// success applies exactly `spec_create_order` for the minted
    /// identifiers, every failure leaves the store untouched, and a
    /// stock shortfall can never be reported as success whatever
    /// identifiers were minted. The exact, identifier-deterministic
    /// contract lives on `create_order_with_ids`.
    #[verifier::rlimit(50)]
    pub fn create_order(
        &mut self,
        generator: &mut SuidGenerator,
        user_id: &String,
        items: &Vec<OrderItemRequest>,
        shipping: ShippingInfo,
    ) -> (r: Result<CreateOrderResponse, OrderError>)
        requires
            old(self).wf(),
            old(generator).wf(),
        ensures
            final(self).wf(),
            final(generator).wf(),
            (r matches Err(e) ==> *final(self) == *old(self)),
            (r matches Ok(resp) ==> exists|ids: Seq<Seq<char>>|
                #[trigger] spec_create_order(
                    old(self)@,
                    user_id@,
                    spec_items_view(*items),
                    shipping@,
                    resp.order_id@,
                    ids,
                ) == CreateOutcome::Done(final(self)@, resp@)),
            spec_reserve_all(
                old(self)@.products,
                items@.map_values(|it: OrderItemRequest| it@),
            ) is None ==> r is Err,
            r == Err::<CreateOrderResponse, OrderError>(OrderError::InsufficientStock)
                ==> spec_reserve_all(
                old(self)@.products,
                items@.map_values(|it: OrderItemRequest| it@),
            ) is None,
    {
        let order_id = match generator.suid() {
            Ok(text) => text,
            Err(e) => {
                return Err(OrderError::IdGeneration(e));
            },
        };
        let mut item_ids: Vec<String> = Vec::new();
        let mut k: usize = 0;
        while k < items.len()
            invariant
                0 <= k <= items@.len(),
                item_ids@.len() == k,
                generator.wf(),
                *self == *old(self),
                self.wf(),
            decreases items@.len() - k,
        {
            match generator.suid() {
                Ok(text) => {
                    item_ids.push(text);
                },
                Err(e) => {
                    return Err(OrderError::IdGeneration(e));
                },
            }
            k = k + 1;
        }
        let ghost s0 = self@;
        let ghost shipv = shipping@;
        let ghost oidv = order_id@;
        let ghost idsv = item_ids@.map_values(|text: String| text@);
        let r = self.create_order_with_ids(user_id, items, shipping, order_id, item_ids);
        proof {
            lemma_create_order_stock(s0, user_id@, spec_items_view(*items), shipv, oidv, idsv);
        }
        r
    }
}

/// The line rows a creation appends, built in request order.
fn build_items(items: &Vec<OrderItemRequest>, ids: &Vec<String>, order_id: &String) -> (r: Vec<
    OrderItemRecord,
>)
    requires
        ids@.len() == items@.len(),
    ensures
        r@.map_values(|it: OrderItemRecord| it@) =~= spec_new_items(
            items@.map_values(|it: OrderItemRequest| it@),
            ids@.map_values(|s: String| s@),
            order_id@,
        ),
{
    let ghost itemsv = items@.map_values(|it: OrderItemRequest| it@);
    let ghost idsv = ids@.map_values(|s: String| s@);
    let mut out: Vec<OrderItemRecord> = Vec::new();
    let mut k: usize = 0;
    while k < items.len()
        invariant
            0 <= k <= items.len(),
            itemsv == items@.map_values(|it: OrderItemRequest| it@),
            idsv == ids@.map_values(|s: String| s@),
            itemsv.len() == items@.len(),
            idsv.len() == items@.len(),
            out@.len() == k,
            forall|x: int| 0 <= x < k ==> (#[trigger] out@[x])@ == spec_new_items(
                itemsv,
                idsv,
                order_id@,
            )[x],
        decreases items.len() - k,
    {
        out.push(
            OrderItemRecord {
                id: ids[k].clone(),
                order_id: order_id.clone(),
                product_id: items[k].product_id.clone(),
                quantity: items[k].quantity,
                price: items[k].price,
            },
        );
        k = k + 1;
    }
    out
}

} // verus!
