//! The in-memory model of the relational store the engine mutates.
//!
//! The engine's operations — order creation, status transitions, stock
//! reservation, settings upserts — are all-or-nothing updates of one
//! `Store` value, the way the real rows live behind one database
//! transaction: an operation either returns Ok and leaves the new state,
//! or returns an error and leaves the store exactly as it was. The
//! surrounding system owns the real rows and replays the same updates
//! inside its transaction.

use vstd::prelude::*;
use crate::settings::{SettingItem, SettingV, UpdateSettingReq, str_eq};
use crate::suid::SuidError;
use crate::tier::Tier;

verus! {

/// Why an engine operation refused. The first five arise at order
/// creation, the rest at status transitions; `IdGeneration` carries a
/// clock fault from the identifier generator.
#[derive(Clone, Copy, Debug, PartialEq, Eq, Structural)]
pub enum OrderError {
    /// A line item asked for a quantity of zero.
    InvalidQuantity,
    /// The ordering user has no row.
    UserNotFound,
    /// The order total does not fit the machine word.
    AmountOverflow,
    /// A minted identifier collides with a stored row.
    DuplicateId,
    /// A product had less stock than a line item asked for.
    InsufficientStock,
    /// No order row has the requested identifier (or, for the
    /// self-service path, it is not owned by the caller).
    OrderNotFound,
    /// The self-service completion found the order not in shipping.
    InvalidStatus,
    /// Crediting or debiting points would leave the balance range.
    PointsOverflow,
    /// The identifier generator refused; the clock cannot currently
    /// support unique identifiers.
    IdGeneration(SuidError),
}

/// The order lifecycle states. `Created` is the entry state; ordinary
/// flow moves through `Shipping` to `Completed`, with `Cancelled`
/// reachable from any non-terminal state; administrative corrections may
/// move an order out of `Completed` again.
#[derive(Clone, Copy, Debug, PartialEq, Eq, Structural)]
pub enum OrderStatus {
    Created,
    Shipping,
    Completed,
    Cancelled,
}

/// The text form of each status, as the rows store it.
pub open spec fn spec_status_text(st: OrderStatus) -> Seq<char> {
    match st {
        OrderStatus::Created => "created"@,
        OrderStatus::Shipping => "shipping"@,
        OrderStatus::Completed => "completed"@,
        OrderStatus::Cancelled => "cancelled"@,
    }
}

/// The status a text names, if any.
pub open spec fn spec_parse_status(s: Seq<char>) -> Option<OrderStatus> {
    if s == "created"@ {
        Some(OrderStatus::Created)
    } else if s == "shipping"@ {
        Some(OrderStatus::Shipping)
    } else if s == "completed"@ {
        Some(OrderStatus::Completed)
    } else if s == "cancelled"@ {
        Some(OrderStatus::Cancelled)
    } else {
        None
    }
}

impl OrderStatus {
    /// The text form of this status.
    pub fn as_text(&self) -> (r: String)
        ensures
            r@ == spec_status_text(*self),
    {
        match self {
            OrderStatus::Created => String::from_str("created"),
            OrderStatus::Shipping => String::from_str("shipping"),
            OrderStatus::Completed => String::from_str("completed"),
            OrderStatus::Cancelled => String::from_str("cancelled"),
        }
    }
}

/// Parses a status name, as a transition request carries it.
pub fn parse_status(s: &str) -> (r: Option<OrderStatus>)
    ensures
        r == spec_parse_status(s@),
{
    if str_eq(s, "created") {
        Some(OrderStatus::Created)
    } else if str_eq(s, "shipping") {
        Some(OrderStatus::Shipping)
    } else if str_eq(s, "completed") {
        Some(OrderStatus::Completed)
    } else if str_eq(s, "cancelled") {
        Some(OrderStatus::Cancelled)
    } else {
        None
    }
}

/// The shipping snapshot an order carries: taken from the request at
/// creation and never edited afterwards.
pub struct ShippingInfo {
    pub name: String,
    pub phone: String,
    pub address: String,
    pub note: Option<String>,
}

/// A shipping snapshot as the specifications see it.
pub struct ShippingV {
    pub name: Seq<char>,
    pub phone: Seq<char>,
    pub address: Seq<char>,
    pub note: Option<Seq<char>>,
}

/// The view of an optional text field.
pub open spec fn spec_opt_text(o: Option<String>) -> Option<Seq<char>> {
    match o {
        Some(s) => Some(s@),
        None => None,
    }
}

impl View for ShippingInfo {
    type V = ShippingV;

    open spec fn view(&self) -> ShippingV {
        ShippingV {
            name: self.name@,
            phone: self.phone@,
            address: self.address@,
            note: spec_opt_text(self.note),
        }
    }
}

/// The inventory-relevant slice of a product row: its identifier, its
/// display name (carried into shipping notifications) and its stock,
/// which the type alone keeps non-negative.
pub struct ProductRecord {
    pub id: String,
    pub name: String,
    pub stock: u64,
}

pub struct ProductV {
    pub id: Seq<char>,
    pub name: Seq<char>,
    pub stock: u64,
}

impl View for ProductRecord {
    type V = ProductV;

    open spec fn view(&self) -> ProductV {
        ProductV { id: self.id@, name: self.name@, stock: self.stock }
    }
}

/// The loyalty-relevant slice of a user row: the points balance, the
/// tier derived from it, and the contact snapshot that each new order
/// overwrites.
pub struct UserRecord {
    pub id: String,
    pub email: String,
    pub points: i64,
    pub tier: Tier,
    pub phone: Option<String>,
    pub address: Option<String>,
}

pub struct UserV {
    pub id: Seq<char>,
    pub email: Seq<char>,
    pub points: i64,
    pub tier: Tier,
    pub phone: Option<Seq<char>>,
    pub address: Option<Seq<char>>,
}

impl View for UserRecord {
    type V = UserV;

    open spec fn view(&self) -> UserV {
        UserV {
            id: self.id@,
            email: self.email@,
            points: self.points,
            tier: self.tier,
            phone: spec_opt_text(self.phone),
            address: spec_opt_text(self.address),
        }
    }
}

/// An order row. Amounts are integral currency units; the final amount
/// is total minus discount, and the points to credit on completion are
/// the final amount divided by 1000, rounded down.
pub struct OrderRecord {
    pub id: String,
    pub user_id: String,
    pub total_amount: u64,
    pub discount_amount: u64,
    pub final_amount: u64,
    pub points_earned: i64,
    pub status: OrderStatus,
    pub shipping: ShippingInfo,
}

pub struct OrderV {
    pub id: Seq<char>,
    pub user_id: Seq<char>,
    pub total_amount: u64,
    pub discount_amount: u64,
    pub final_amount: u64,
    pub points_earned: i64,
    pub status: OrderStatus,
    pub shipping: ShippingV,
}

impl View for OrderRecord {
    type V = OrderV;

    open spec fn view(&self) -> OrderV {
        OrderV {
            id: self.id@,
            user_id: self.user_id@,
            total_amount: self.total_amount,
            discount_amount: self.discount_amount,
            final_amount: self.final_amount,
            points_earned: self.points_earned,
            status: self.status,
            shipping: self.shipping@,
        }
    }
}

/// An order line row: quantity and the unit price snapshot taken at
/// purchase time, immutable once written.
pub struct OrderItemRecord {
    pub id: String,
    pub order_id: String,
    pub product_id: String,
    pub quantity: u32,
    pub price: u64,
}

pub struct ItemV {
    pub id: Seq<char>,
    pub order_id: Seq<char>,
    pub product_id: Seq<char>,
    pub quantity: u32,
    pub price: u64,
}

impl View for OrderItemRecord {
    type V = ItemV;

    open spec fn view(&self) -> ItemV {
        ItemV {
            id: self.id@,
            order_id: self.order_id@,
            product_id: self.product_id@,
            quantity: self.quantity,
            price: self.price,
        }
    }
}

/// The whole store as the specifications see it.
#[verifier::ext_equal]
pub struct StoreV {
    pub products: Seq<ProductV>,
    pub users: Seq<UserV>,
    pub orders: Seq<OrderV>,
    pub order_items: Seq<ItemV>,
    pub settings: Seq<SettingV>,
}

/// The store: every row collection the engine reads or writes.
pub struct Store {
    pub products: Vec<ProductRecord>,
    pub users: Vec<UserRecord>,
    pub orders: Vec<OrderRecord>,
    pub order_items: Vec<OrderItemRecord>,
    pub settings: Vec<SettingItem>,
}

impl View for Store {
    type V = StoreV;

    open spec fn view(&self) -> StoreV {
        StoreV {
            products: self.products@.map_values(|p: ProductRecord| p@),
            users: self.users@.map_values(|u: UserRecord| u@),
            orders: self.orders@.map_values(|o: OrderRecord| o@),
            order_items: self.order_items@.map_values(|it: OrderItemRecord| it@),
            settings: self.settings@.map_values(|s: SettingItem| s@),
        }
    }
}

/// An order's stored amounts agree: discount within total, final amount
/// the difference, points earned the final amount in thousands.
pub open spec fn spec_order_consistent(o: OrderV) -> bool {
    &&& o.discount_amount <= o.total_amount
    &&& o.final_amount == o.total_amount - o.discount_amount
    &&& o.points_earned == o.final_amount as int / 1000
}

/// No two product rows share an identifier.
pub open spec fn spec_products_unique(ps: Seq<ProductV>) -> bool {
    forall|i: int, j: int| 0 <= i < j < ps.len() ==> (#[trigger] ps[i]).id != (#[trigger] ps[j]).id
}

/// No two user rows share an identifier.
pub open spec fn spec_users_unique(us: Seq<UserV>) -> bool {
    forall|i: int, j: int| 0 <= i < j < us.len() ==> (#[trigger] us[i]).id != (#[trigger] us[j]).id
}

/// No two order rows share an identifier.
pub open spec fn spec_orders_unique(os: Seq<OrderV>) -> bool {
    forall|i: int, j: int| 0 <= i < j < os.len() ==> (#[trigger] os[i]).id != (#[trigger] os[j]).id
}

/// No two order line rows share an identifier.
pub open spec fn spec_items_unique(its: Seq<ItemV>) -> bool {
    forall|i: int, j: int|
        0 <= i < j < its.len() ==> (#[trigger] its[i]).id != (#[trigger] its[j]).id
}

/// Every line row's price times quantity fits the machine word.
pub open spec fn spec_items_amounts_fit(its: Seq<ItemV>) -> bool {
    forall|i: int|
        0 <= i < its.len() ==> (#[trigger] its[i]).price * its[i].quantity <= u64::MAX
}

/// No two settings rows share a key.
pub open spec fn spec_settings_unique_seq(rows: Seq<SettingV>) -> bool {
    forall|i: int, j: int|
        0 <= i < j < rows.len() ==> (#[trigger] rows[i]).id != (#[trigger] rows[j]).id
}

impl StoreV {
    pub open spec fn products_unique(self) -> bool {
        spec_products_unique(self.products)
    }

    pub open spec fn users_unique(self) -> bool {
        spec_users_unique(self.users)
    }

    pub open spec fn orders_unique(self) -> bool {
        spec_orders_unique(self.orders)
    }

    pub open spec fn items_unique(self) -> bool {
        spec_items_unique(self.order_items)
    }

    pub open spec fn settings_unique(self) -> bool {
        spec_settings_unique_seq(self.settings)
    }

    pub open spec fn orders_consistent(self) -> bool {
        forall|i: int|
            0 <= i < self.orders.len() ==> spec_order_consistent(#[trigger] self.orders[i])
    }

    /// Every line's amount fits the machine word, so line totals can be
    /// rendered without overflow.
    pub open spec fn items_fit(self) -> bool {
        spec_items_amounts_fit(self.order_items)
    }

    /// The store's invariant: row identifiers are unique per collection,
    /// every order's amounts agree, and every line's amount fits.
    pub open spec fn wf(self) -> bool {
        &&& self.products_unique()
        &&& self.users_unique()
        &&& self.orders_unique()
        &&& self.items_unique()
        &&& self.settings_unique()
        &&& self.orders_consistent()
        &&& self.items_fit()
    }
}

/// The index of the product row with this identifier, or -1. With
/// unique identifiers the index is the unique match.
pub open spec fn spec_product_index(ps: Seq<ProductV>, id: Seq<char>) -> int {
    if exists|k: int| 0 <= k < ps.len() && (#[trigger] ps[k]).id == id {
        choose|k: int| 0 <= k < ps.len() && (#[trigger] ps[k]).id == id
    } else {
        -1
    }
}

/// What `spec_product_index` yields: a matching index, or -1 with no
/// match anywhere.
pub proof fn lemma_product_index(ps: Seq<ProductV>, id: Seq<char>)
    ensures
        ({
            let k = spec_product_index(ps, id);
            ||| (k == -1 && forall|i: int| 0 <= i < ps.len() ==> (#[trigger] ps[i]).id != id)
            ||| (0 <= k < ps.len() && ps[k].id == id)
        }),
{
}

/// Under unique identifiers a matching index is the index.
pub proof fn lemma_product_index_of(ps: Seq<ProductV>, i: int, id: Seq<char>)
    requires
        spec_products_unique(ps),
        0 <= i < ps.len(),
        ps[i].id == id,
    ensures
        spec_product_index(ps, id) == i,
{
    let k = spec_product_index(ps, id);
    assert(0 <= k < ps.len() && ps[k].id == id);
    if k < i {
        assert(ps[k].id != ps[i].id);
    } else if i < k {
        assert(ps[i].id != ps[k].id);
    }
}

/// The index of the user row with this identifier, or -1.
pub open spec fn spec_user_index(us: Seq<UserV>, id: Seq<char>) -> int {
    if exists|k: int| 0 <= k < us.len() && (#[trigger] us[k]).id == id {
        choose|k: int| 0 <= k < us.len() && (#[trigger] us[k]).id == id
    } else {
        -1
    }
}

pub proof fn lemma_user_index(us: Seq<UserV>, id: Seq<char>)
    ensures
        ({
            let k = spec_user_index(us, id);
            ||| (k == -1 && forall|i: int| 0 <= i < us.len() ==> (#[trigger] us[i]).id != id)
            ||| (0 <= k < us.len() && us[k].id == id)
        }),
{
}

pub proof fn lemma_user_index_of(us: Seq<UserV>, i: int, id: Seq<char>)
    requires
        spec_users_unique(us),
        0 <= i < us.len(),
        us[i].id == id,
    ensures
        spec_user_index(us, id) == i,
{
    let k = spec_user_index(us, id);
    assert(0 <= k < us.len() && us[k].id == id);
    if k < i {
        assert(us[k].id != us[i].id);
    } else if i < k {
        assert(us[i].id != us[k].id);
    }
}

/// The index of the order row with this identifier, or -1.
pub open spec fn spec_order_index(os: Seq<OrderV>, id: Seq<char>) -> int {
    if exists|k: int| 0 <= k < os.len() && (#[trigger] os[k]).id == id {
        choose|k: int| 0 <= k < os.len() && (#[trigger] os[k]).id == id
    } else {
        -1
    }
}

pub proof fn lemma_order_index(os: Seq<OrderV>, id: Seq<char>)
    ensures
        ({
            let k = spec_order_index(os, id);
            ||| (k == -1 && forall|i: int| 0 <= i < os.len() ==> (#[trigger] os[i]).id != id)
            ||| (0 <= k < os.len() && os[k].id == id)
        }),
{
}

pub proof fn lemma_order_index_of(os: Seq<OrderV>, i: int, id: Seq<char>)
    requires
        spec_orders_unique(os),
        0 <= i < os.len(),
        os[i].id == id,
    ensures
        spec_order_index(os, id) == i,
{
    let k = spec_order_index(os, id);
    assert(0 <= k < os.len() && os[k].id == id);
    if k < i {
        assert(os[k].id != os[i].id);
    } else if i < k {
        assert(os[i].id != os[k].id);
    }
}

/// The index of the order line row with this identifier, or -1.
pub open spec fn spec_item_index(its: Seq<ItemV>, id: Seq<char>) -> int {
    if exists|k: int| 0 <= k < its.len() && (#[trigger] its[k]).id == id {
        choose|k: int| 0 <= k < its.len() && (#[trigger] its[k]).id == id
    } else {
        -1
    }
}

pub proof fn lemma_item_index(its: Seq<ItemV>, id: Seq<char>)
    ensures
        ({
            let k = spec_item_index(its, id);
            ||| (k == -1 && forall|i: int| 0 <= i < its.len() ==> (#[trigger] its[i]).id != id)
            ||| (0 <= k < its.len() && its[k].id == id)
        }),
{
}

/// The index of the settings row with this key, or -1.
pub open spec fn spec_setting_index(rows: Seq<SettingV>, id: Seq<char>) -> int {
    if exists|k: int| 0 <= k < rows.len() && (#[trigger] rows[k]).id == id {
        choose|k: int| 0 <= k < rows.len() && (#[trigger] rows[k]).id == id
    } else {
        -1
    }
}

pub proof fn lemma_setting_index(rows: Seq<SettingV>, id: Seq<char>)
    ensures
        ({
            let k = spec_setting_index(rows, id);
            ||| (k == -1 && forall|i: int| 0 <= i < rows.len() ==> (#[trigger] rows[i]).id != id)
            ||| (0 <= k < rows.len() && rows[k].id == id)
        }),
{
}

pub proof fn lemma_setting_index_of(rows: Seq<SettingV>, i: int, id: Seq<char>)
    requires
        spec_settings_unique_seq(rows),
        0 <= i < rows.len(),
        rows[i].id == id,
    ensures
        spec_setting_index(rows, id) == i,
{
    let k = spec_setting_index(rows, id);
    assert(0 <= k < rows.len() && rows[k].id == id);
    if k < i {
        assert(rows[k].id != rows[i].id);
    } else if i < k {
        assert(rows[i].id != rows[k].id);
    }
}

/// Finds the position of a product row by identifier.
pub fn find_product(products: &Vec<ProductRecord>, id: &str) -> (r: Option<usize>)
    ensures
        ({
            let pv = products@.map_values(|p: ProductRecord| p@);
            match r {
                Some(j) => j < pv.len() && pv[j as int].id == id@,
                None => forall|i: int| 0 <= i < pv.len() ==> (#[trigger] pv[i]).id != id@,
            }
        }),
{
    let ghost pv = products@.map_values(|p: ProductRecord| p@);
    let mut j: usize = 0;
    while j < products.len()
        invariant
            0 <= j <= products.len(),
            pv == products@.map_values(|p: ProductRecord| p@),
            pv.len() == products@.len(),
            forall|i: int| 0 <= i < j ==> (#[trigger] pv[i]).id != id@,
        decreases products.len() - j,
    {
        if str_eq(products[j].id.as_str(), id) {
            return Some(j);
        }
        j = j + 1;
    }
    None
}

/// Finds the position of a user row by identifier.
pub fn find_user(users: &Vec<UserRecord>, id: &str) -> (r: Option<usize>)
    ensures
        ({
            let uv = users@.map_values(|u: UserRecord| u@);
            match r {
                Some(j) => j < uv.len() && uv[j as int].id == id@,
                None => forall|i: int| 0 <= i < uv.len() ==> (#[trigger] uv[i]).id != id@,
            }
        }),
{
    let ghost uv = users@.map_values(|u: UserRecord| u@);
    let mut j: usize = 0;
    while j < users.len()
        invariant
            0 <= j <= users.len(),
            uv == users@.map_values(|u: UserRecord| u@),
            uv.len() == users@.len(),
            forall|i: int| 0 <= i < j ==> (#[trigger] uv[i]).id != id@,
        decreases users.len() - j,
    {
        if str_eq(users[j].id.as_str(), id) {
            return Some(j);
        }
        j = j + 1;
    }
    None
}

/// Finds the position of an order row by identifier.
pub fn find_order(orders: &Vec<OrderRecord>, id: &str) -> (r: Option<usize>)
    ensures
        ({
            let ov = orders@.map_values(|o: OrderRecord| o@);
            match r {
                Some(j) => j < ov.len() && ov[j as int].id == id@,
                None => forall|i: int| 0 <= i < ov.len() ==> (#[trigger] ov[i]).id != id@,
            }
        }),
{
    let ghost ov = orders@.map_values(|o: OrderRecord| o@);
    let mut j: usize = 0;
    while j < orders.len()
        invariant
            0 <= j <= orders.len(),
            ov == orders@.map_values(|o: OrderRecord| o@),
            ov.len() == orders@.len(),
            forall|i: int| 0 <= i < j ==> (#[trigger] ov[i]).id != id@,
        decreases orders.len() - j,
    {
        if str_eq(orders[j].id.as_str(), id) {
            return Some(j);
        }
        j = j + 1;
    }
    None
}

/// Finds the position of an order line row by identifier.
pub fn find_item(items: &Vec<OrderItemRecord>, id: &str) -> (r: Option<usize>)
    ensures
        ({
            let iv = items@.map_values(|it: OrderItemRecord| it@);
            match r {
                Some(j) => j < iv.len() && iv[j as int].id == id@,
                None => forall|i: int| 0 <= i < iv.len() ==> (#[trigger] iv[i]).id != id@,
            }
        }),
{
    let ghost iv = items@.map_values(|it: OrderItemRecord| it@);
    let mut j: usize = 0;
    while j < items.len()
        invariant
            0 <= j <= items.len(),
            iv == items@.map_values(|it: OrderItemRecord| it@),
            iv.len() == items@.len(),
            forall|i: int| 0 <= i < j ==> (#[trigger] iv[i]).id != id@,
        decreases items.len() - j,
    {
        if str_eq(items[j].id.as_str(), id) {
            return Some(j);
        }
        j = j + 1;
    }
    None
}

/// Finds the position of a settings row by key.
pub fn find_setting(rows: &Vec<SettingItem>, id: &str) -> (r: Option<usize>)
    ensures
        ({
            let sv = rows@.map_values(|s: SettingItem| s@);
            match r {
                Some(j) => j < sv.len() && sv[j as int].id == id@,
                None => forall|i: int| 0 <= i < sv.len() ==> (#[trigger] sv[i]).id != id@,
            }
        }),
{
    let ghost sv = rows@.map_values(|s: SettingItem| s@);
    let mut j: usize = 0;
    while j < rows.len()
        invariant
            0 <= j <= rows.len(),
            sv == rows@.map_values(|s: SettingItem| s@),
            sv.len() == rows@.len(),
            forall|i: int| 0 <= i < j ==> (#[trigger] sv[i]).id != id@,
        decreases rows.len() - j,
    {
        if str_eq(rows[j].id.as_str(), id) {
            return Some(j);
        }
        j = j + 1;
    }
    None
}

/// The conditional stock decrement, as a pure function of the product
/// rows: take `quantity` from the product's stock where the stock
/// suffices, and refuse otherwise.
pub open spec fn spec_reserve(ps: Seq<ProductV>, product_id: Seq<char>, quantity: u32) -> Option<
    Seq<ProductV>,
> {
    let k = spec_product_index(ps, product_id);
    if k >= 0 && quantity as u64 <= ps[k].stock {
        Some(ps.update(k, ProductV { stock: (ps[k].stock - quantity as u64) as u64, ..ps[k] }))
    } else {
        None
    }
}

impl Store {
    pub open spec fn wf(self) -> bool {
        self@.wf()
    }

    /// An empty store.
    pub fn new() -> (s: Store)
        ensures
            s.wf(),
            s@.products.len() == 0,
            s@.users.len() == 0,
            s@.orders.len() == 0,
            s@.order_items.len() == 0,
            s@.settings.len() == 0,
    {
        Store {
            products: Vec::new(),
            users: Vec::new(),
            orders: Vec::new(),
            order_items: Vec::new(),
            settings: Vec::new(),
        }
    }

    /// Adds a product row; refuses a duplicate identifier.
    pub fn add_product(&mut self, product: ProductRecord) -> (r: Result<(), OrderError>)
        requires
            old(self).wf(),
        ensures
            final(self).wf(),
            spec_product_index(old(self)@.products, product@.id) < 0 ==> r == Ok::<
                (),
                OrderError,
            >(()) && final(self)@ == (StoreV {
                products: old(self)@.products.push(product@),
                ..old(self)@
            }),
            spec_product_index(old(self)@.products, product@.id) >= 0 ==> r == Err::<
                (),
                OrderError,
            >(OrderError::DuplicateId) && *final(self) == *old(self),
    {
        let ghost pv0 = self@.products;
        match find_product(&self.products, product.id.as_str()) {
            Some(j) => {
                proof {
                    lemma_product_index_of(self@.products, j as int, product@.id);
                }
                Err(OrderError::DuplicateId)
            },
            None => {
                proof {
                    lemma_product_index(pv0, product@.id);
                }
                self.products.push(product);
                proof {
                    assert(self@.products =~= pv0.push(product@));
                    assert(self@ == (StoreV { products: pv0.push(product@), ..old(self)@ }));
                }
                Ok(())
            },
        }
    }

    /// Adds a user row; refuses a duplicate identifier.
    pub fn add_user(&mut self, user: UserRecord) -> (r: Result<(), OrderError>)
        requires
            old(self).wf(),
        ensures
            final(self).wf(),
            spec_user_index(old(self)@.users, user@.id) < 0 ==> r == Ok::<(), OrderError>(())
                && final(self)@ == (StoreV { users: old(self)@.users.push(user@), ..old(self)@ }),
            spec_user_index(old(self)@.users, user@.id) >= 0 ==> r == Err::<(), OrderError>(
                OrderError::DuplicateId,
            ) && *final(self) == *old(self),
    {
        let ghost uv0 = self@.users;
        match find_user(&self.users, user.id.as_str()) {
            Some(j) => {
                proof {
                    lemma_user_index_of(self@.users, j as int, user@.id);
                }
                Err(OrderError::DuplicateId)
            },
            None => {
                proof {
                    lemma_user_index(uv0, user@.id);
                }
                self.users.push(user);
                proof {
                    assert(self@.users =~= uv0.push(user@));
                    assert(self@ == (StoreV { users: uv0.push(user@), ..old(self)@ }));
                }
                Ok(())
            },
        }
    }

    /// The inventory ledger's reservation: decrement the product's stock
    /// by `quantity` on the condition that the stock suffices, in one
    /// conditional update, so two racing reservations serialized on the
    /// store can never drive stock negative. A missing product reads as
    /// insufficient stock, as a conditional update that touched no row.
    pub fn reserve(&mut self, product_id: &str, quantity: u32) -> (r: Result<(), OrderError>)
        requires
            old(self).wf(),
        ensures
            final(self).wf(),
            (spec_reserve(old(self)@.products, product_id@, quantity) matches Some(ps2) ==> r
                == Ok::<(), OrderError>(()) && final(self)@ == (StoreV {
                products: ps2,
                ..old(self)@
            })),
            spec_reserve(old(self)@.products, product_id@, quantity) is None ==> r == Err::<
                (),
                OrderError,
            >(OrderError::InsufficientStock) && *final(self) == *old(self),
    {
        let ghost pv0 = self@.products;
        let idx = match find_product(&self.products, product_id) {
            Some(j) => j,
            None => {
                proof {
                    lemma_product_index(pv0, product_id@);
                }
                return Err(OrderError::InsufficientStock);
            },
        };
        proof {
            lemma_product_index_of(self@.products, idx as int, product_id@);
        }
        if (quantity as u64) > self.products[idx].stock {
            return Err(OrderError::InsufficientStock);
        }
        let mut p = self.products.remove(idx);
        p.stock = p.stock - (quantity as u64);
        self.products.insert(idx, p);
        proof {
            let pv2 = spec_reserve(pv0, product_id@, quantity)->Some_0;
            assert(self@.products =~= pv2);
            assert(self@ == (StoreV { products: pv2, ..old(self)@ }));
            assert forall|i: int, j: int| 0 <= i < j < self@.products.len() implies (
            #[trigger] self@.products[i]).id != (#[trigger] self@.products[j]).id by {
                assert(self@.products[i].id == pv0[i].id);
                assert(self@.products[j].id == pv0[j].id);
            }
        }
        Ok(())
    }

    /// Writes a batch of settings rows, each inserted under its key or
    /// overwriting the row that holds it — the upsert the admin console
    /// performs, applied in batch order.
    pub fn update_settings(&mut self, req: UpdateSettingReq)
        requires
            old(self).wf(),
        ensures
            final(self).wf(),
            final(self)@ == (StoreV {
                settings: spec_settings_upsert_all(
                    old(self)@.settings,
                    req.settings@.map_values(|s: SettingItem| s@),
                ),
                ..old(self)@
            }),
    {
        let ghost rows0 = self@.settings;
        let ghost batch0 = req.settings@.map_values(|s: SettingItem| s@);
        let mut batch = req.settings;
        proof {
            assert(batch@.map_values(|s: SettingItem| s@) =~= batch0);
        }
        while batch.len() > 0
            invariant
                self@.settings_unique(),
                spec_settings_upsert_all(self@.settings, batch@.map_values(|s: SettingItem| s@))
                    == spec_settings_upsert_all(rows0, batch0),
                self@ == (StoreV { settings: self@.settings, ..old(self)@ }),
                old(self)@.wf(),
            decreases batch.len(),
        {
            let ghost rows_before = self@.settings;
            let ghost batch_before = batch@.map_values(|s: SettingItem| s@);
            let item = batch.remove(0);
            proof {
                assert(batch@.map_values(|s: SettingItem| s@) =~= batch_before.subrange(
                    1,
                    batch_before.len() as int,
                ));
            }
            match find_setting(&self.settings, item.id.as_str()) {
                Some(j) => {
                    proof {
                        lemma_setting_index_of(self@.settings, j as int, item@.id);
                    }
                    let ghost sv_before = self@.settings;
                    self.settings.remove(j);
                    self.settings.insert(j, item);
                    proof {
                        assert(self@.settings =~= sv_before.update(j as int, item@));
                        assert(self@.settings =~= spec_settings_upsert(rows_before, item@));
                        assert forall|a: int, b: int|
                            0 <= a < b < self@.settings.len() implies (
                        #[trigger] self@.settings[a]).id != (#[trigger] self@.settings[b]).id by {
                            assert(rows_before[a].id == if a == j {
                                item@.id
                            } else {
                                self@.settings[a].id
                            });
                        }
                    }
                },
                None => {
                    proof {
                        lemma_setting_index(rows_before, item@.id);
                    }
                    let ghost sv_before = self@.settings;
                    self.settings.push(item);
                    proof {
                        assert(self@.settings =~= sv_before.push(item@));
                        assert(self@.settings =~= spec_settings_upsert(rows_before, item@));
                    }
                },
            }
        }
        proof {
            assert(batch@.map_values(|s: SettingItem| s@) =~= Seq::<SettingV>::empty());
        }
    }
}

/// One settings row written under its key: it overwrites the row that
/// holds the key, or is appended when no row does.
pub open spec fn spec_settings_upsert(rows: Seq<SettingV>, row: SettingV) -> Seq<SettingV> {
    let k = spec_setting_index(rows, row.id);
    if k >= 0 {
        rows.update(k, row)
    } else {
        rows.push(row)
    }
}

/// A batch of settings rows written in order.
pub open spec fn spec_settings_upsert_all(rows: Seq<SettingV>, batch: Seq<SettingV>) -> Seq<
    SettingV,
>
    decreases batch.len(),
{
    if batch.len() == 0 {
        rows
    } else {
        spec_settings_upsert_all(
            spec_settings_upsert(rows, batch[0]),
            batch.subrange(1, batch.len() as int),
        )
    }
}

/// The stock left after a run of reservation requests against one
/// product, granted in order where the remaining stock suffices.
pub open spec fn spec_remaining_stock(stock: u64, requests: Seq<u32>) -> u64
    decreases requests.len(),
{
    if requests.len() == 0 {
        stock
    } else {
        let before = spec_remaining_stock(stock, requests.drop_last());
        if requests.last() as u64 <= before {
            (before - requests.last() as u64) as u64
        } else {
            before
        }
    }
}

/// The total quantity those requests were granted.
pub open spec fn spec_granted_total(stock: u64, requests: Seq<u32>) -> int
    decreases requests.len(),
{
    if requests.len() == 0 {
        0
    } else {
        let before = spec_remaining_stock(stock, requests.drop_last());
        spec_granted_total(stock, requests.drop_last()) + if requests.last() as u64 <= before {
            requests.last() as int
        } else {
            0
        }
    }
}

/// Stock non-negativity law: however many reservation requests run
/// against a product with stock S — the store serializes them as the
/// database transaction does — the granted quantities sum to at most S,
/// and the remaining stock is exactly S minus that sum, so it never
/// goes negative.
pub proof fn lemma_stock_conservation(stock: u64, requests: Seq<u32>)
    ensures
        spec_granted_total(stock, requests) >= 0,
        spec_remaining_stock(stock, requests) as int == stock - spec_granted_total(stock, requests),
        spec_granted_total(stock, requests) <= stock,
    decreases requests.len(),
{
    if requests.len() > 0 {
        lemma_stock_conservation(stock, requests.drop_last());
    }
}

/// The product rows after a run of reservation requests against one
/// product: each request granted by the conditional decrement where the
/// stock suffices, refused otherwise, in order — what a sequence of
/// `reserve` calls leaves.
pub open spec fn spec_reserve_run(
    ps: Seq<ProductV>,
    product_id: Seq<char>,
    requests: Seq<u32>,
) -> Seq<ProductV>
    decreases requests.len(),
{
    if requests.len() == 0 {
        ps
    } else {
        let before = spec_reserve_run(ps, product_id, requests.drop_last());
        match spec_reserve(before, product_id, requests.last()) {
            Some(ps2) => ps2,
            None => before,
        }
    }
}

/// Stock non-negativity law, on the ledger itself: a run of
/// reservations against one product touches no other row and leaves
/// that product with exactly its starting stock minus the granted
/// total, as the single-product fold states it.
pub proof fn lemma_reserve_run_conserves(
    ps: Seq<ProductV>,
    product_id: Seq<char>,
    requests: Seq<u32>,
)
    requires
        spec_products_unique(ps),
        spec_product_index(ps, product_id) >= 0,
    ensures
        ({
            let k = spec_product_index(ps, product_id);
            let after = spec_reserve_run(ps, product_id, requests);
            &&& after.len() == ps.len()
            &&& (forall|i: int| 0 <= i < ps.len() && i != k ==> after[i] == #[trigger] ps[i])
            &&& after[k] == (ProductV {
                stock: spec_remaining_stock(ps[k].stock, requests),
                ..ps[k]
            })
        }),
    decreases requests.len(),
{
    let k = spec_product_index(ps, product_id);
    if requests.len() > 0 {
        lemma_reserve_run_conserves(ps, product_id, requests.drop_last());
        let before = spec_reserve_run(ps, product_id, requests.drop_last());
        assert forall|a: int, b: int| 0 <= a < b < before.len() implies (
        #[trigger] before[a]).id != (#[trigger] before[b]).id by {
            assert(before[a].id == ps[a].id);
            assert(before[b].id == ps[b].id);
        }
        lemma_product_index_of(before, k, product_id);
    }
}

} // verus!
