//! Order status transitions and their side effects.
//!
//! A transition reads the order and its user, moves points when the
//! order enters or leaves `Completed`, recomputes the tier on credit
//! from the live threshold configuration, persists the new status, and
//! reports the notifications to dispatch — all in one all-or-nothing
//! update of the store. Crediting is deferred: points are moved only by
//! transitions, never at creation. Re-running a transition to a status
//! the order already holds moves no points. On the debit path the tier
//! is deliberately left as it stands, matching the credit-only
//! recomputation of the stored design.
//!
//! Notification dispatch is outside the engine: the caller fires the
//! returned notifications after the transaction commits, best-effort,
//! and their failure never rolls the transition back.

use vstd::prelude::*;
use crate::auth::AuthUser;
use crate::settings::{spec_thresholds, thresholds_from_settings};
use crate::store::{
    find_order, find_product, find_user, lemma_order_index, lemma_order_index_of,
    lemma_product_index, lemma_product_index_of, lemma_user_index, lemma_user_index_of,
    spec_items_amounts_fit, spec_order_index, spec_product_index, spec_products_unique,
    spec_user_index, ItemV, OrderError, OrderItemRecord, OrderStatus, OrderV, ProductRecord,
    ProductV, Store, StoreV, UserV,
};
use crate::tier::{resolve_tier, spec_resolve_tier};

verus! {

/// One rendered line of a shipping notification: the product's display
/// name and the quantities and amounts of the order line.
#[derive(Clone, Debug, PartialEq, Eq)]
pub struct LineSummary {
    pub name: String,
    pub quantity: u32,
    pub price: u64,
    pub line_total: u64,
}

pub struct LineV {
    pub name: Seq<char>,
    pub quantity: u32,
    pub price: u64,
    pub line_total: u64,
}

impl View for LineSummary {
    type V = LineV;

    open spec fn view(&self) -> LineV {
        LineV {
            name: self.name@,
            quantity: self.quantity,
            price: self.price,
            line_total: self.line_total,
        }
    }
}

/// A notification a transition asks the caller to dispatch, after
/// commit, best-effort.
#[derive(Clone, Debug, PartialEq, Eq)]
pub enum Notification {
    /// The order entered shipping: mail the line summary and the amount
    /// due.
    Shipping { email: String, order_id: String, lines: Vec<LineSummary>, final_amount: u64 },
    /// The order was completed: thank the user and name the credited
    /// points.
    ThankYou { email: String, order_id: String, points: i64 },
}

pub enum NotificationV {
    Shipping { email: Seq<char>, order_id: Seq<char>, lines: Seq<LineV>, final_amount: u64 },
    ThankYou { email: Seq<char>, order_id: Seq<char>, points: i64 },
}

impl View for Notification {
    type V = NotificationV;

    open spec fn view(&self) -> NotificationV {
        match self {
            Notification::Shipping { email, order_id, lines, final_amount } =>
                NotificationV::Shipping {
                email: email@,
                order_id: order_id@,
                lines: lines@.map_values(|l: LineSummary| l@),
                final_amount: *final_amount,
            },
            Notification::ThankYou { email, order_id, points } => NotificationV::ThankYou {
                email: email@,
                order_id: order_id@,
                points: *points,
            },
        }
    }
}

/// The rendered lines of an order: each of its line rows joined with
/// its product's display name, in row order; a line whose product row
/// is gone is dropped, as the join drops it.
pub open spec fn spec_lines(
    items: Seq<ItemV>,
    products: Seq<ProductV>,
    order_id: Seq<char>,
) -> Seq<LineV>
    decreases items.len(),
{
    if items.len() == 0 {
        Seq::empty()
    } else {
        let rest = spec_lines(items.drop_last(), products, order_id);
        let it = items.last();
        if it.order_id == order_id {
            let pi = spec_product_index(products, it.product_id);
            if pi >= 0 {
                rest.push(
                    LineV {
                        name: products[pi].name,
                        quantity: it.quantity,
                        price: it.price,
                        line_total: (it.price * it.quantity) as u64,
                    },
                )
            } else {
                rest
            }
        } else {
            rest
        }
    }
}

/// Extending the rows by one extends the rendered lines by at most that
/// row's line.
proof fn lemma_lines_step(
    items: Seq<ItemV>,
    products: Seq<ProductV>,
    order_id: Seq<char>,
    k: int,
)
    requires
        0 <= k < items.len(),
    ensures
        spec_lines(items.take(k + 1), products, order_id) == ({
            let rest = spec_lines(items.take(k), products, order_id);
            let it = items[k];
            if it.order_id == order_id {
                let pi = spec_product_index(products, it.product_id);
                if pi >= 0 {
                    rest.push(
                        LineV {
                            name: products[pi].name,
                            quantity: it.quantity,
                            price: it.price,
                            line_total: (it.price * it.quantity) as u64,
                        },
                    )
                } else {
                    rest
                }
            } else {
                rest
            }
        }),
{
    assert(items.take(k + 1).drop_last() =~= items.take(k));
    assert(items.take(k + 1).last() == items[k]);
}

/// Renders the notification lines of an order from the stored rows.
fn build_lines(
    items: &Vec<OrderItemRecord>,
    products: &Vec<ProductRecord>,
    order_id: &str,
) -> (r: Vec<LineSummary>)
    requires
        spec_products_unique(products@.map_values(|p: ProductRecord| p@)),
        spec_items_amounts_fit(items@.map_values(|it: OrderItemRecord| it@)),
    ensures
        r@.map_values(|l: LineSummary| l@) == spec_lines(
            items@.map_values(|it: OrderItemRecord| it@),
            products@.map_values(|p: ProductRecord| p@),
            order_id@,
        ),
{
    let ghost iv = items@.map_values(|it: OrderItemRecord| it@);
    let ghost pv = products@.map_values(|p: ProductRecord| p@);
    let mut out: Vec<LineSummary> = Vec::new();
    let mut k: usize = 0;
    while k < items.len()
        invariant
            0 <= k <= items.len(),
            iv == items@.map_values(|it: OrderItemRecord| it@),
            pv == products@.map_values(|p: ProductRecord| p@),
            iv.len() == items@.len(),
            pv.len() == products@.len(),
            spec_products_unique(pv),
            spec_items_amounts_fit(iv),
            out@.map_values(|l: LineSummary| l@) == spec_lines(iv.take(k as int), pv, order_id@),
        decreases items.len() - k,
    {
        let ghost lines_before = out@.map_values(|l: LineSummary| l@);
        proof {
            lemma_lines_step(iv, pv, order_id@, k as int);
        }
        if crate::settings::str_eq(items[k].order_id.as_str(), order_id) {
            match find_product(products, items[k].product_id.as_str()) {
                Some(j) => {
                    proof {
                        lemma_product_index_of(pv, j as int, iv[k as int].product_id);
                        assert(iv[k as int].price * iv[k as int].quantity <= u64::MAX);
                    }
                    let line_total = items[k].price * (items[k].quantity as u64);
                    out.push(
                        LineSummary {
                            name: products[j].name.clone(),
                            quantity: items[k].quantity,
                            price: items[k].price,
                            line_total: line_total,
                        },
                    );
                    proof {
                        assert(out@.map_values(|l: LineSummary| l@) =~= spec_lines(
                            iv.take(k + 1),
                            pv,
                            order_id@,
                        ));
                    }
                },
                None => {
                    proof {
                        lemma_product_index(pv, iv[k as int].product_id);
                    }
                },
            }
        }
        k = k + 1;
    }
    proof {
        assert(iv.take(items@.len() as int) =~= iv);
    }
    out
}

/// What one transition does to the store and which notifications it
/// asks for, or why it refuses.
pub enum UpdateOutcome {
    Done(StoreV, Seq<NotificationV>),
    Fail(OrderError),
}

/// The whole status transition as a pure function of the store: find
/// the order and its user (a missing row of either reads as order not
/// found, as the join behaves); entering `Completed` from any other
/// status credits the order's stored points and recomputes the tier
/// from the live thresholds; leaving `Completed` for any other status
/// debits the same points back, leaving the tier as it stands; a
/// transition to the status the order already holds moves nothing.
/// Entering `Shipping` asks for the shipping notification with the
/// rendered lines, and a credit asks for the thank-you notification.
/// The new status is persisted in every non-failing case.
pub open spec fn spec_update_status(
    s: StoreV,
    order_id: Seq<char>,
    new_status: OrderStatus,
) -> UpdateOutcome {
    let oi = spec_order_index(s.orders, order_id);
    if oi == -1 {
        UpdateOutcome::Fail(OrderError::OrderNotFound)
    } else {
        let o = s.orders[oi];
        let ui = spec_user_index(s.users, o.user_id);
        if ui == -1 {
            UpdateOutcome::Fail(OrderError::OrderNotFound)
        } else {
            let u = s.users[ui];
            let credit = o.status != OrderStatus::Completed && new_status
                == OrderStatus::Completed;
            let debit = o.status == OrderStatus::Completed && new_status
                != OrderStatus::Completed;
            if credit && u.points + o.points_earned > i64::MAX {
                UpdateOutcome::Fail(OrderError::PointsOverflow)
            } else if debit && u.points - o.points_earned < i64::MIN {
                UpdateOutcome::Fail(OrderError::PointsOverflow)
            } else {
                let new_points: i64 = if credit {
                    (u.points + o.points_earned) as i64
                } else if debit {
                    (u.points - o.points_earned) as i64
                } else {
                    u.points
                };
                let new_tier = if credit {
                    spec_resolve_tier(new_points, spec_thresholds(s.settings))
                } else {
                    u.tier
                };
                let s2 = StoreV {
                    orders: s.orders.update(oi, OrderV { status: new_status, ..o }),
                    users: s.users.update(ui, UserV { points: new_points, tier: new_tier, ..u }),
                    ..s
                };
                let ship_notes: Seq<NotificationV> = if o.status != OrderStatus::Shipping
                    && new_status == OrderStatus::Shipping {
                    seq![
                        NotificationV::Shipping {
                            email: u.email,
                            order_id: order_id,
                            lines: spec_lines(s.order_items, s.products, order_id),
                            final_amount: o.final_amount,
                        },
                    ]
                } else {
                    Seq::empty()
                };
                let thank_notes: Seq<NotificationV> = if credit {
                    seq![
                        NotificationV::ThankYou {
                            email: u.email,
                            order_id: order_id,
                            points: o.points_earned,
                        },
                    ]
                } else {
                    Seq::empty()
                };
                UpdateOutcome::Done(s2, ship_notes + thank_notes)
            }
        }
    }
}

impl Store {
    /// Applies one status transition, the admin-invoked operation: the
    /// result and the new store are precisely `spec_update_status` on
    /// the old store, and every error leaves the store untouched. The
    /// returned notifications are for the caller to dispatch after
    /// commit; dispatch failure must not roll the transition back.
    #[verifier::rlimit(50)]
    pub fn update_order_status(&mut self, order_id: &String, new_status: OrderStatus) -> (r:
        Result<Vec<Notification>, OrderError>)
        requires
            old(self).wf(),
        ensures
            final(self).wf(),
            (r matches Ok(notes) ==> spec_update_status(old(self)@, order_id@, new_status)
                == UpdateOutcome::Done(
                final(self)@,
                notes@.map_values(|n: Notification| n@),
            )),
            (r matches Err(e) ==> *final(self) == *old(self) && spec_update_status(
                old(self)@,
                order_id@,
                new_status,
            ) == UpdateOutcome::Fail(e)),
    {
        let ghost s0 = self@;
        let oi = match find_order(&self.orders, order_id.as_str()) {
            Some(j) => j,
            None => {
                proof {
                    lemma_order_index(s0.orders, order_id@);
                }
                return Err(OrderError::OrderNotFound);
            },
        };
        proof {
            lemma_order_index_of(s0.orders, oi as int, order_id@);
        }
        let ui = match find_user(&self.users, self.orders[oi].user_id.as_str()) {
            Some(j) => j,
            None => {
                proof {
                    lemma_user_index(s0.users, s0.orders[oi as int].user_id);
                }
                return Err(OrderError::OrderNotFound);
            },
        };
        proof {
            lemma_user_index_of(s0.users, ui as int, s0.orders[oi as int].user_id);
        }
        let old_status = self.orders[oi].status;
        let points_earned = self.orders[oi].points_earned;
        let balance = self.users[ui].points;
        let credit = old_status != OrderStatus::Completed && new_status == OrderStatus::Completed;
        let debit = old_status == OrderStatus::Completed && new_status != OrderStatus::Completed;
        proof {
            assert(s0.orders[oi as int].points_earned == s0.orders[oi as int].final_amount as int
                / 1000);
        }
        if credit && balance > i64::MAX - points_earned {
            return Err(OrderError::PointsOverflow);
        }
        if debit && balance < i64::MIN + points_earned {
            return Err(OrderError::PointsOverflow);
        }
        let new_points: i64 = if credit {
            balance + points_earned
        } else if debit {
            balance - points_earned
        } else {
            balance
        };
        let mut notes: Vec<Notification> = Vec::new();
        if old_status != OrderStatus::Shipping && new_status == OrderStatus::Shipping {
            let lines = build_lines(&self.order_items, &self.products, order_id.as_str());
            notes.push(
                Notification::Shipping {
                    email: self.users[ui].email.clone(),
                    order_id: order_id.clone(),
                    lines: lines,
                    final_amount: self.orders[oi].final_amount,
                },
            );
        }
        if credit {
            notes.push(
                Notification::ThankYou {
                    email: self.users[ui].email.clone(),
                    order_id: order_id.clone(),
                    points: points_earned,
                },
            );
        }
        let mut orec = self.orders.remove(oi);
        orec.status = new_status;
        self.orders.insert(oi, orec);
        let mut urec = self.users.remove(ui);
        urec.points = new_points;
        if credit {
            let thresholds = thresholds_from_settings(&self.settings);
            urec.tier = resolve_tier(new_points, &thresholds);
        }
        self.users.insert(ui, urec);
        proof {
            let o = s0.orders[oi as int];
            let u = s0.users[ui as int];
            let o2 = OrderV { status: new_status, ..o };
            let new_tier = if credit {
                spec_resolve_tier(new_points, spec_thresholds(s0.settings))
            } else {
                u.tier
            };
            let u2 = UserV { points: new_points, tier: new_tier, ..u };
            assert(self@.orders =~= s0.orders.update(oi as int, o2));
            assert(self@.users =~= s0.users.update(ui as int, u2));
            assert(self@ =~= (StoreV {
                orders: s0.orders.update(oi as int, o2),
                users: s0.users.update(ui as int, u2),
                ..s0
            }));
            let notesv = notes@.map_values(|n: Notification| n@);
            match spec_update_status(s0, order_id@, new_status) {
                UpdateOutcome::Done(s2, expected_notes) => {
                    assert(notesv =~= expected_notes);
                    assert(self@ =~= s2);
                },
                UpdateOutcome::Fail(_) => {
                    assert(false);
                },
            }
            let nw = self@;
            assert forall|a: int, b: int| 0 <= a < b < nw.orders.len() implies (
            #[trigger] nw.orders[a]).id != (#[trigger] nw.orders[b]).id by {
                assert(nw.orders[a].id == s0.orders[a].id);
                assert(nw.orders[b].id == s0.orders[b].id);
            }
            assert forall|a: int, b: int| 0 <= a < b < nw.users.len() implies (
            #[trigger] nw.users[a]).id != (#[trigger] nw.users[b]).id by {
                assert(nw.users[a].id == s0.users[a].id);
                assert(nw.users[b].id == s0.users[b].id);
            }
            assert forall|i: int| 0 <= i < nw.orders.len() implies crate::store::spec_order_consistent(
                #[trigger] nw.orders[i],
            ) by {
                if i != oi as int {
                    assert(nw.orders[i] == s0.orders[i]);
                }
            }
        }
        Ok(notes)
    }

    /// The self-service completion: the caller must own the order, and
    /// the order must currently be in `Shipping`; then the transition to
    /// `Completed` runs exactly as the admin-invoked one does, crediting
    /// the points and recomputing the tier. A missing or foreign order
    /// reads as not found; a wrong status is its own business error.
    pub fn confirm_receipt(&mut self, auth: &AuthUser, order_id: &String) -> (r: Result<
        Vec<Notification>,
        OrderError,
    >)
        requires
            old(self).wf(),
        ensures
            final(self).wf(),
            (r matches Ok(notes) ==> spec_confirm_receipt(old(self)@, auth.user_id@, order_id@)
                == UpdateOutcome::Done(
                final(self)@,
                notes@.map_values(|n: Notification| n@),
            )),
            (r matches Err(e) ==> *final(self) == *old(self) && spec_confirm_receipt(
                old(self)@,
                auth.user_id@,
                order_id@,
            ) == UpdateOutcome::Fail(e)),
    {
        let ghost s0 = self@;
        let oi = match find_order(&self.orders, order_id.as_str()) {
            Some(j) => j,
            None => {
                proof {
                    lemma_order_index(s0.orders, order_id@);
                }
                return Err(OrderError::OrderNotFound);
            },
        };
        proof {
            lemma_order_index_of(s0.orders, oi as int, order_id@);
        }
        if !crate::settings::str_eq(self.orders[oi].user_id.as_str(), auth.user_id.as_str()) {
            return Err(OrderError::OrderNotFound);
        }
        if self.orders[oi].status != OrderStatus::Shipping {
            return Err(OrderError::InvalidStatus);
        }
        self.update_order_status(order_id, OrderStatus::Completed)
    }
}

/// The self-service completion as a pure function: ownership and the
/// `Shipping` precondition checked, then the ordinary transition to
/// `Completed`.
pub open spec fn spec_confirm_receipt(
    s: StoreV,
    caller: Seq<char>,
    order_id: Seq<char>,
) -> UpdateOutcome {
    let oi = spec_order_index(s.orders, order_id);
    if oi == -1 {
        UpdateOutcome::Fail(OrderError::OrderNotFound)
    } else if s.orders[oi].user_id != caller {
        UpdateOutcome::Fail(OrderError::OrderNotFound)
    } else if s.orders[oi].status != OrderStatus::Shipping {
        UpdateOutcome::Fail(OrderError::InvalidStatus)
    } else {
        spec_update_status(s, order_id, OrderStatus::Completed)
    }
}

/// Points conservation law: completing an order credits its stored
/// points exactly once, the reversal out of `Completed` is always
/// possible, debits exactly the same amount, and leaves the balance
/// where it began.
pub proof fn lemma_points_conservation(s: StoreV, order_id: Seq<char>, revert_to: OrderStatus)
    requires
        s.wf(),
        revert_to != OrderStatus::Completed,
        ({
            let oi = spec_order_index(s.orders, order_id);
            oi >= 0 && s.orders[oi].status != OrderStatus::Completed
        }),
        spec_update_status(s, order_id, OrderStatus::Completed) is Done,
    ensures
        ({
            let oi = spec_order_index(s.orders, order_id);
            let ui = spec_user_index(s.users, s.orders[oi].user_id);
            let s1 = spec_update_status(s, order_id, OrderStatus::Completed)->Done_0;
            &&& s1.users[ui].points == s.users[ui].points + s.orders[oi].points_earned
            &&& spec_update_status(s1, order_id, revert_to) is Done
            &&& spec_update_status(s1, order_id, revert_to)->Done_0.users[ui].points
                == s.users[ui].points
        }),
{
    let oi = spec_order_index(s.orders, order_id);
    let o = s.orders[oi];
    let ui = spec_user_index(s.users, o.user_id);
    let s1 = spec_update_status(s, order_id, OrderStatus::Completed)->Done_0;
    assert(0 <= ui < s.users.len() && s.users[ui].id == o.user_id) by {
        lemma_user_index(s.users, o.user_id);
    }
    assert forall|a: int, b: int| 0 <= a < b < s1.orders.len() implies (
    #[trigger] s1.orders[a]).id != (#[trigger] s1.orders[b]).id by {
        assert(s1.orders[a].id == s.orders[a].id);
        assert(s1.orders[b].id == s.orders[b].id);
    }
    assert forall|a: int, b: int| 0 <= a < b < s1.users.len() implies (#[trigger] s1.users[a]).id
        != (#[trigger] s1.users[b]).id by {
        assert(s1.users[a].id == s.users[a].id);
        assert(s1.users[b].id == s.users[b].id);
    }
    lemma_order_index_of(s1.orders, oi, order_id);
    lemma_user_index_of(s1.users, ui, o.user_id);
    assert(s1.orders[oi].user_id == o.user_id);
}

/// Idempotency law: re-completing an already completed order moves no
/// points and changes no user row, so a duplicated completion request
/// can never double-credit.
pub proof fn lemma_completion_idempotent(s: StoreV, order_id: Seq<char>)
    requires
        s.wf(),
        spec_update_status(s, order_id, OrderStatus::Completed) is Done,
    ensures
        ({
            let s1 = spec_update_status(s, order_id, OrderStatus::Completed)->Done_0;
            &&& spec_update_status(s1, order_id, OrderStatus::Completed) is Done
            &&& spec_update_status(s1, order_id, OrderStatus::Completed)->Done_0.users
                == s1.users
        }),
{
    let oi = spec_order_index(s.orders, order_id);
    let o = s.orders[oi];
    let ui = spec_user_index(s.users, o.user_id);
    let s1 = spec_update_status(s, order_id, OrderStatus::Completed)->Done_0;
    assert(0 <= oi < s.orders.len() && s.orders[oi].id == order_id) by {
        lemma_order_index(s.orders, order_id);
    }
    assert(0 <= ui < s.users.len() && s.users[ui].id == o.user_id) by {
        lemma_user_index(s.users, o.user_id);
    }
    assert forall|a: int, b: int| 0 <= a < b < s1.orders.len() implies (
    #[trigger] s1.orders[a]).id != (#[trigger] s1.orders[b]).id by {
        assert(s1.orders[a].id == s.orders[a].id);
        assert(s1.orders[b].id == s.orders[b].id);
    }
    assert forall|a: int, b: int| 0 <= a < b < s1.users.len() implies (#[trigger] s1.users[a]).id
        != (#[trigger] s1.users[b]).id by {
        assert(s1.users[a].id == s.users[a].id);
        assert(s1.users[b].id == s.users[b].id);
    }
    lemma_order_index_of(s1.orders, oi, order_id);
    lemma_user_index_of(s1.users, ui, o.user_id);
    assert(s1.orders[oi].user_id == o.user_id);
    let s2 = spec_update_status(s1, order_id, OrderStatus::Completed)->Done_0;
    assert(s2.users =~= s1.users);
}

/// Tier consistency law: after a completion that credits points, the
/// user's stored tier is exactly what the resolver computes from the
/// new balance and the thresholds configured at that moment.
pub proof fn lemma_tier_consistency(s: StoreV, order_id: Seq<char>)
    requires
        s.wf(),
        ({
            let oi = spec_order_index(s.orders, order_id);
            oi >= 0 && s.orders[oi].status != OrderStatus::Completed
        }),
        spec_update_status(s, order_id, OrderStatus::Completed) is Done,
    ensures
        ({
            let oi = spec_order_index(s.orders, order_id);
            let ui = spec_user_index(s.users, s.orders[oi].user_id);
            let s1 = spec_update_status(s, order_id, OrderStatus::Completed)->Done_0;
            s1.users[ui].tier == spec_resolve_tier(
                s1.users[ui].points,
                spec_thresholds(s1.settings),
            )
        }),
{
    let oi = spec_order_index(s.orders, order_id);
    let o = s.orders[oi];
    let ui = spec_user_index(s.users, o.user_id);
    assert(0 <= ui < s.users.len() && s.users[ui].id == o.user_id) by {
        lemma_user_index(s.users, o.user_id);
    }
}

} // verus!
