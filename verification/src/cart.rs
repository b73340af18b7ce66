//! The cart synchronization rule.
//!
//! A cart is a set of lines, one per product. One change request either
//! removes the product's line (a non-positive quantity) or inserts or
//! overwrites it (a positive one) — the upsert-or-delete the cart
//! endpoint performs against the cart rows.

use vstd::prelude::*;
use crate::settings::str_eq;

verus! {

/// One cart change, and equally one stored cart line: a product and a
/// quantity.
pub struct UpdateCartReq {
    pub product_id: String,
    pub quantity: i32,
}

/// A cart line as the specifications see it.
pub struct CartLineV {
    pub product_id: Seq<char>,
    pub quantity: i32,
}

impl View for UpdateCartReq {
    type V = CartLineV;

    open spec fn view(&self) -> CartLineV {
        CartLineV { product_id: self.product_id@, quantity: self.quantity }
    }
}

/// No two cart lines name the same product.
pub open spec fn spec_cart_unique(cart: Seq<CartLineV>) -> bool {
    forall|i: int, j: int|
        0 <= i < j < cart.len() ==> (#[trigger] cart[i]).product_id != (
        #[trigger] cart[j]).product_id
}

/// The index of the line holding this product, or -1.
pub open spec fn spec_cart_index(cart: Seq<CartLineV>, product_id: Seq<char>) -> int {
    if exists|k: int| 0 <= k < cart.len() && (#[trigger] cart[k]).product_id == product_id {
        choose|k: int| 0 <= k < cart.len() && (#[trigger] cart[k]).product_id == product_id
    } else {
        -1
    }
}

/// What one change request leaves of the cart: remove the product's
/// line on a non-positive quantity, otherwise overwrite it or append a
/// new line.
pub open spec fn spec_apply_cart_update(cart: Seq<CartLineV>, req: CartLineV) -> Seq<CartLineV> {
    let k = spec_cart_index(cart, req.product_id);
    if req.quantity <= 0 {
        if k >= 0 {
            cart.remove(k)
        } else {
            cart
        }
    } else {
        if k >= 0 {
            cart.update(k, req)
        } else {
            cart.push(req)
        }
    }
}

/// Finds the position of the line holding this product.
fn find_cart_line(cart: &Vec<UpdateCartReq>, product_id: &str) -> (r: Option<usize>)
    ensures
        ({
            let cv = cart@.map_values(|l: UpdateCartReq| l@);
            match r {
                Some(j) => j < cv.len() && cv[j as int].product_id == product_id@,
                None => forall|i: int|
                    0 <= i < cv.len() ==> (#[trigger] cv[i]).product_id != product_id@,
            }
        }),
{
    let ghost cv = cart@.map_values(|l: UpdateCartReq| l@);
    let mut j: usize = 0;
    while j < cart.len()
        invariant
            0 <= j <= cart.len(),
            cv == cart@.map_values(|l: UpdateCartReq| l@),
            cv.len() == cart@.len(),
            forall|i: int| 0 <= i < j ==> (#[trigger] cv[i]).product_id != product_id@,
        decreases cart.len() - j,
    {
        if str_eq(cart[j].product_id.as_str(), product_id) {
            return Some(j);
        }
        j = j + 1;
    }
    None
}

/// Applies one cart change: exactly `spec_apply_cart_update`, keeping
/// one line per product.
pub fn apply_cart_update(cart: &mut Vec<UpdateCartReq>, req: UpdateCartReq)
    requires
        spec_cart_unique(old(cart)@.map_values(|l: UpdateCartReq| l@)),
    ensures
        final(cart)@.map_values(|l: UpdateCartReq| l@) == spec_apply_cart_update(
            old(cart)@.map_values(|l: UpdateCartReq| l@),
            req@,
        ),
        spec_cart_unique(final(cart)@.map_values(|l: UpdateCartReq| l@)),
{
    let ghost cv0 = cart@.map_values(|l: UpdateCartReq| l@);
    let found = find_cart_line(cart, req.product_id.as_str());
    proof {
        match found {
            Some(j) => {
                let k = spec_cart_index(cv0, req@.product_id);
                assert(0 <= k < cv0.len() && cv0[k].product_id == req@.product_id);
                if k < j as int {
                    assert(cv0[k].product_id != cv0[j as int].product_id);
                } else if (j as int) < k {
                    assert(cv0[j as int].product_id != cv0[k].product_id);
                }
            },
            None => {},
        }
    }
    if req.quantity <= 0 {
        match found {
            Some(j) => {
                cart.remove(j);
                proof {
                    assert(cart@.map_values(|l: UpdateCartReq| l@) =~= cv0.remove(j as int));
                    let nw = cart@.map_values(|l: UpdateCartReq| l@);
                    assert forall|a: int, b: int| 0 <= a < b < nw.len() implies (
                    #[trigger] nw[a]).product_id != (#[trigger] nw[b]).product_id by {
                        let a0 = if a < j as int {
                            a
                        } else {
                            a + 1
                        };
                        let b0 = if b < j as int {
                            b
                        } else {
                            b + 1
                        };
                        assert(nw[a] == cv0[a0]);
                        assert(nw[b] == cv0[b0]);
                    }
                }
            },
            None => {},
        }
    } else {
        match found {
            Some(j) => {
                let ghost reqv = req@;
                cart.remove(j);
                cart.insert(j, req);
                proof {
                    assert(cart@.map_values(|l: UpdateCartReq| l@) =~= cv0.update(j as int, reqv));
                    let nw = cart@.map_values(|l: UpdateCartReq| l@);
                    assert forall|a: int, b: int| 0 <= a < b < nw.len() implies (
                    #[trigger] nw[a]).product_id != (#[trigger] nw[b]).product_id by {
                        assert(cv0[j as int].product_id == reqv.product_id);
                        assert(nw[a].product_id == cv0[a].product_id);
                        assert(nw[b].product_id == cv0[b].product_id);
                    }
                }
            },
            None => {
                let ghost reqv = req@;
                cart.push(req);
                proof {
                    assert(cart@.map_values(|l: UpdateCartReq| l@) =~= cv0.push(reqv));
                    let nw = cart@.map_values(|l: UpdateCartReq| l@);
                    assert forall|a: int, b: int| 0 <= a < b < nw.len() implies (
                    #[trigger] nw[a]).product_id != (#[trigger] nw[b]).product_id by {
                        if b < cv0.len() {
                            assert(nw[a] == cv0[a]);
                            assert(nw[b] == cv0[b]);
                        } else {
                            assert(nw[a] == cv0[a]);
                            assert(nw[b] == reqv);
                        }
                    }
                }
            },
        }
    }
}

} // verus!
