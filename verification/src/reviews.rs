//! The review submission, its validation rule, and the aggregate a new
//! review leaves on its product: the review count and the rating sum,
//! from which the stored average rating derives.

use vstd::prelude::*;

verus! {

/// A review submission: the product, a rating and the text.
pub struct CreateReviewReq {
    pub product_id: String,
    pub rating: i32,
    pub content: String,
}

impl CreateReviewReq {
    /// The acceptance rule: a rating is a whole number of stars from 1
    /// to 5.
    pub fn rating_valid(&self) -> (r: bool)
        ensures
            r == (1 <= self.rating <= 5),
    {
        1 <= self.rating && self.rating <= 5
    }
}

/// The sum of the stored ratings.
pub open spec fn spec_ratings_sum(ratings: Seq<i32>) -> int
    decreases ratings.len(),
{
    if ratings.len() == 0 {
        0
    } else {
        spec_ratings_sum(ratings.drop_last()) + ratings.last()
    }
}

/// The aggregate a product carries after its reviews change: the count
/// and the rating sum, or None when no review exists — the stored
/// average is the sum over the count, which the caller renders.
pub fn review_stats(ratings: &Vec<i32>) -> (r: Option<(i64, usize)>)
    requires
        forall|i: int| 0 <= i < ratings@.len() ==> 1 <= #[trigger] ratings@[i] <= 5,
        ratings@.len() * 5 <= i64::MAX,
    ensures
        ratings@.len() == 0 ==> r is None,
        ratings@.len() > 0 ==> r == Some((spec_ratings_sum(ratings@) as i64, ratings@.len() as usize)),
{
    if ratings.len() == 0 {
        return None;
    }
    let mut sum: i64 = 0;
    let mut i: usize = 0;
    while i < ratings.len()
        invariant
            0 <= i <= ratings@.len(),
            forall|j: int| 0 <= j < ratings@.len() ==> 1 <= #[trigger] ratings@[j] <= 5,
            ratings@.len() * 5 <= i64::MAX,
            sum == spec_ratings_sum(ratings@.take(i as int)),
            sum <= i * 5,
            sum >= 0,
        decreases ratings@.len() - i,
    {
        proof {
            assert(ratings@.take(i + 1).drop_last() =~= ratings@.take(i as int));
            assert(ratings@.take(i + 1).last() == ratings@[i as int]);
            assert((i + 1) * 5 == i * 5 + 5) by (nonlinear_arith);
            assert(i * 5 <= ratings@.len() * 5) by (nonlinear_arith)
                requires
                    0 <= i < ratings@.len(),
            ;
        }
        sum = sum + (ratings[i] as i64);
        i = i + 1;
    }
    proof {
        assert(ratings@.take(ratings@.len() as int) =~= ratings@);
    }
    Some((sum, ratings.len()))
}

} // verus!
