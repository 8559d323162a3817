use vstd::prelude::*;
use crate::binary64::{
    is_finite_spec, is_positive_spec, order_key_spec, is_positive, order_key, first_non_finite,
};

verus! {

/// Why a pricing request was refused.
#[derive(Debug, Clone, Copy, PartialEq, Eq, Structural)]
pub enum PricingError {
    /// The frequency grid would be empty.
    NoFrequencies,
    /// The asset price is not a finite value above zero.
    NonPositiveAsset,
    /// No strike was given.
    NoStrikes,
    /// The strike at this index is not a finite value above zero.
    NonPositiveStrike { index: usize },
    /// The log-moneyness at this index is infinite or NaN.
    NonFiniteValue { index: usize },
    /// All log-moneyness values are equal, so the domain has width zero.
    DegenerateDomain,
    /// The characteristic-function sample at this frequency index is not finite.
    NonFiniteSample { index: usize },
}

/// Where the truncation domain `[a, b]` comes from: the indices of the first
/// smallest (`a`) and the first largest (`b`) log-moneyness value.
#[derive(Debug, Clone, Copy, PartialEq, Eq, Structural)]
pub struct Domain {
    pub lower: usize,
    pub upper: usize,
}

/// `i` holds the smallest value of `xs`, and no earlier index holds it.
pub open spec fn is_first_lowest(xs: Seq<u64>, i: int) -> bool {
    &&& 0 <= i < xs.len()
    &&& forall|j: int| 0 <= j < xs.len() ==> order_key_spec(xs[i]) <= order_key_spec(#[trigger] xs[j])
    &&& forall|j: int| 0 <= j < i ==> order_key_spec(xs[i]) < order_key_spec(#[trigger] xs[j])
}

/// `i` holds the largest value of `xs`, and no earlier index holds it.
pub open spec fn is_first_highest(xs: Seq<u64>, i: int) -> bool {
    &&& 0 <= i < xs.len()
    &&& forall|j: int| 0 <= j < xs.len() ==> order_key_spec(#[trigger] xs[j]) <= order_key_spec(xs[i])
    &&& forall|j: int| 0 <= j < i ==> order_key_spec(#[trigger] xs[j]) < order_key_spec(xs[i])
}

pub open spec fn all_finite(xs: Seq<u64>) -> bool {
    forall|i: int| 0 <= i < xs.len() ==> is_finite_spec(#[trigger] xs[i])
}

/// Every value of `xs` stands for the same real number.
pub open spec fn is_degenerate(xs: Seq<u64>) -> bool {
    forall|i: int, j: int|
        0 <= i < xs.len() && 0 <= j < xs.len() ==> order_key_spec(#[trigger] xs[i])
            == order_key_spec(#[trigger] xs[j])
}

/// `i` is the first index of `xs` whose value fails `is_positive_spec`.
pub open spec fn is_first_non_positive(xs: Seq<u64>, i: int) -> bool {
    &&& 0 <= i < xs.len()
    &&& !is_positive_spec(xs[i])
    &&& forall|j: int| 0 <= j < i ==> is_positive_spec(#[trigger] xs[j])
}

/// Checks a request before any log-moneyness is computed: the grid size,
/// then the asset price, then the strikes, in that order.
pub fn validate_request(num_u: usize, asset: u64, strikes: &Vec<u64>) -> (r: Result<(), PricingError>)
    ensures
        num_u == 0 ==> r == Err::<(), PricingError>(PricingError::NoFrequencies),
        num_u > 0 && !is_positive_spec(asset) ==> r == Err::<(), PricingError>(
            PricingError::NonPositiveAsset,
        ),
        num_u > 0 && is_positive_spec(asset) && strikes@.len() == 0 ==> r == Err::<
            (),
            PricingError,
        >(PricingError::NoStrikes),
        num_u > 0 && is_positive_spec(asset) && strikes@.len() > 0 ==> match r {
            Ok(()) => forall|i: int| 0 <= i < strikes@.len() ==> is_positive_spec(#[trigger] strikes@[i]),
            Err(PricingError::NonPositiveStrike { index }) => is_first_non_positive(strikes@, index as int),
            Err(_) => false,
        },
{
    if num_u == 0 {
        return Err(PricingError::NoFrequencies);
    }
    if !is_positive(asset) {
        return Err(PricingError::NonPositiveAsset);
    }
    if strikes.len() == 0 {
        return Err(PricingError::NoStrikes);
    }
    let mut i: usize = 0;
    while i < strikes.len()
        invariant
            i <= strikes@.len(),
            num_u > 0,
            is_positive_spec(asset),
            forall|j: int| 0 <= j < i ==> is_positive_spec(#[trigger] strikes@[j]),
        decreases strikes@.len() - i,
    {
        if !is_positive(strikes[i]) {
            return Err(PricingError::NonPositiveStrike { index: i });
        }
        i = i + 1;
    }
    Ok(())
}

/// Chooses the truncation domain from the log-moneyness values `xs`:
/// it spans from their minimum to their maximum. Fails when there is no
/// value, when a value is not finite (the first such index is reported), or
/// when all values are equal, since the frequency step divides by the width.
pub fn truncation_domain(xs: &Vec<u64>) -> (r: Result<Domain, PricingError>)
    ensures
        xs@.len() == 0 ==> r == Err::<Domain, PricingError>(PricingError::NoStrikes),
        xs@.len() > 0 ==> match r {
            Err(PricingError::NonFiniteValue { index }) => {
                &&& index < xs@.len()
                &&& !is_finite_spec(xs@[index as int])
                &&& forall|j: int| 0 <= j < index ==> is_finite_spec(#[trigger] xs@[j])
            },
            Err(PricingError::DegenerateDomain) => all_finite(xs@) && is_degenerate(xs@),
            Ok(d) => {
                &&& all_finite(xs@)
                &&& !is_degenerate(xs@)
                &&& is_first_lowest(xs@, d.lower as int)
                &&& is_first_highest(xs@, d.upper as int)
                &&& order_key_spec(xs@[d.lower as int]) < order_key_spec(xs@[d.upper as int])
            },
            Err(_) => false,
        },
{
    if xs.len() == 0 {
        return Err(PricingError::NoStrikes);
    }
    match first_non_finite(xs) {
        Some(index) => {
            return Err(PricingError::NonFiniteValue { index });
        },
        None => {},
    }
    let mut lower: usize = 0;
    let mut upper: usize = 0;
    let mut low_key: i64 = order_key(xs[0]);
    let mut high_key: i64 = low_key;
    let mut i: usize = 1;
    while i < xs.len()
        invariant
            1 <= i <= xs@.len(),
            lower < i,
            upper < i,
            low_key == order_key_spec(xs@[lower as int]),
            high_key == order_key_spec(xs@[upper as int]),
            forall|j: int| 0 <= j < i ==> low_key <= order_key_spec(#[trigger] xs@[j]),
            forall|j: int| 0 <= j < lower ==> low_key < order_key_spec(#[trigger] xs@[j]),
            forall|j: int| 0 <= j < i ==> order_key_spec(#[trigger] xs@[j]) <= high_key,
            forall|j: int| 0 <= j < upper ==> order_key_spec(#[trigger] xs@[j]) < high_key,
        decreases xs@.len() - i,
    {
        let key = order_key(xs[i]);
        if key < low_key {
            lower = i;
            low_key = key;
        }
        if key > high_key {
            upper = i;
            high_key = key;
        }
        i = i + 1;
    }
    if low_key == high_key {
        Err(PricingError::DegenerateDomain)
    } else {
        Ok(Domain { lower, upper })
    }
}

/// Equal finite log-moneyness values, as a list of identical strikes gives,
/// meet exactly the condition on which `truncation_domain` refuses the list
/// with `DegenerateDomain`: a domain of width zero is never returned.
pub proof fn lemma_identical_values_degenerate(xs: Seq<u64>)
    requires
        xs.len() > 0,
        is_finite_spec(xs[0]),
        forall|i: int| 0 <= i < xs.len() ==> #[trigger] xs[i] == xs[0],
    ensures
        all_finite(xs),
        is_degenerate(xs),
{
}

} // verus!
