//! Input checks and truncation-domain selection for pricing European options
//! with the Fourier-cosine (COS) expansion.
//!
//! Real numbers reach this library as the bit patterns of IEEE 754 binary64
//! values (`u64`), so that every decision taken on them (sign, finiteness,
//! order, equality) is made and proved on plain integers.
pub mod binary64;
pub mod domain;

pub use binary64::{is_finite, is_positive, order_key, first_non_finite, first_non_finite_sample};

pub use domain::{PricingError, Domain, validate_request, truncation_domain};
