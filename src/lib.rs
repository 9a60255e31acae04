//! Delivery-option filtering for shipping A/B experiments.
//!
//! A delivery option whose title ends in a variant tag such as `" (B)"` is
//! shown only to shoppers assigned to that variant; untagged options are
//! shown to everyone.
use vstd::prelude::*;

pub mod filter;
pub mod suffix;

verus! {

} // verus!
