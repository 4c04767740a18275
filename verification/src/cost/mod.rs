//! What a call consumed, and what that is worth.
//!
//! Usage and prices are never read apart. A number of tokens is not a cost, and a price
//! with nothing to apply it to is a table, so the two live together and the rule that binds
//! them is stated once: **a call the provider did not measure has no price.** Not zero.

pub mod ledger;
pub mod pricing;
pub mod usage;

pub use ledger::{Ledger, Line, Total};
pub use pricing::{Micros, PriceBook, Priced, Rate, Recheck};
pub use usage::{Usage, UsageCoverage};
