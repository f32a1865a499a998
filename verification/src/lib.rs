//! Verified core of a Victoria 3 market analyzer: price-report helpers,
//! alert and qualification advice, SQL predicate pushdown and result
//! formatting, and the planning simulator's transition rules.

#![allow(unused_imports)]

pub mod text;
pub mod prices;
pub mod sim;
pub mod sql;

use vstd::prelude::*;

verus! {

} // verus!
