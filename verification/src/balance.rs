//! Who is told of changes of a balance.
use vstd::prelude::*;

verus! {

/// Collects changes of a balance.
pub trait BalanceChangeAccumulator<ProfitLossBalanceChange> {
    fn add_balance_change(&self, balance_change: &ProfitLossBalanceChange);
}

} // verus!
