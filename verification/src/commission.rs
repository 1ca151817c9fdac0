//! What an exchange charges for a trade.
use crate::decimal::Price;
use crate::orders::OrderRole;
use vstd::prelude::*;

verus! {

/// The charge for orders of one role.
#[derive(Debug, Clone, Copy)]
pub struct CommissionForType {
    pub fee: Price,
    pub referral_reward: Price,
}

impl CommissionForType {
    /// A charge of `fee`, of which `referral_reward` goes to the referrer.
    pub fn new(fee: Price, referral_reward: Price) -> (commission: CommissionForType)
        ensures
            commission == (CommissionForType { fee, referral_reward }),
    {
        CommissionForType { fee, referral_reward }
    }
}

impl PartialEq for CommissionForType {
    fn eq(&self, other: &Self) -> (equal: bool) {
        self.fee == other.fee && self.referral_reward == other.referral_reward
    }
}

impl Eq for CommissionForType {

}

impl vstd::std_specs::cmp::PartialEqSpecImpl for CommissionForType {
    open spec fn obeys_eq_spec() -> bool {
        true
    }

    open spec fn eq_spec(&self, other: &Self) -> bool {
        self.fee.same_number(other.fee) && self.referral_reward.same_number(other.referral_reward)
    }
}

impl Default for CommissionForType {
    fn default() -> (commission: Self)
        ensures
            commission.fee.is_plain_zero(),
            commission.referral_reward.is_plain_zero(),
    {
        CommissionForType { fee: Price::default(), referral_reward: Price::default() }
    }
}

/// Why a commission is not known.
#[derive(Debug, Clone, Copy, PartialEq, Eq, Structural)]
pub enum CommissionError {
    /// The order was not said to be a maker's or a taker's.
    NoOrderRole,
}

impl CommissionError {
    /// The error in words.
    pub fn message(&self) -> (text: &'static str)
        ensures
            text@ == "Cannot get fee because there are no order_role"@,
    {
        "Cannot get fee because there are no order_role"
    }
}

/// The charges for makers and for takers.
#[derive(Debug, Clone, Copy)]
pub struct Commission {
    pub maker: CommissionForType,
    pub taker: CommissionForType,
}

impl Commission {
    /// The charges `maker` and `taker`.
    pub fn new(maker: CommissionForType, taker: CommissionForType) -> (commission: Commission)
        ensures
            commission == (Commission { maker, taker }),
    {
        Commission { maker, taker }
    }

    /// The charge for an order of this role.
    pub fn get_commission(&self, order_role: Option<OrderRole>) -> (result: Result<
        CommissionForType,
        CommissionError,
    >)
        ensures
            result == (match order_role {
                Some(OrderRole::Maker) => Ok::<CommissionForType, CommissionError>(self.maker),
                Some(OrderRole::Taker) => Ok::<CommissionForType, CommissionError>(self.taker),
                None => Err::<CommissionForType, CommissionError>(CommissionError::NoOrderRole),
            }),
    {
        match order_role {
            Some(order_role) => match order_role {
                OrderRole::Maker => Ok(self.maker),
                OrderRole::Taker => Ok(self.taker),
            },
            None => Err(CommissionError::NoOrderRole),
        }
    }
}

impl PartialEq for Commission {
    fn eq(&self, other: &Self) -> (equal: bool) {
        self.maker == other.maker && self.taker == other.taker
    }
}

impl Eq for Commission {

}

impl vstd::std_specs::cmp::PartialEqSpecImpl for Commission {
    open spec fn obeys_eq_spec() -> bool {
        true
    }

    open spec fn eq_spec(&self, other: &Self) -> bool {
        &&& self.maker.fee.same_number(other.maker.fee)
        &&& self.maker.referral_reward.same_number(other.maker.referral_reward)
        &&& self.taker.fee.same_number(other.taker.fee)
        &&& self.taker.referral_reward.same_number(other.taker.referral_reward)
    }
}

impl Default for Commission {
    fn default() -> (commission: Self)
        ensures
            commission.maker.fee.is_plain_zero(),
            commission.maker.referral_reward.is_plain_zero(),
            commission.taker.fee.is_plain_zero(),
            commission.taker.referral_reward.is_plain_zero(),
    {
        Commission { maker: CommissionForType::default(), taker: CommissionForType::default() }
    }
}

/// A maker is charged as makers are and a taker as takers are; an order of neither role is
/// charged nothing that is known.
pub proof fn law_commission_goes_by_role(
    commission: Commission,
    role: Option<OrderRole>,
    result: Result<CommissionForType, CommissionError>,
)
    requires
        call_ensures(Commission::get_commission, (&commission, role), result),
    ensures
        result is Err <==> role is None,
        role == Some(OrderRole::Maker) ==> result == Ok::<CommissionForType, CommissionError>(
            commission.maker,
        ),
        role == Some(OrderRole::Taker) ==> result == Ok::<CommissionForType, CommissionError>(
            commission.taker,
        ),
{
}

/// Commissions are equal if all four numbers are, however many digits these carry.
pub proof fn law_equal_commissions(one: Commission, other: Commission, equal: bool)
    requires
        call_ensures(<Commission as PartialEq>::eq, (&one, &other), equal),
    ensures
        equal <==> {
            &&& one.maker.fee.units() == other.maker.fee.units()
            &&& one.maker.referral_reward.units() == other.maker.referral_reward.units()
            &&& one.taker.fee.units() == other.taker.fee.units()
            &&& one.taker.referral_reward.units() == other.taker.referral_reward.units()
        },
{
}

} // verus!
