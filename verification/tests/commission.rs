use mmb::commission::{Commission, CommissionError, CommissionForType};
use mmb::decimal::Decimal;
use mmb::orders::OrderRole;

fn commission() -> Commission {
    Commission::new(
        CommissionForType::new(Decimal::new(1, 1), Decimal::new(40, 0)),
        CommissionForType::new(Decimal::new(2, 1), Decimal::new(20, 0)),
    )
}

#[test]
fn commission_of_each_role() {
    let commission = commission();
    assert_eq!(
        commission.get_commission(Some(OrderRole::Maker)),
        Ok(CommissionForType::new(Decimal::new(1, 1), Decimal::new(40, 0)))
    );
    assert_eq!(
        commission.get_commission(Some(OrderRole::Taker)),
        Ok(CommissionForType::new(Decimal::new(2, 1), Decimal::new(20, 0)))
    );
}

#[test]
fn commission_without_role_is_an_error() {
    let error = commission().get_commission(None).unwrap_err();
    assert_eq!(error, CommissionError::NoOrderRole);
    assert_eq!(
        error.message(),
        "Cannot get fee because there are no order_role"
    );
}

#[test]
fn commissions_compare_by_number() {
    let one = CommissionForType::new(Decimal::new(10, 1), Decimal::new(0, 0));
    let other = CommissionForType::new(Decimal::new(100, 2), Decimal::new(0, 5));
    assert_eq!(one, other);
    assert_eq!(Commission::new(one, other), Commission::new(other, one));
    assert_ne!(one, CommissionForType::default());
    assert_eq!(
        Commission::default().get_commission(Some(OrderRole::Taker)),
        Ok(CommissionForType::default())
    );
}
