//! The balance of a user: what was deposited and what was spent.

use vstd::prelude::*;
use rust_decimal::Decimal;

verus! {

/// An amount of credits as a decimal number: `mantissa` divided by ten to
/// the power of `scale`.
#[derive(Clone, Copy, Debug, PartialEq, Eq, Structural)]
pub struct Amount {
    pub mantissa: i128,
    pub scale: u32,
}

/// The difference of two decimal numbers as `rust_decimal` computes it,
/// each number given by its mantissa and its scale. `None` where a number
/// is beyond what a `Decimal` holds or the subtraction overflows.
pub uninterp spec fn decimal_difference(
    a_mantissa: i128,
    a_scale: u32,
    b_mantissa: i128,
    b_scale: u32,
) -> Option<(i128, u32)>;

/// `Decimal::checked_sub` on the two amounts, each made a `Decimal` with
/// `Decimal::try_from_i128_with_scale`: the difference, by the mantissa and
/// the scale of the result.
#[verifier::external_body]
fn decimal_checked_sub(a: Amount, b: Amount) -> (r: Option<Amount>)
    ensures
        r is Some <==> decimal_difference(a.mantissa, a.scale, b.mantissa, b.scale) is Some,
        r matches Some(d) ==> decimal_difference(a.mantissa, a.scale, b.mantissa, b.scale) == Some(
            (d.mantissa, d.scale),
        ),
{
    let x = Decimal::try_from_i128_with_scale(a.mantissa, a.scale).ok()?;
    let y = Decimal::try_from_i128_with_scale(b.mantissa, b.scale).ok()?;
    let d = x.checked_sub(y)?;
    Some(Amount { mantissa: d.mantissa(), scale: d.scale() })
}

/// The balance of one user.
#[derive(Clone, Copy, Debug, PartialEq, Eq, Structural)]
pub struct Balance {
    pub user_id: u64,
    /// What the user spent of the credits that were paid for.
    pub total_spent_paid_credits: Amount,
    /// What the user spent in all, free credits included.
    pub total_spent: Amount,
    /// What was deposited for the user.
    pub total_deposits: Amount,
}

impl Balance {
    /// What is left of the deposits: the deposits less the paid credits
    /// that were spent. `None` where that is beyond what a decimal number
    /// holds.
    pub fn remaining(&self) -> (r: Option<Amount>)
        ensures
            r is Some <==> decimal_difference(
                self.total_deposits.mantissa,
                self.total_deposits.scale,
                self.total_spent_paid_credits.mantissa,
                self.total_spent_paid_credits.scale,
            ) is Some,
            r matches Some(d) ==> decimal_difference(
                self.total_deposits.mantissa,
                self.total_deposits.scale,
                self.total_spent_paid_credits.mantissa,
                self.total_spent_paid_credits.scale,
            ) == Some((d.mantissa, d.scale)),
    {
        decimal_checked_sub(self.total_deposits, self.total_spent_paid_credits)
    }

    /// Whether the database is to be asked for the balance of user
    /// `user_id`: the id 0 stands for no user, who has no balance.
    pub fn is_stored(user_id: u64) -> (r: bool)
        ensures
            r == (user_id != 0),
    {
        user_id != 0
    }

    /// The balance of user `user_id`, given the row that the database holds
    /// for the user, if it holds one. The id 0 stands for no user, who has
    /// no balance whatever the database holds.
    pub fn try_from_db(user_id: u64, row: Option<Balance>) -> (r: Option<Balance>)
        ensures
            r == (if user_id == 0 {
                None
            } else {
                row
            }),
    {
        if user_id == 0 {
            None
        } else {
            row
        }
    }
}

} // verus!
