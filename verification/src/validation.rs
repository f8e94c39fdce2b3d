//! Checks on amounts, currency codes and prices. None of them reads or
//! changes the ledger.

use crate::error::Error;
use crate::order::OrderType;
use vstd::prelude::*;
use vstd::string::StrSliceExecFns;

verus! {

/// A currency code is exactly three upper-case ASCII letters.
pub open spec fn is_currency_code(code: Seq<char>) -> bool {
    code.len() == 3 && forall|i: int| 0 <= i < 3 ==> 'A' <= #[trigger] code[i] <= 'Z'
}

/// A price, given by the bits of its 64-bit IEEE 754 form, is too low when it
/// compares as less than or equal to zero: either zero, or any negative
/// number down to minus infinity. A NaN compares with nothing and is not too
/// low.
pub open spec fn price_too_low(price_bits: u64) -> bool {
    price_bits == 0 || 0x8000_0000_0000_0000 <= price_bits <= 0xFFF0_0000_0000_0000
}

/// The price of a limit order must not be too low; a market order has none.
pub open spec fn price_accepted(order_type: OrderType) -> bool {
    match order_type {
        OrderType::Market => true,
        OrderType::Limit { price_bits } => !price_too_low(price_bits),
    }
}

/// Whether the text is a currency code.
pub fn is_valid_currency(currency: &str) -> (valid: bool)
    ensures
        valid == is_currency_code(currency@),
{
    if currency.unicode_len() != 3 {
        return false;
    }
    let mut i: usize = 0;
    while i < 3
        invariant
            currency@.len() == 3,
            i <= 3,
            forall|j: int| 0 <= j < i ==> 'A' <= #[trigger] currency@[j] <= 'Z',
        decreases 3 - i,
    {
        let letter = currency.get_char(i);
        if letter < 'A' || letter > 'Z' {
            return false;
        }
        i += 1;
    }
    true
}

/// Refuses an amount of zero.
pub fn validate_amount(amount: u64) -> (checked: Result<(), Error>)
    ensures
        checked == if amount == 0 {
            Err::<(), Error>(Error::InvalidAmount)
        } else {
            Ok(())
        },
{
    if amount == 0 {
        Err(Error::InvalidAmount)
    } else {
        Ok(())
    }
}

/// Refuses what is not a currency code.
pub fn validate_currency(currency: &str) -> (checked: Result<(), Error>)
    ensures
        checked == if is_currency_code(currency@) {
            Ok::<(), Error>(())
        } else {
            Err(Error::InvalidCurrency)
        },
{
    if is_valid_currency(currency) {
        Ok(())
    } else {
        Err(Error::InvalidCurrency)
    }
}

/// Refuses a limit order whose price is too low.
pub fn validate_price(order_type: OrderType) -> (checked: Result<(), Error>)
    ensures
        checked == if price_accepted(order_type) {
            Ok::<(), Error>(())
        } else {
            Err(Error::InvalidPrice)
        },
{
    match order_type {
        OrderType::Market => Ok(()),
        OrderType::Limit { price_bits } => {
            if price_bits == 0 || (0x8000_0000_0000_0000 <= price_bits && price_bits
                <= 0xFFF0_0000_0000_0000) {
                Err(Error::InvalidPrice)
            } else {
                Ok(())
            }
        },
    }
}

} // verus!
