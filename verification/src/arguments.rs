//! Values given on the command line.
use vstd::prelude::*;
use vstd::string::StringExecFns;
use crate::amounts::{Figure, decimal_parse};
use crate::text::{chars_of, string_of, sub_chars, single_split, single_split_at, text};

verus! {

/// The error of an exchange rate that cannot be read.
pub open spec fn exchange_rate_error(s: Seq<char>) -> Seq<char> {
    "Could not decode exchange rate "@ + s + ": Format is {CURRENCY_NAME}:{RATE}, eg. EUR:0.24561"@
}

/// What an exchange rate argument reads as: a currency name and a rate
/// around a single `:`, the rate read as `rust_decimal` reads a decimal
/// number.
pub open spec fn exchange_rate_read(s: Seq<char>, r: Result<(String, Figure), String>) -> bool {
    match single_split(s, ':') {
        Some((currency, rate)) => match decimal_parse(rate) {
            Some((m, sc)) => r matches Ok(p) && p.0@ == currency && p.1.wf() && p.1.mantissa == m && p.1.scale == sc,
            None => r matches Err(e) && e@ == exchange_rate_error(s),
        },
        None => r matches Err(e) && e@ == exchange_rate_error(s),
    }
}

/// Reads an exchange rate argument `CURRENCY:RATE`, such as `EUR:0.24561`.
pub fn parse_exchange_rate(s: &str) -> (r: Result<(String, Figure), String>)
    ensures
        exchange_rate_read(s@, r),
{
    let chars = chars_of(s);
    let n = chars.len();
    let rate = match single_split_at(&chars, ':') {
        None => None,
        Some(i) => {
            let currency = string_of(&sub_chars(&chars, 0, i));
            let raw_rate = string_of(&sub_chars(&chars, i + 1, n));
            assert(currency@ =~= s@.take(i as int));
            assert(raw_rate@ =~= s@.skip(i + 1));
            match Figure::from_text(raw_rate.as_str()) {
                Some(rate) => Some((currency, rate)),
                None => None,
            }
        },
    };
    match rate {
        Some(p) => Ok(p),
        None => {
            let mut message = text("Could not decode exchange rate ");
            message.append(s);
            message.append(": Format is {CURRENCY_NAME}:{RATE}, eg. EUR:0.24561");
            Err(message)
        },
    }
}

} // verus!
