//! Binance spot and futures repositories, and the error the exchange
//! answers with.
pub mod spot;
pub mod futures;

use vstd::prelude::*;
use crate::text::{format_i64, int_decimal};

verus! {

/// Units of 10^-8 in one whole price or quantity unit: prices and
/// quantities are held as whole numbers of 10^-8, the finest step that the
/// exchange quotes.
pub const PRICE_SCALE: u128 = 100000000;

/// `a / b` rounded up, for `b > 0`.
pub open spec fn ceil_div(a: int, b: int) -> int {
    if a % b == 0 { a / b } else { a / b + 1 }
}

/// `a / b` rounded up.
pub(crate) fn ceil_div_u128(a: u128, b: u128) -> (q: u128)
    requires
        b > 0,
    ensures
        q == ceil_div(a as int, b as int),
{
    let q = a / b;
    if a % b == 0 {
        q
    } else {
        assert(q < a) by {
            vstd::arithmetic::div_mod::lemma_fundamental_div_mod(a as int, b as int);
            let r = a % b;
            assert(r > 0);
            assert(q < a) by (nonlinear_arith) requires a == b * q + r, r > 0, b >= 1, q >= 0;
        }
        q + 1
    }
}

pub(crate) proof fn lemma_ceil_div_covers(a: int, b: int)
    requires
        a >= 0,
        b > 0,
    ensures
        ceil_div(a, b) * b >= a,
        ceil_div(a, b) * b < a + b,
        ceil_div(a, b) >= 0,
{
    vstd::arithmetic::div_mod::lemma_fundamental_div_mod(a, b);
    vstd::arithmetic::div_mod::lemma_div_pos_is_pos(a, b);
    let q = a / b;
    let r = a % b;
    if r == 0 {
        assert(q * b == a) by (nonlinear_arith) requires a == b * q + r, r == 0;
    } else {
        assert((q + 1) * b >= a && (q + 1) * b < a + b) by (nonlinear_arith)
            requires a == b * q + r, 0 < r < b;
    }
}


/// Ten-thousandths in one.
pub const FACTOR_SCALE: u128 = 10000;

/// `price * factor` rounded up (`up`) or down to a multiple of `tick`.
pub open spec fn tick_round(price: int, factor: int, tick: int, up: bool) -> int {
    if up {
        ceil_div(price * factor, FACTOR_SCALE * tick) * tick
    } else {
        (price * factor) / (FACTOR_SCALE * tick) * tick
    }
}

pub(crate) proof fn lemma_floor_div_covers(a: int, b: int)
    requires
        a >= 0,
        b > 0,
    ensures
        a / b * b <= a,
        a / b * b > a - b,
        a / b >= 0,
{
    vstd::arithmetic::div_mod::lemma_fundamental_div_mod(a, b);
    vstd::arithmetic::div_mod::lemma_div_pos_is_pos(a, b);
    let q = a / b;
    let r = a % b;
    assert(q * b <= a && q * b > a - b) by (nonlinear_arith) requires a == b * q + r, 0 <= r < b;
}

pub(crate) proof fn lemma_tick_round_bounds(price: int, factor: int, tick: int, up: bool)
    requires
        price >= 0,
        factor >= 0,
        tick > 0,
    ensures
        0 <= tick_round(price, factor, tick, up) <= price * factor / 10000 + tick,
{
    let a = price * factor;
    let b = FACTOR_SCALE * tick;
    assert(0 <= a) by (nonlinear_arith) requires price >= 0, factor >= 0, a == price * factor;
    if up {
        lemma_ceil_div_covers(a, b);
        let q = ceil_div(a, b);
        assert(q * tick <= a / 10000 + tick) by (nonlinear_arith)
            requires q * (FACTOR_SCALE * tick) < a + FACTOR_SCALE * tick, tick > 0, q >= 0, a >= 0;
        assert(0 <= q * tick) by (nonlinear_arith) requires q >= 0, tick > 0;
    } else {
        lemma_floor_div_covers(a, b);
        let q = a / b;
        assert(0 <= q * tick <= a / 10000) by (nonlinear_arith)
            requires q * (FACTOR_SCALE * tick) <= a, tick > 0, q >= 0, a >= 0;
    }
}

/// `price * factor` rounded to the tick grid.
pub(crate) fn round_to_tick(price: u64, factor: u64, tick: u64, up: bool) -> (r: u128)
    requires
        factor <= 20000,
        0 < tick,
    ensures
        r == tick_round(price as int, factor as int, tick as int, up),
        r <= price * factor / 10000 + tick,
{
    proof {
        lemma_tick_round_bounds(price as int, factor as int, tick as int, up);
    }
    assert((price as u128) * (factor as u128) <= (u64::MAX as u128) * 20000) by (nonlinear_arith)
        requires factor <= 20000;
    assert(price * factor / 10000 <= (u64::MAX as int) * 2) by (nonlinear_arith)
        requires factor <= 20000;
    let a = (price as u128) * (factor as u128);
    let b = FACTOR_SCALE * (tick as u128);
    if up {
        ceil_div_u128(a, b) * (tick as u128)
    } else {
        a / b * (tick as u128)
    }
}

pub(crate) proof fn lemma_tick_round_vs_price(price: int, factor: int, tick: int, up: bool)
    requires
        price >= 0,
        factor >= 0,
        tick > 0,
    ensures
        up && factor >= 10000 ==> tick_round(price, factor, tick, up) >= price,
        !up && factor <= 10000 ==> tick_round(price, factor, tick, up) <= price,
{
    let a = price * factor;
    let b = FACTOR_SCALE * tick;
    assert(a >= 0) by (nonlinear_arith) requires price >= 0, factor >= 0, a == price * factor;
    if up {
        lemma_ceil_div_covers(a, b);
        let q = ceil_div(a, b);
        if factor >= 10000 {
            assert(q * tick >= price) by (nonlinear_arith)
                requires q * (FACTOR_SCALE * tick) >= a, a == price * factor, factor >= 10000, price >= 0, tick > 0;
        }
    } else {
        lemma_floor_div_covers(a, b);
        let q = a / b;
        if factor <= 10000 {
            assert(q * tick <= price) by (nonlinear_arith)
                requires q * (FACTOR_SCALE * tick) <= a, a == price * factor, factor <= 10000, price >= 0, tick > 0;
        }
    }
}

/// An error answered by the exchange: a code and a message.
pub struct ApiError {
    code: i64,
    message: String,
}

impl ApiError {
    pub closed spec fn spec_code(&self) -> i64 {
        self.code
    }

    pub closed spec fn spec_message(&self) -> Seq<char> {
        self.message@
    }

    /// An error with `code` and `message`.
    pub fn new(code: i64, message: String) -> (e: ApiError)
        ensures
            e.spec_code() == code,
            e.spec_message() == message@,
    {
        ApiError { code, message }
    }

    /// The error reported for a refused request whose body is not an
    /// error of the exchange: the HTTP status as code, and no message.
    pub fn of_status(status: u16) -> (e: ApiError)
        ensures
            e.spec_code() == status as i64,
            e.spec_message() == Seq::<char>::empty(),
    {
        ApiError { code: status as i64, message: String::new() }
    }

    /// The error's code.
    pub fn code(&self) -> (c: i64)
        ensures
            c == self.spec_code(),
    {
        self.code
    }

    /// The error's message.
    pub fn message(&self) -> (m: &str)
        ensures
            m@ == self.spec_message(),
    {
        self.message.as_str()
    }

    /// The error as text: `code: <code> message: <message>`.
    pub fn describe(&self) -> (s: String)
        ensures
            s@ == "code: "@ + int_decimal(self.spec_code() as int) + " message: "@ + self.spec_message(),
    {
        let mut s = String::new();
        s.append("code: ");
        let c = format_i64(self.code);
        s.append(c.as_str());
        s.append(" message: ");
        s.append(self.message.as_str());
        s
    }
}

/// A request that the exchange did not answer with success.
#[derive(Debug, PartialEq, Eq, Structural)]
pub enum StatusError {
    /// A client error (4xx): the request was refused.
    BadRequest(u16),
    /// A server error (5xx), where an order request tells it apart.
    ServerError(u16),
    /// Any other status outside 2xx.
    Failed(u16),
}

/// How a response is taken by its HTTP status: client errors are refusals,
/// every other status outside the success range is a failure.
pub open spec fn spec_check_status(status: u16) -> Result<(), StatusError> {
    if 400 <= status < 500 {
        Err(StatusError::BadRequest(status))
    } else if !(200 <= status < 300) {
        Err(StatusError::Failed(status))
    } else {
        Ok(())
    }
}

/// How the answer to an order request is taken: server errors first, then
/// as `spec_check_status`.
pub open spec fn spec_check_order_status(status: u16) -> Result<(), StatusError> {
    if 500 <= status < 600 {
        Err(StatusError::ServerError(status))
    } else {
        spec_check_status(status)
    }
}

/// Classifies the answer to an order request by its HTTP status.
pub fn check_order_status(status: u16) -> (r: Result<(), StatusError>)
    ensures
        r == spec_check_order_status(status),
{
    if 500 <= status && status < 600 {
        Err(StatusError::ServerError(status))
    } else {
        check_status(status)
    }
}

/// Classifies a response by its HTTP status.
pub fn check_status(status: u16) -> (r: Result<(), StatusError>)
    ensures
        r == spec_check_status(status),
{
    if 400 <= status && status < 500 {
        Err(StatusError::BadRequest(status))
    } else if !(200 <= status && status < 300) {
        Err(StatusError::Failed(status))
    } else {
        Ok(())
    }
}

} // verus!
