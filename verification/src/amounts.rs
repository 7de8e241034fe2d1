//! Money: currencies with their exchange rate, figures with the exact
//! value that `rust_decimal` gives them, and amounts rounded to cents.
use vstd::prelude::*;
use vstd::string::StringExecFns;
use crate::text::{text, join2, join3, same_text, chars_of, string_of, sub_chars};

verus! {

/// `2^96`: `rust_decimal` mantissas are smaller than this in magnitude.
pub const DECIMAL_LIMIT: i128 = 79228162514264337593543950336;

/// `2^96`, as a mathematical integer.
pub open spec fn decimal_limit() -> int {
    79228162514264337593543950336
}

/// The identifiers of the supported currencies differ.
pub proof fn lemma_idents_distinct()
    ensures
        "EUR"@ != "JPY"@,
        "EUR"@.len() == 3,
        "JPY"@.len() == 3,
{
    reveal_strlit("EUR");
    reveal_strlit("JPY");
    assert("EUR"@[0] != "JPY"@[0]);
}

/// `10^n`.
pub open spec fn pow10(n: nat) -> int
    decreases n,
{
    if n == 0 { 1 } else { 10 * pow10((n - 1) as nat) }
}

/// A decimal number as `rust_decimal` holds it: `mantissa / 10^scale`.
#[derive(Clone, Copy, Debug)]
pub struct Figure {
    pub mantissa: i128,
    pub scale: u32,
}

impl Figure {
    /// The figure is one that `rust_decimal` can represent.
    pub open spec fn wf(self) -> bool {
        self.scale <= 28 && -decimal_limit() < self.mantissa < decimal_limit()
    }

    /// The figure, for one with at most two decimals, counted in hundredths.
    pub open spec fn cents(self) -> int {
        cents_of(self.mantissa as int, self.scale)
    }

    /// The integer `n`, with no decimals.
    pub fn from_int(n: i64) -> (r: Figure)
        ensures
            r.wf(),
            r.mantissa == n,
            r.scale == 0,
            r.cents() == n * 100,
    {
        Figure { mantissa: n as i128, scale: 0 }
    }

    /// The figure `mantissa / 10^scale`, where `rust_decimal` can hold it.
    pub fn from_parts(mantissa: i128, scale: u32) -> (r: Option<Figure>)
        ensures
            r matches Some(f) ==> f.wf() && f.mantissa == mantissa && f.scale == scale,
            (scale <= 28 && -decimal_limit() < mantissa < decimal_limit()) ==> r is Some,
    {
        if scale <= 28 && -DECIMAL_LIMIT < mantissa && mantissa < DECIMAL_LIMIT {
            Some(Figure { mantissa, scale })
        } else {
            None
        }
    }

    /// Reads a decimal number as `rust_decimal::Decimal::from_str_exact` does.
    pub fn from_text(s: &str) -> (r: Option<Figure>)
        ensures
            r matches Some(f) ==> f.wf() && decimal_parse(s@) == Some((f.mantissa as int, f.scale as int)),
            r is None ==> decimal_parse(s@) is None,
    {
        decimal_from_str_exact(s)
    }
}

/// A mantissa of the given scale (at most 2), counted in hundredths.
pub open spec fn cents_of(mantissa: int, scale: u32) -> int {
    if scale == 0 { mantissa * 100 } else if scale == 1 { mantissa * 10 } else { mantissa }
}

/// `x / d` rounded to the nearest integer, ties to the even one, the
/// magnitude being rounded and the sign kept (how `rust_decimal` rounds
/// with `MidpointNearestEven`).
pub open spec fn round_half_even_div(x: int, d: int) -> int {
    let a = if x < 0 { -x } else { x };
    let q = a / d;
    let rem = a % d;
    let up = if 2 * rem > d || (2 * rem == d && q % 2 == 1) { q + 1 } else { q };
    if x < 0 { -up } else { up }
}

/// The figure rounded to two decimals as `round_dp_with_strategy(2,
/// MidpointNearestEven)` does: unchanged with two decimals or fewer.
pub open spec fn spec_round_dp2(f: Figure) -> (int, u32) {
    if f.scale <= 2 {
        (f.mantissa as int, f.scale)
    } else {
        (round_half_even_div(f.mantissa as int, pow10((f.scale - 2) as nat)), 2u32)
    }
}

/// What `rust_decimal::Decimal::from_str_exact` reads from a text: the
/// mantissa and scale of the number, or nothing.
pub uninterp spec fn decimal_parse(text: Seq<char>) -> Option<(int, int)>;

/// What `rust_decimal` gives for the quotient `a / b` of two figures
/// (mantissa and scale each), or nothing where it fails.
pub uninterp spec fn decimal_quotient(a_mantissa: int, a_scale: int, b_mantissa: int, b_scale: int) -> Option<(int, int)>;

/// What `rust_decimal` gives for the product `a * b` of two figures
/// (mantissa and scale each), or nothing where it overflows.
pub uninterp spec fn decimal_product(a_mantissa: int, a_scale: int, b_mantissa: int, b_scale: int) -> Option<(int, int)>;

/// What converting a figure (mantissa and scale) from one exchange rate to
/// another gives: the figure times the quotient `to / from` of the rates,
/// each step as `rust_decimal` computes it, then rounded to hundredths;
/// nothing where a step fails.
pub open spec fn decimal_convert(mantissa: int, scale: int, from_mantissa: int, from_scale: int, to_mantissa: int, to_scale: int) -> Option<(int, int)> {
    match decimal_quotient(to_mantissa, to_scale, from_mantissa, from_scale) {
        None => None,
        Some((qm, qs)) => match decimal_product(mantissa, scale, qm, qs) {
            None => None,
            Some((pm, ps)) => {
                let rounded = spec_round_dp2(Figure { mantissa: pm as i128, scale: ps as u32 });
                Some((rounded.0, rounded.1 as int))
            },
        },
    }
}

/// `rust_decimal::Decimal::from_str_exact`: the mantissa and scale of the
/// number that the text writes, or `None`; what it accepts is left to the
/// name `decimal_parse`.
#[verifier::external_body]
fn decimal_from_str_exact(s: &str) -> (r: Option<Figure>)
    ensures
        r matches Some(f) ==> f.wf() && decimal_parse(s@) == Some((f.mantissa as int, f.scale as int)),
        r is None ==> decimal_parse(s@) is None,
{
    match rust_decimal::Decimal::from_str_exact(s) {
        Ok(d) => Some(Figure { mantissa: d.mantissa(), scale: d.scale() }),
        Err(_) => None,
    }
}

/// `rust_decimal::Decimal::round_dp_with_strategy(2, MidpointNearestEven)`:
/// a figure with two decimals or fewer is returned as it is; otherwise the
/// magnitude is rounded to hundredths, ties to even, and the scale is 2.
#[verifier::external_body]
fn decimal_round_dp2(f: Figure) -> (r: Figure)
    requires
        f.wf(),
    ensures
        r.wf(),
        (r.mantissa as int, r.scale) == spec_round_dp2(f),
{
    let d = rust_decimal::Decimal::from_i128_with_scale(f.mantissa, f.scale)
        .round_dp_with_strategy(2, rust_decimal::RoundingStrategy::MidpointNearestEven);
    Figure { mantissa: d.mantissa(), scale: d.scale() }
}

/// What `rust_decimal` gives for a figure (mantissa, scale) divided by a
/// positive integer `n`, then rounded to hundredths, ties to even.
pub uninterp spec fn decimal_divided_rounded(mantissa: int, scale: int, n: int) -> (int, int);

/// `rust_decimal` division of a figure with at most two decimals by a
/// positive integer, then `round_dp_with_strategy(2, MidpointNearestEven)`:
/// the result (named `decimal_divided_rounded`) has at most two decimals
/// and, for figures under `10^18` in magnitude, is the exact quotient
/// rounded to hundredths, ties to even.
#[verifier::external_body]
fn decimal_div_round(f: Figure, n: u16) -> (r: Figure)
    requires
        f.wf(),
        f.scale <= 2,
        n >= 1,
    ensures
        r.wf(),
        r.scale <= 2,
        (r.mantissa as int, r.scale as int) == decimal_divided_rounded(f.mantissa as int, f.scale as int, n as int),
        -100_000_000_000_000_000_000 < f.cents() < 100_000_000_000_000_000_000 ==> r.cents() == round_half_even_div(f.cents(), n as int),
{
    let d = rust_decimal::Decimal::from_i128_with_scale(f.mantissa, f.scale) / rust_decimal::Decimal::from(n);
    let d = d.round_dp_with_strategy(2, rust_decimal::RoundingStrategy::MidpointNearestEven);
    Figure { mantissa: d.mantissa(), scale: d.scale() }
}

/// `rust_decimal::Decimal::checked_div`: the quotient `a / b`, `None`
/// where `b` is zero or the quotient overflows; the value is left to the
/// name `decimal_quotient`.
#[verifier::external_body]
fn decimal_checked_div(a: Figure, b: Figure) -> (r: Option<Figure>)
    requires
        a.wf(),
        b.wf(),
    ensures
        r matches Some(q) ==> q.wf() && decimal_quotient(a.mantissa as int, a.scale as int, b.mantissa as int, b.scale as int) == Some((q.mantissa as int, q.scale as int)),
        r is None ==> decimal_quotient(a.mantissa as int, a.scale as int, b.mantissa as int, b.scale as int) is None,
        b.mantissa == 0 ==> r is None,
{
    let x = rust_decimal::Decimal::from_i128_with_scale(a.mantissa, a.scale);
    let y = rust_decimal::Decimal::from_i128_with_scale(b.mantissa, b.scale);
    match x.checked_div(y) {
        Some(d) => Some(Figure { mantissa: d.mantissa(), scale: d.scale() }),
        None => None,
    }
}

/// `rust_decimal::Decimal::checked_mul`: the product `a * b`, `None` where
/// it overflows; the value is left to the name `decimal_product`.
#[verifier::external_body]
fn decimal_checked_mul(a: Figure, b: Figure) -> (r: Option<Figure>)
    requires
        a.wf(),
        b.wf(),
    ensures
        r matches Some(p) ==> p.wf() && decimal_product(a.mantissa as int, a.scale as int, b.mantissa as int, b.scale as int) == Some((p.mantissa as int, p.scale as int)),
        r is None ==> decimal_product(a.mantissa as int, a.scale as int, b.mantissa as int, b.scale as int) is None,
{
    let x = rust_decimal::Decimal::from_i128_with_scale(a.mantissa, a.scale);
    let y = rust_decimal::Decimal::from_i128_with_scale(b.mantissa, b.scale);
    match x.checked_mul(y) {
        Some(d) => Some(Figure { mantissa: d.mantissa(), scale: d.scale() }),
        None => None,
    }
}

/// `10^(i + j)` is `10^i * 10^j`, and a power of ten is positive.
pub proof fn lemma_pow10_add(i: nat, j: nat)
    ensures
        pow10(i + j) == pow10(i) * pow10(j),
        pow10(i) >= 1,
    decreases i,
{
    if i > 0 {
        lemma_pow10_add((i - 1) as nat, j);
        let a = pow10((i - 1) as nat);
        let b = pow10(j);
        assert(pow10(i + j) == 10 * pow10((i - 1 + j) as nat));
        assert(10 * (a * b) == (10 * a) * b) by (nonlinear_arith);
    }
}

/// The mantissa of `f` written at scale `s`, no smaller than its own.
pub open spec fn rescaled(f: Figure, s: u32) -> int {
    f.mantissa * pow10((s - f.scale) as nat)
}

/// The sum of two figures where `rust_decimal` computes it exactly: a zero
/// operand gives the other one unchanged; otherwise, where both figures
/// and their sum can be held at the larger of the two scales, the sum at
/// that scale. Nothing is claimed elsewhere.
pub open spec fn exact_sum(a: Figure, b: Figure) -> Option<Figure> {
    if a.mantissa == 0 {
        Some(b)
    } else if b.mantissa == 0 {
        Some(a)
    } else {
        let s = if a.scale >= b.scale { a.scale } else { b.scale };
        let x = rescaled(a, s);
        let y = rescaled(b, s);
        if -decimal_limit() < x < decimal_limit() && -decimal_limit() < y < decimal_limit()
            && -decimal_limit() < x + y < decimal_limit() {
            Some(Figure { mantissa: (x + y) as i128, scale: s })
        } else {
            None
        }
    }
}

/// `sum_scale` for figures of at most two decimals, told by their values
/// in hundredths and their scales (such a figure is zero exactly where its
/// hundredths are).
pub open spec fn scale_after(a_cents: int, a_scale: u32, b_cents: int, b_scale: u32) -> u32 {
    if a_cents == 0 {
        b_scale
    } else if b_cents == 0 {
        a_scale
    } else if a_scale >= b_scale {
        a_scale
    } else {
        b_scale
    }
}

/// The scale of a sum as `rust_decimal` gives it when the sum is exact: a
/// zero operand leaves the other one as it is; otherwise the larger of the
/// two scales.
pub open spec fn sum_scale(a: Figure, b: Figure) -> u32 {
    if a.mantissa == 0 {
        b.scale
    } else if b.mantissa == 0 {
        a.scale
    } else if a.scale >= b.scale {
        a.scale
    } else {
        b.scale
    }
}

/// For figures of at most two decimals whose sum can be held, `r` is that
/// sum, at the scale `sum_scale`.
pub open spec fn exact_sum_holds(a: Figure, b: Figure, r: Option<Figure>) -> bool {
    a.scale <= 2 && b.scale <= 2 && -decimal_limit() < a.cents() + b.cents() < decimal_limit() ==> (r matches Some(f)
        && f.cents() == a.cents() + b.cents() && f.scale == sum_scale(a, b))
}

/// What `rust_decimal` gives for the sum of two figures (mantissa and
/// scale each), or nothing where it overflows.
pub uninterp spec fn decimal_sum(a_mantissa: int, a_scale: int, b_mantissa: int, b_scale: int) -> Option<(int, int)>;

/// `rust_decimal::Decimal::checked_add`: the sum, `None` where it
/// overflows. A zero operand gives back the other one unchanged; otherwise,
/// where both figures and the sum can be held at the larger of the two
/// scales, the sum is exact and has that scale (`exact_sum`). For figures
/// of at most two decimals this is also stated in hundredths; where the
/// sum is not exact (`rust_decimal` then rounds it, or fails), it is left
/// to the name `decimal_sum`.
#[verifier::external_body]
fn decimal_checked_add(a: Figure, b: Figure) -> (r: Option<Figure>)
    requires
        a.wf(),
        b.wf(),
    ensures
        r matches Some(f) ==> f.wf() && decimal_sum(a.mantissa as int, a.scale as int, b.mantissa as int, b.scale as int) == Some((f.mantissa as int, f.scale as int)),
        r is None ==> decimal_sum(a.mantissa as int, a.scale as int, b.mantissa as int, b.scale as int) is None,
        exact_sum_holds(a, b, r),
        exact_sum(a, b) matches Some(f) ==> r == Some(f),
{
    let x = rust_decimal::Decimal::from_i128_with_scale(a.mantissa, a.scale);
    let y = rust_decimal::Decimal::from_i128_with_scale(b.mantissa, b.scale);
    match x.checked_add(y) {
        Some(d) => Some(Figure { mantissa: d.mantissa(), scale: d.scale() }),
        None => None,
    }
}

impl Figure {
    /// The sum of two figures, as `rust_decimal` computes it; `None` where
    /// it overflows.
    pub fn plus(&self, other: &Figure) -> (r: Option<Figure>)
        requires
            self.wf(),
            other.wf(),
        ensures
            r matches Some(f) ==> f.wf() && decimal_sum(self.mantissa as int, self.scale as int, other.mantissa as int, other.scale as int)
                == Some((f.mantissa as int, f.scale as int)),
            r is None ==> decimal_sum(self.mantissa as int, self.scale as int, other.mantissa as int, other.scale as int) is None,
            self.scale <= 2 && other.scale <= 2 && -decimal_limit() < self.cents() + other.cents() < decimal_limit() ==> (r matches Some(f)
                && f.cents() == self.cents() + other.cents() && f.scale == sum_scale(*self, *other)),
            exact_sum(*self, *other) matches Some(f) ==> r == Some(f),
    {
        decimal_checked_add(*self, *other)
    }

    /// The opposite figure.
    pub fn negated(&self) -> (r: Figure)
        requires
            self.wf(),
        ensures
            r.wf(),
            r.mantissa == -self.mantissa,
            r.scale == self.scale,
            r.cents() == -self.cents(),
    {
        Figure { mantissa: -self.mantissa, scale: self.scale }
    }

    /// The figure multiplied by `10^(2 - scale)`, for a figure of at most
    /// two decimals: its value in hundredths.
    pub fn in_cents(&self) -> (r: i128)
        requires
            self.wf(),
            self.scale <= 2,
        ensures
            r == self.cents(),
    {
        cents_value(self)
    }

    /// The figure converted from one exchange rate to another, as
    /// `rust_decimal` computes `figure * (to / from)` rounded to hundredths,
    /// ties to even; `None` where it overflows or `from` is zero.
    pub fn converted(&self, from: &Figure, to: &Figure) -> (r: Option<Figure>)
        requires
            self.wf(),
            from.wf(),
            to.wf(),
        ensures
            r matches Some(g) ==> g.wf() && g.scale <= 2
                && decimal_convert(self.mantissa as int, self.scale as int, from.mantissa as int, from.scale as int, to.mantissa as int, to.scale as int)
                    == Some((g.mantissa as int, g.scale as int)),
            r is None ==> decimal_convert(self.mantissa as int, self.scale as int, from.mantissa as int, from.scale as int, to.mantissa as int, to.scale as int) is None,
    {
        let rate = match decimal_checked_div(*to, *from) {
            Some(q) => q,
            None => {
                return None;
            },
        };
        let product = match decimal_checked_mul(*self, rate) {
            Some(p) => p,
            None => {
                return None;
            },
        };
        let rounded = decimal_round_dp2(product);
        assert(product == Figure { mantissa: product.mantissa as int as i128, scale: product.scale as int as u32 });
        Some(rounded)
    }
}

/// How `rust_decimal` displays the figure `mantissa / 10^scale`: a minus
/// sign for a negative figure, the whole part in decimal digits (`0` where
/// there is none), then, where the scale is not zero, a point and the last
/// `scale` digits of the magnitude, zero-padded (trailing zeros kept).
pub open spec fn decimal_display(mantissa: int, scale: int) -> Seq<char> {
    let magnitude = if mantissa < 0 { -mantissa } else { mantissa };
    let p = pow10(scale as nat);
    (if mantissa < 0 { seq!['-'] } else { Seq::empty() })
        + crate::text::decimal_digits((magnitude / p) as nat)
        + (if scale > 0 { seq!['.'] + crate::text::padded_int(magnitude % p, scale) } else { Seq::empty() })
}

/// `rust_decimal::Decimal`'s `Display` of a figure (see `decimal_display`).
#[verifier::external_body]
pub(crate) fn figure_text(f: &Figure) -> (r: String)
    requires
        f.wf(),
    ensures
        r@ == decimal_display(f.mantissa as int, f.scale as int),
{
    rust_decimal::Decimal::from_i128_with_scale(f.mantissa, f.scale).to_string()
}

/// The currencies that exchange rates can hold.
#[derive(Clone, Copy, Debug, PartialEq, Eq, Structural)]
pub enum CurrencyCode {
    Eur,
    Jpy,
}

impl CurrencyCode {
    /// The identifier of the currency (`EUR`, `JPY`).
    pub open spec fn spec_ident(self) -> Seq<char> {
        match self {
            CurrencyCode::Eur => "EUR"@,
            CurrencyCode::Jpy => "JPY"@,
        }
    }

    /// The sign written before figures of the currency.
    pub open spec fn spec_sign(self) -> Seq<char> {
        match self {
            CurrencyCode::Eur => "€"@,
            CurrencyCode::Jpy => "¥"@,
        }
    }

    /// The identifier of the currency (`EUR`, `JPY`).
    pub fn ident(&self) -> (r: String)
        ensures
            r@ == self.spec_ident(),
    {
        match self {
            CurrencyCode::Eur => text("EUR"),
            CurrencyCode::Jpy => text("JPY"),
        }
    }

    /// The sign written before figures of the currency.
    pub fn sign(&self) -> (r: String)
        ensures
            r@ == self.spec_sign(),
    {
        match self {
            CurrencyCode::Eur => text("€"),
            CurrencyCode::Jpy => text("¥"),
        }
    }

    /// The currency that an identifier names, if it is supported.
    pub fn from_ident(ident: &str) -> (r: Option<CurrencyCode>)
        ensures
            r matches Some(c) ==> c.spec_ident() == ident@,
            r is None ==> ident@ != "EUR"@ && ident@ != "JPY"@,
    {
        if same_text(ident, "EUR") {
            Some(CurrencyCode::Eur)
        } else if same_text(ident, "JPY") {
            Some(CurrencyCode::Jpy)
        } else {
            None
        }
    }
}

/// A currency and its exchange rate.
#[derive(Clone, Copy, Debug)]
pub struct Currency {
    pub code: CurrencyCode,
    pub rate: Figure,
}

impl Currency {
    pub open spec fn wf(self) -> bool {
        self.rate.wf()
    }

    /// Same currency with the same rate.
    pub open spec fn same(self, other: Currency) -> bool {
        self.code == other.code && self.rate.mantissa == other.rate.mantissa && self.rate.scale == other.rate.scale
    }

    /// The sign written before figures of the currency.
    pub fn sign(&self) -> (r: String)
        ensures
            r@ == self.code.spec_sign(),
    {
        self.code.sign()
    }

    /// Whether two currencies are the same, with the same rate.
    pub fn same_as(&self, other: &Currency) -> (r: bool)
        ensures
            r == self.same(*other),
    {
        self.code == other.code && self.rate.mantissa == other.rate.mantissa && self.rate.scale == other.rate.scale
    }
}

/// A figure in a currency, rounded to hundredths.
#[derive(Clone, Copy, Debug)]
pub struct ImmutableAmount {
    currency: Currency,
    figure: Figure,
}

impl ImmutableAmount {
    #[verifier::type_invariant]
    spec fn rounded(self) -> bool {
        self.currency.wf() && self.figure.wf() && self.figure.scale <= 2
    }

    pub closed spec fn spec_currency(self) -> Currency {
        self.currency
    }

    pub closed spec fn spec_figure(self) -> Figure {
        self.figure
    }

    /// The figure rounded to hundredths, ties to even, in the currency.
    pub fn new(currency: &Currency, figure: Figure) -> (r: ImmutableAmount)
        requires
            currency.wf(),
            figure.wf(),
        ensures
            r.spec_currency() == *currency,
            (r.spec_figure().mantissa as int, r.spec_figure().scale) == spec_round_dp2(figure),
    {
        let rounded = decimal_round_dp2(figure);
        ImmutableAmount { currency: *currency, figure: rounded }
    }

    pub fn currency(&self) -> (r: Currency)
        ensures
            r == self.spec_currency(),
            r.wf(),
    {
        proof {
            use_type_invariant(self);
        }
        self.currency
    }

    pub fn figure(&self) -> (r: Figure)
        ensures
            r == self.spec_figure(),
            r.wf(),
            r.scale <= 2,
    {
        proof {
            use_type_invariant(self);
        }
        self.figure
    }
}

/// The figure `mantissa / 10^scale` in currency `from`, converted to
/// currency `to` as `Amount::convert` does: unchanged within a currency,
/// otherwise multiplied by the quotient of the rates and rounded to
/// hundredths; `None` where `rust_decimal` overflows.
pub open spec fn converted_figure(mantissa: int, scale: u32, from: Currency, to: Currency) -> Option<(int, u32)> {
    if from.same(to) {
        Some((mantissa, scale))
    } else {
        match decimal_convert(mantissa, scale as int, from.rate.mantissa as int, from.rate.scale as int,
            to.rate.mantissa as int, to.rate.scale as int) {
            Some((m, s)) => Some((m, s as u32)),
            None => None,
        }
    }
}

/// `converted_figure`, counted in hundredths of `to`.
pub open spec fn converted_cents(mantissa: int, scale: u32, from: Currency, to: Currency) -> Option<int> {
    match converted_figure(mantissa, scale, from, to) {
        Some((m, s)) => Some(cents_of(m, s)),
        None => None,
    }
}

/// An amount of money: a figure with at most two decimals, in a currency.
#[derive(Clone, Copy, Debug)]
pub struct Amount {
    immutable_amount: ImmutableAmount,
}

impl Amount {
    /// The amount's currency.
    pub closed spec fn spec_currency(self) -> Currency {
        self.immutable_amount.spec_currency()
    }

    /// The amount's figure.
    pub closed spec fn spec_figure(self) -> Figure {
        self.immutable_amount.spec_figure()
    }

    /// An amount is its currency and its figure: two amounts that agree on
    /// both are the same.
    pub proof fn lemma_amount_ext(a: Amount, b: Amount)
        requires
            a.spec_currency() == b.spec_currency(),
            a.spec_figure() == b.spec_figure(),
        ensures
            a == b,
    {
        assert(a.immutable_amount == b.immutable_amount);
    }

    /// The amount in hundredths of its currency.
    pub open spec fn cents(self) -> int {
        self.spec_figure().cents()
    }

    /// The amount that `figure` rounded to hundredths makes in `currency`.
    pub fn new(currency: &Currency, figure: Figure) -> (r: Amount)
        requires
            currency.wf(),
            figure.wf(),
        ensures
            r.spec_currency() == *currency,
            (r.spec_figure().mantissa as int, r.spec_figure().scale) == spec_round_dp2(figure),
    {
        Amount { immutable_amount: ImmutableAmount::new(currency, figure) }
    }

    /// The amount's currency.
    pub fn currency(&self) -> (r: Currency)
        ensures
            r == self.spec_currency(),
            r.wf(),
    {
        self.immutable_amount.currency()
    }

    /// The amount's figure.
    pub fn figure(&self) -> (r: Figure)
        ensures
            r == self.spec_figure(),
            r.wf(),
            r.scale <= 2,
    {
        self.immutable_amount.figure()
    }

    /// Same currency, same value.
    pub open spec fn same_value(self, other: Amount) -> bool {
        self.spec_currency().same(other.spec_currency()) && self.cents() == other.cents()
    }

    /// Whether the two amounts are in the same currency (with the same
    /// rate) and have the same value, whatever their number of decimals.
    pub fn equals(&self, other: &Amount) -> (r: bool)
        ensures
            r == self.same_value(*other),
    {
        let a = self.figure();
        let b = other.figure();
        self.currency().same_as(&other.currency()) && cents_value(&a) == cents_value(&b)
    }

    /// The amount counted in hundredths.
    pub fn in_cents(&self) -> (r: i128)
        ensures
            r == self.cents(),
    {
        let f = self.figure();
        cents_value(&f)
    }

    /// The value is below zero.
    pub fn is_negative(&self) -> (r: bool)
        ensures
            r == (self.cents() < 0),
    {
        self.figure().mantissa < 0
    }

    /// The amount with the opposite sign.
    pub fn flip_sign(&self) -> (r: Amount)
        ensures
            r.spec_currency() == self.spec_currency(),
            r.spec_figure().scale == self.spec_figure().scale,
            r.cents() == -self.cents(),
    {
        let f = self.figure();
        let c = self.currency();
        let negated = Figure { mantissa: -f.mantissa, scale: f.scale };
        Amount::new(&c, negated)
    }

    /// The amount in `target`'s currency: the same figure where the
    /// currency is the same, otherwise the figure times the quotient of the
    /// rates, rounded to hundredths.
    pub fn convert(&self, target: &Currency) -> (r: Result<Amount, String>)
        requires
            target.wf(),
        ensures
            self.spec_currency().same(*target) ==> (r matches Ok(a) && a.spec_currency() == *target && a.spec_figure() == self.spec_figure()),
            !self.spec_currency().same(*target) ==> match decimal_convert(self.spec_figure().mantissa as int, self.spec_figure().scale as int,
                self.spec_currency().rate.mantissa as int, self.spec_currency().rate.scale as int, target.rate.mantissa as int, target.rate.scale as int) {
                Some((m, s)) => r matches Ok(a) && a.spec_currency() == *target && a.spec_figure().mantissa == m && a.spec_figure().scale == s,
                None => r matches Err(e) && e@ == "Amount conversion overflowed"@,
            },
    {
        let f = self.figure();
        let c = self.currency();
        if c.same_as(target) {
            return Ok(Amount::new(target, f));
        }
        match f.converted(&c.rate, &target.rate) {
            Some(g) => Ok(Amount::new(target, g)),
            None => Err(text("Amount conversion overflowed")),
        }
    }

    /// The figure (mantissa, scale) of the amount once converted to
    /// `target`, as `convert` computes it; `None` where it overflows.
    pub open spec fn spec_converted(self, target: Currency) -> Option<(int, u32)> {
        converted_figure(self.spec_figure().mantissa as int, self.spec_figure().scale, self.spec_currency(), target)
    }

    /// The amount once converted to `target`, in hundredths of `target`.
    pub open spec fn spec_converted_cents(self, target: Currency) -> Option<int> {
        match self.spec_converted(target) {
            Some((m, s)) => Some(cents_of(m, s)),
            None => None,
        }
    }

    /// The scale of the sum (or difference) of this amount and `other`,
    /// converted, where both have at most two decimals (see `scale_after`).
    pub open spec fn sum_scale_with(self, other: Amount) -> Option<u32> {
        match other.spec_converted(self.spec_currency()) {
            Some((m, sc)) => Some(scale_after(self.cents(), self.spec_figure().scale, cents_of(m, sc), sc)),
            None => None,
        }
    }

    /// The sum of two amounts in this amount's currency (the other one is
    /// converted first).
    pub fn add(&self, other: &Amount) -> (r: Result<Amount, String>)
        ensures
            r matches Ok(a) ==> a.spec_currency() == self.spec_currency(),
            other.spec_currency().same(self.spec_currency()) ==> other.spec_converted_cents(self.spec_currency()) == Some(other.cents()),
            match other.spec_converted_cents(self.spec_currency()) {
                None => r matches Err(e) && e@ == "Amount conversion overflowed"@,
                Some(c) => if -decimal_limit() < self.cents() + c < decimal_limit() {
                    r matches Ok(a) && a.cents() == self.cents() + c
                } else {
                    r matches Err(e) && e@ == "Amount overflow"@
                },
            },
            r matches Ok(a) ==> self.sum_scale_with(*other) == Some(a.spec_figure().scale),
    {
        self.combine(other, false)
    }

    /// The difference of two amounts in this amount's currency (the other
    /// one is converted first).
    pub fn sub(&self, other: &Amount) -> (r: Result<Amount, String>)
        ensures
            r matches Ok(a) ==> a.spec_currency() == self.spec_currency(),
            other.spec_currency().same(self.spec_currency()) ==> other.spec_converted_cents(self.spec_currency()) == Some(other.cents()),
            match other.spec_converted_cents(self.spec_currency()) {
                None => r matches Err(e) && e@ == "Amount conversion overflowed"@,
                Some(c) => if -decimal_limit() < self.cents() - c < decimal_limit() {
                    r matches Ok(a) && a.cents() == self.cents() - c
                } else {
                    r matches Err(e) && e@ == "Amount overflow"@
                },
            },
            r matches Ok(a) ==> self.sum_scale_with(*other) == Some(a.spec_figure().scale),
    {
        self.combine(other, true)
    }

    fn combine(&self, other: &Amount, subtract: bool) -> (r: Result<Amount, String>)
        ensures
            r matches Ok(a) ==> a.spec_currency() == self.spec_currency(),
            match other.spec_converted_cents(self.spec_currency()) {
                None => r matches Err(e) && e@ == "Amount conversion overflowed"@,
                Some(c) => if -decimal_limit() < (if subtract { self.cents() - c } else { self.cents() + c }) < decimal_limit() {
                    r matches Ok(a) && a.cents() == (if subtract { self.cents() - c } else { self.cents() + c })
                } else {
                    r matches Err(e) && e@ == "Amount overflow"@
                },
            },
            r matches Ok(a) ==> self.sum_scale_with(*other) == Some(a.spec_figure().scale),
    {
        let c = self.currency();
        let converted = other.convert(&c)?;
        let a = self.figure();
        let b = converted.figure();
        let total_cents: i128 = if subtract { cents_value(&a) - cents_value(&b) } else { cents_value(&a) + cents_value(&b) };
        if total_cents <= -DECIMAL_LIMIT || total_cents >= DECIMAL_LIMIT {
            return Err(text("Amount overflow"));
        }
        let addend = if subtract { b.negated() } else { b };
        match a.plus(&addend) {
            Some(sum) => Ok(Amount::new(&c, sum)),
            None => Err(text("Amount overflow")),
        }
    }

    /// The amount as displayed: the currency's sign, then the figure.
    pub fn to_text(&self) -> (r: String)
        ensures
            r@ == self.spec_currency().code.spec_sign() + decimal_display(self.spec_figure().mantissa as int, self.spec_figure().scale as int),
    {
        let f = self.figure();
        let mut r = self.currency().sign();
        r.append(figure_text(&f).as_str());
        r
    }

    /// The greater of two amounts of the same currency (the second one
    /// when they are equal).
    pub fn maximum(&self, other: &Amount) -> (r: Amount)
        ensures
            r == (if self.cents() > other.cents() { *self } else { *other }),
    {
        if self.in_cents() > other.in_cents() { *self } else { *other }
    }

    /// The amount divided by `n`, rounded to hundredths, ties to even.
    pub fn div_int(&self, n: u16) -> (r: Amount)
        requires
            n >= 1,
        ensures
            r.spec_currency() == self.spec_currency(),
            (r.spec_figure().mantissa as int, r.spec_figure().scale as int)
                == decimal_divided_rounded(self.spec_figure().mantissa as int, self.spec_figure().scale as int, n as int),
            -100_000_000_000_000_000_000 < self.cents() < 100_000_000_000_000_000_000 ==> r.cents() == round_half_even_div(self.cents(), n as int),
    {
        let f = self.figure();
        let c = self.currency();
        let q = decimal_div_round(f, n);
        Amount::new(&c, q)
    }
}

/// The figure counted in hundredths.
fn cents_value(f: &Figure) -> (r: i128)
    requires
        f.wf(),
        f.scale <= 2,
    ensures
        r == f.cents(),
{
    if f.scale == 0 { f.mantissa * 100 } else if f.scale == 1 { f.mantissa * 10 } else { f.mantissa }
}

/// The exchange rates of the supported currencies (EUR and JPY).
#[derive(Clone, Copy, Debug)]
pub struct ExchangeRates {
    eur: Option<Figure>,
    jpy: Option<Figure>,
}

/// The rates that a list of `(identifier, rate)` pairs gives, the last one
/// for a currency winning; the first identifier that is not supported
/// makes it an error.
pub open spec fn rates_from_list(rates: Seq<(Seq<char>, Figure)>) -> Result<(Option<Figure>, Option<Figure>), Seq<char>>
    decreases rates.len(),
{
    if rates.len() == 0 {
        Ok((None, None))
    } else {
        let (ident, rate) = rates[0];
        let rest = rates_from_list(rates.drop_first());
        if ident != "EUR"@ && ident != "JPY"@ {
            Err("Unsupported currency: "@ + ident + ". We support only EUR and JPY for now."@)
        } else {
            match rest {
                Err(e) => Err(e),
                Ok((eur, jpy)) => if ident == "EUR"@ {
                    Ok((if eur is Some { eur } else { Some(rate) }, jpy))
                } else {
                    Ok((eur, if jpy is Some { jpy } else { Some(rate) }))
                },
            }
        }
    }
}

impl ExchangeRates {
    /// All rates can be represented.
    pub open spec fn wf(self) -> bool {
        (self.spec_eur() matches Some(r) ==> r.wf()) && (self.spec_jpy() matches Some(r) ==> r.wf())
    }

    /// The rate of the euro, if known.
    pub closed spec fn spec_eur(self) -> Option<Figure> {
        self.eur
    }

    /// The rate of the yen, if known.
    pub closed spec fn spec_jpy(self) -> Option<Figure> {
        self.jpy
    }

    /// The rate that an identifier names, if known.
    pub open spec fn spec_rate(self, ident: Seq<char>) -> Option<Figure> {
        if ident == "EUR"@ { self.spec_eur() } else if ident == "JPY"@ { self.spec_jpy() } else { None }
    }

    /// The currency that an identifier names, if known.
    pub open spec fn spec_currency(self, ident: Seq<char>) -> Option<Currency> {
        match self.spec_rate(ident) {
            Some(rate) => Some(Currency { code: if ident == "EUR"@ { CurrencyCode::Eur } else { CurrencyCode::Jpy }, rate }),
            None => None,
        }
    }

    /// Exchange rates from `(identifier, rate)` pairs; only `EUR` and `JPY`
    /// are supported. Where an identifier comes twice, its last rate stays.
    pub fn from_indent_and_rates(rates: Vec<(String, Figure)>) -> (r: Result<ExchangeRates, String>)
        requires
            forall|i: int| 0 <= i < rates@.len() ==> (#[trigger] rates@[i]).1.wf(),
        ensures
            match rates_from_list(rates@.map_values(|x: (String, Figure)| (x.0@, x.1))) {
                Ok((eur, jpy)) => r matches Ok(e) && e.spec_eur() == eur && e.spec_jpy() == jpy && e.wf(),
                Err(m) => r matches Err(e) && e@ == m,
            },
    {
        let ghost all = rates@.map_values(|x: (String, Figure)| (x.0@, x.1));
        let mut eur: Option<Figure> = None;
        let mut jpy: Option<Figure> = None;
        let n = rates.len();
        let mut i: usize = n;
        // Walk from the back, so that the last rate of a currency stays and
        // the first unsupported identifier is the one reported.
        let mut error: Option<String> = None;
        while i > 0
            invariant
                i <= n,
                n == rates@.len(),
                all == rates@.map_values(|x: (String, Figure)| (x.0@, x.1)),
                forall|k: int| 0 <= k < rates@.len() ==> (#[trigger] rates@[k]).1.wf(),
                match rates_from_list(all.subrange(i as int, n as int)) {
                    Ok((e, j)) => error is None && eur == e && jpy == j,
                    Err(m) => error matches Some(s) && s@ == m,
                },
                eur matches Some(r) ==> r.wf(),
                jpy matches Some(r) ==> r.wf(),
            decreases i,
        {
            proof {
                lemma_idents_distinct();
            }
            i = i - 1;
            let ident = &rates[i].0;
            let rate = rates[i].1;
            assert(all.subrange(i as int, n as int).drop_first() =~= all.subrange(i + 1, n as int));
            assert(all[i as int] == (rates@[i as int].0@, rates@[i as int].1));
            assert(all.subrange(i as int, n as int)[0] == (ident@, rate));
            match CurrencyCode::from_ident(ident.as_str()) {
                None => {
                    error = Some(join3("Unsupported currency: ", ident.as_str(), ". We support only EUR and JPY for now."));
                },
                Some(CurrencyCode::Eur) => {
                    if error.is_none() && eur.is_none() {
                        eur = Some(rate);
                    }
                },
                Some(CurrencyCode::Jpy) => {
                    if error.is_none() && jpy.is_none() {
                        jpy = Some(rate);
                    }
                },
            }
        }
        assert(all.subrange(0, n as int) =~= all);
        match error {
            Some(e) => Err(e),
            None => Ok(ExchangeRates { eur, jpy }),
        }
    }

    /// Fixed rates for examples and tests: EUR at 1, JPY at 2.
    pub fn for_tests() -> (r: ExchangeRates)
        ensures
            r.wf(),
            r.spec_eur() == Some(Figure { mantissa: 1, scale: 0 }),
            r.spec_jpy() == Some(Figure { mantissa: 2, scale: 0 }),
    {
        ExchangeRates { eur: Some(Figure { mantissa: 1, scale: 0 }), jpy: Some(Figure { mantissa: 2, scale: 0 }) }
    }

    /// The currency that an identifier names.
    pub fn get_currency(&self, ident: &str) -> (r: Result<Currency, String>)
        requires
            self.wf(),
        ensures
            match self.spec_currency(ident@) {
                Some(c) => r == Ok::<Currency, String>(c) && c.wf(),
                None => r matches Err(e) && e@ == "Could not find currency ident: "@ + ident@,
            },
    {
        proof {
            lemma_idents_distinct();
        }
        let found = match CurrencyCode::from_ident(ident) {
            Some(CurrencyCode::Eur) => match self.eur {
                Some(rate) => Some(Currency { code: CurrencyCode::Eur, rate }),
                None => None,
            },
            Some(CurrencyCode::Jpy) => match self.jpy {
                Some(rate) => Some(Currency { code: CurrencyCode::Jpy, rate }),
                None => None,
            },
            None => None,
        };
        match found {
            Some(c) => Ok(c),
            None => Err(join2("Could not find currency ident: ", ident)),
        }
    }

    /// The amount that `figure`, rounded to hundredths, makes in the
    /// currency that `ident` names.
    pub fn new_amount(&self, ident: &str, figure: Figure) -> (r: Result<Amount, String>)
        requires
            self.wf(),
            figure.wf(),
        ensures
            match self.spec_currency(ident@) {
                Some(c) => r matches Ok(a) && a.spec_currency() == c
                    && (a.spec_figure().mantissa as int, a.spec_figure().scale) == spec_round_dp2(figure),
                None => r matches Err(e) && e@ == "Could not find currency ident: "@ + ident@,
            },
    {
        let currency = self.get_currency(ident)?;
        Ok(Amount::new(&currency, figure))
    }

    /// The amount of a raw amount, rounded to hundredths.
    pub fn new_amount_from_raw_amount(&self, raw: &RawAmount) -> (r: Result<Amount, String>)
        requires
            self.wf(),
            raw.figure.wf(),
        ensures
            match self.spec_currency(raw.currency@) {
                Some(c) => r matches Ok(a) && a.spec_currency() == c
                    && (a.spec_figure().mantissa as int, a.spec_figure().scale) == spec_round_dp2(raw.figure),
                None => r matches Err(e) && e@ == "Could not find currency ident: "@ + raw.currency@,
            },
    {
        self.new_amount(raw.currency.as_str(), raw.figure)
    }

    /// An amount of the currency `ident` whose figure is the decimal number
    /// that the text writes, rounded to hundredths.
    fn amount_of_text(&self, ident: &str, figure: &str) -> (r: Amount)
        requires
            self.wf(),
            self.spec_currency(ident@) is Some,
            decimal_parse(figure@) is Some,
        ensures
            r.spec_currency() == self.spec_currency(ident@)->Some_0,
            exists|f: Figure| f.wf() && decimal_parse(figure@) == Some((f.mantissa as int, f.scale as int))
                && #[trigger] spec_round_dp2(f) == (r.spec_figure().mantissa as int, r.spec_figure().scale),
    {
        let f = Figure::from_text(figure).unwrap();
        let a = self.new_amount(ident, f).unwrap();
        assert(spec_round_dp2(f) == (a.spec_figure().mantissa as int, a.spec_figure().scale));
        a
    }

    /// An amount of yen whose figure is the decimal number that the text
    /// writes, rounded to hundredths.
    pub fn yen(&self, figure: &str) -> (r: Amount)
        requires
            self.wf(),
            self.spec_currency("JPY"@) is Some,
            decimal_parse(figure@) is Some,
        ensures
            r.spec_currency() == self.spec_currency("JPY"@)->Some_0,
            exists|f: Figure| f.wf() && decimal_parse(figure@) == Some((f.mantissa as int, f.scale as int))
                && #[trigger] spec_round_dp2(f) == (r.spec_figure().mantissa as int, r.spec_figure().scale),
    {
        self.amount_of_text("JPY", figure)
    }

    /// An amount of euros whose figure is the decimal number that the text
    /// writes, rounded to hundredths.
    pub fn euro(&self, figure: &str) -> (r: Amount)
        requires
            self.wf(),
            self.spec_currency("EUR"@) is Some,
            decimal_parse(figure@) is Some,
        ensures
            r.spec_currency() == self.spec_currency("EUR"@)->Some_0,
            exists|f: Figure| f.wf() && decimal_parse(figure@) == Some((f.mantissa as int, f.scale as int))
                && #[trigger] spec_round_dp2(f) == (r.spec_figure().mantissa as int, r.spec_figure().scale),
    {
        self.amount_of_text("EUR", figure)
    }

    /// The amount of yen that the text writes (see `yen`), or `None` where
    /// the text is no decimal number or the rates do not know the yen.
    pub fn checked_yen(&self, figure: &str) -> (r: Option<Amount>)
        requires
            self.wf(),
        ensures
            (self.spec_currency("JPY"@) is Some && decimal_parse(figure@) is Some) <==> r is Some,
            r matches Some(a) ==> a.spec_currency() == self.spec_currency("JPY"@)->Some_0,
    {
        if Figure::from_text(figure).is_none() {
            return None;
        }
        match self.get_currency("JPY") {
            Ok(_) => Some(self.yen(figure)),
            Err(_) => None,
        }
    }

    /// The amount of euros that the text writes (see `euro`), or `None`
    /// where the text is no decimal number or the rates do not know the
    /// euro.
    pub fn checked_euro(&self, figure: &str) -> (r: Option<Amount>)
        requires
            self.wf(),
        ensures
            (self.spec_currency("EUR"@) is Some && decimal_parse(figure@) is Some) <==> r is Some,
            r matches Some(a) ==> a.spec_currency() == self.spec_currency("EUR"@)->Some_0,
    {
        if Figure::from_text(figure).is_none() {
            return None;
        }
        match self.get_currency("EUR") {
            Ok(_) => Some(self.euro(figure)),
            Err(_) => None,
        }
    }

    /// Zero in the currency that `ident` names.
    pub fn zero(&self, ident: &str) -> (r: Result<Amount, String>)
        requires
            self.wf(),
        ensures
            match self.spec_currency(ident@) {
                Some(c) => r matches Ok(a) && a.spec_currency() == c && a.cents() == 0 && a.spec_figure().scale == 0,
                None => r matches Err(e) && e@ == "Could not find currency ident: "@ + ident@,
            },
    {
        self.new_amount(ident, Figure::from_int(0))
    }
}

/// What an amount written as a currency sign followed by a figure reads as:
/// its currency identifier (`¥` for `JPY`, `€` for `EUR`) and its figure.
pub open spec fn spec_raw_amount_parse(w: Seq<char>) -> Result<(Seq<char>, Figure), Seq<char>> {
    if w.len() == 0 {
        Err("Empty amount"@)
    } else if w[0] != '¥' && w[0] != '€' {
        Err("Unknown currency sign: "@ + seq![w[0]])
    } else {
        let currency = if w[0] == '¥' { "JPY"@ } else { "EUR"@ };
        match decimal_parse(w.drop_first()) {
            None => Err("Invalid figure: "@ + w.drop_first()),
            Some((m, sc)) => Ok((currency, Figure { mantissa: m as i128, scale: sc as u32 })),
        }
    }
}

/// The raw amount holds the given currency identifier and figure.
pub open spec fn raw_amount_is(r: RawAmount, parts: (Seq<char>, Figure)) -> bool {
    r.currency@ == parts.0 && r.figure == parts.1
}

/// The raw amount read from a text, or why it cannot be read.
pub open spec fn raw_amount_read(w: Seq<char>, r: Result<RawAmount, String>) -> bool {
    match spec_raw_amount_parse(w) {
        Ok(parts) => r matches Ok(a) && raw_amount_is(a, parts) && a.figure.wf(),
        Err(m) => r matches Err(e) && e@ == m,
    }
}

/// An amount as written in the vault: a currency identifier and a figure,
/// not yet rounded.
#[derive(Clone, Debug)]
pub struct RawAmount {
    pub currency: String,
    pub figure: Figure,
}

impl RawAmount {
    /// The amount in the exchange rates' currency of the same identifier.
    pub fn to_amount(&self, exchange_rates: &ExchangeRates) -> (r: Result<Amount, String>)
        requires
            exchange_rates.wf(),
            self.figure.wf(),
        ensures
            match exchange_rates.spec_currency(self.currency@) {
                Some(c) => r matches Ok(a) && a.spec_currency() == c
                    && (a.spec_figure().mantissa as int, a.spec_figure().scale) == spec_round_dp2(self.figure),
                None => r matches Err(e) && e@ == "Could not find currency ident: "@ + self.currency@,
            },
    {
        exchange_rates.new_amount_from_raw_amount(self)
    }

    /// Reads an amount written as a currency sign followed by a figure,
    /// such as `¥2000` or `€12.5`.
    pub fn parse(s: &str) -> (r: Result<RawAmount, String>)
        ensures
            raw_amount_read(s@, r),
    {
        let chars = chars_of(s);
        if chars.len() == 0 {
            return Err(text("Empty amount"));
        }
        let sign = chars[0];
        if sign != '¥' && sign != '€' {
            let mut message = text("Unknown currency sign: ");
            let mut c: Vec<char> = Vec::new();
            c.push(sign);
            let c = string_of(&c);
            message.append(c.as_str());
            proof {
                reveal_strlit("Unknown currency sign: ");
                assert(message@ =~= "Unknown currency sign: "@ + seq![s@[0]]);
            }
            return Err(message);
        }
        let rest = string_of(&sub_chars(&chars, 1, chars.len()));
        assert(rest@ =~= s@.drop_first());
        let currency = if sign == '¥' { text("JPY") } else { text("EUR") };
        match Figure::from_text(rest.as_str()) {
            Some(figure) => Ok(RawAmount { currency, figure }),
            None => Err(join2("Invalid figure: ", rest.as_str())),
        }
    }

    /// A raw amount of yen whose figure is the decimal number that the text
    /// writes (read as `rust_decimal::Decimal::from_str_exact` reads it).
    pub fn yen(figure: &str) -> (r: RawAmount)
        requires
            decimal_parse(figure@) is Some,
        ensures
            r.currency@ == "JPY"@,
            r.figure.wf(),
            decimal_parse(figure@) == Some((r.figure.mantissa as int, r.figure.scale as int)),
    {
        match Figure::from_text(figure) {
            Some(f) => RawAmount { currency: text("JPY"), figure: f },
            None => {
                assert(false);
                RawAmount { currency: text("JPY"), figure: Figure::from_int(0) }
            },
        }
    }

    /// A raw amount of yen whose figure the text writes (see `yen`), or
    /// `None` where the text is no decimal number.
    pub fn checked_yen(figure: &str) -> (r: Option<RawAmount>)
        ensures
            (decimal_parse(figure@) is Some) <==> r is Some,
            r matches Some(a) ==> a.currency@ == "JPY"@ && decimal_parse(figure@) == Some((a.figure.mantissa as int, a.figure.scale as int)),
    {
        if Figure::from_text(figure).is_none() {
            return None;
        }
        Some(RawAmount::yen(figure))
    }

    /// A copy of the raw amount.
    pub fn duplicate(&self) -> (r: RawAmount)
        ensures
            r == *self,
    {
        RawAmount { currency: self.currency.clone(), figure: self.figure }
    }

    /// The raw amount of an amount.
    pub fn from_amount(amount: &Amount) -> (r: RawAmount)
        ensures
            r.currency@ == amount.spec_currency().code.spec_ident(),
            r.figure == amount.spec_figure(),
    {
        RawAmount { currency: amount.currency().code.ident(), figure: amount.figure() }
    }
}

} // verus!
