//! Money.
use vstd::prelude::*;

use crate::decimal::{
    decimal_read, decimal_sum, decimal_text, representable, same_number, Decimal, MAX_MANTISSA,
};
use crate::nano::{from_decimal, stored_nano};
use crate::text::{str_eq, to_upper, upper, Text};

verus! {

/// An exact monetary amount. Made only from a [`Decimal`].
#[derive(Debug, Clone, Copy, PartialEq, Eq)]
pub struct Money(Decimal);

impl View for Money {
    type V = (i128, u32);

    closed spec fn view(&self) -> (i128, u32) {
        self.0@
    }
}

/// The parts of an optional amount.
pub open spec fn opt_amount(m: Option<Money>) -> Option<(i128, u32)> {
    match m {
        Some(m) => Some(m@),
        None => None,
    }
}

/// The amounts one after another added onto what was added before; `None` as
/// soon as a sum does not fit.
pub open spec fn added_up(from: (i128, u32), amounts: Seq<Money>) -> Option<(i128, u32)>
    decreases amounts.len(),
{
    if amounts.len() == 0 {
        Some(from)
    } else {
        match added_up(from, amounts.drop_last()) {
            Some(sum) => decimal_sum(sum, amounts.last()@),
            None => None,
        }
    }
}

/// The sum of the mantissas.
pub open spec fn mantissas(amounts: Seq<Money>) -> int
    decreases amounts.len(),
{
    if amounts.len() == 0 {
        0
    } else {
        mantissas(amounts.drop_last()) + amounts.last()@.0
    }
}

proof fn mantissas_grow(amounts: Seq<Money>, i: int)
    requires
        0 <= i <= amounts.len(),
        forall|j: int| 0 <= j < amounts.len() ==> #[trigger] amounts[j]@.0 >= 0,
    ensures
        0 <= mantissas(amounts.take(i)) <= mantissas(amounts),
    decreases amounts.len(),
{
    if i == amounts.len() {
        assert(amounts.take(i) =~= amounts);
        if amounts.len() > 0 {
            mantissas_grow(amounts.drop_last(), i - 1);
            assert(amounts.drop_last().take(i - 1) =~= amounts.drop_last());
        }
    } else {
        mantissas_grow(amounts.drop_last(), i);
        assert(amounts.drop_last().take(i) =~= amounts.take(i));
    }
}

/// Amounts of the same scale, none below zero, that add up within the limits.
pub open spec fn exactly_addable(amounts: Seq<Money>, scale: u32) -> bool {
    &&& forall|j: int|
        #![trigger amounts[j]]
        0 <= j < amounts.len() ==> amounts[j]@.0 >= 0 && amounts[j]@.1 == scale
    &&& mantissas(amounts) <= MAX_MANTISSA
}

impl Money {
    /// Nothing.
    pub fn zero() -> (m: Money)
        ensures
            m@ == (0i128, 0u32),
    {
        Money(Decimal::zero())
    }

    pub fn new(amount: Decimal) -> (m: Money)
        ensures
            m@ == amount@,
    {
        Money(amount)
    }

    pub fn amount(self) -> (d: Decimal)
        ensures
            d@ == self@,
    {
        self.0
    }

    /// Storage form: whole nano-units. `None` if the value does not fit, rather
    /// than a wrong but plausible number.
    pub fn to_nanos(self) -> (r: Option<i64>)
        ensures
            r == stored_nano(self@),
            forall|nanos: i64| self@ == (nanos as i128, 9u32) ==> r == Some(nanos),
    {
        let r = from_decimal(self.0);
        proof {
            assert forall|nanos: i64| self@ == (nanos as i128, 9u32) implies r == Some(nanos) by {
                assert(same_number(self@, (nanos as i128, 9u32)));
            }
        }
        r
    }

    pub fn from_nanos(nanos: i64) -> (m: Money)
        ensures
            m@ == (nanos as i128, 9u32),
    {
        Money(Decimal::new(nanos, 9))
    }

    /// Addition; `None` where the sum does not fit. Exact for amounts of the
    /// same scale.
    pub fn checked_add(self, other: Money) -> (r: Option<Money>)
        ensures
            opt_amount(r) == decimal_sum(self@, other@),
            self@.1 == other@.1 && -MAX_MANTISSA <= self@.0 + other@.0 <= MAX_MANTISSA
                ==> opt_amount(r) == Some(((self@.0 + other@.0) as i128, self@.1)),
    {
        match self.0.checked_add(other.0) {
            Some(d) => Some(Money(d)),
            None => None,
        }
    }

    /// All the amounts together; `None` where the sum does not fit on the way.
    /// Amounts of the same scale are added exactly, however many they are.
    pub fn sum(amounts: &[Money]) -> (r: Option<Money>)
        ensures
            opt_amount(r) == added_up((0i128, 0u32), amounts@),
            forall|scale: u32| #[trigger]
                exactly_addable(amounts@, scale) && amounts@.len() > 0 ==> opt_amount(r) == Some(
                    (mantissas(amounts@) as i128, scale),
                ),
    {
        let mut total = Money::zero();
        let mut i: usize = 0;
        while i < amounts.len()
            invariant
                i <= amounts.len(),
                added_up((0i128, 0u32), amounts@.take(i as int)) == Some(total@),
                i == 0 ==> total@ == (0i128, 0u32),
                forall|scale: u32| #[trigger]
                    exactly_addable(amounts@, scale) && i > 0 ==> total@ == (
                        mantissas(amounts@.take(i as int)) as i128,
                        scale,
                    ),
            decreases amounts.len() - i,
        {
            proof {
                assert(amounts@.take(i + 1).drop_last() =~= amounts@.take(i as int));
                assert(amounts@.take(i + 1).last() == amounts@[i as int]);
                assert forall|scale: u32| #[trigger] exactly_addable(amounts@, scale) implies 0
                    <= mantissas(amounts@.take(i as int)) <= MAX_MANTISSA && 0 <= mantissas(
                    amounts@.take(i + 1),
                ) <= MAX_MANTISSA by {
                    mantissas_grow(amounts@, i as int);
                    mantissas_grow(amounts@, i + 1);
                }
            }
            match total.0.checked_add(amounts[i].0) {
                Some(d) => {
                    total = Money(d);
                },
                None => {
                    proof {
                        assert(added_up((0i128, 0u32), amounts@.take(i + 1)).is_none());
                        none_stays(amounts@, i + 1);
                    }
                    return None;
                },
            }
            i += 1;
        }
        proof {
            assert(amounts@.take(i as int) =~= amounts@);
        }
        Some(total)
    }

    /// The amount that a text stands for. An amount is exchanged as a text and
    /// never as a number, and what [`Money::text`] writes is read back without
    /// loss.
    pub fn from_text(text: &str) -> (r: Option<Money>)
        ensures
            opt_amount(r) == decimal_read(text@),
            forall|p: (i128, u32)|
                representable(p) && #[trigger] decimal_text(p) == text@ ==> opt_amount(r) == Some(
                    p,
                ),
    {
        match Decimal::from_text(text) {
            Some(d) => Some(Money(d)),
            None => None,
        }
    }

    /// The amount written out.
    pub fn text(&self) -> (s: String)
        ensures
            s@ == decimal_text(self@),
    {
        self.0.text()
    }
}

proof fn none_stays(amounts: Seq<Money>, i: int)
    requires
        0 <= i <= amounts.len(),
        added_up((0i128, 0u32), amounts.take(i)).is_none(),
    ensures
        added_up((0i128, 0u32), amounts).is_none(),
    decreases amounts.len() - i,
{
    if i < amounts.len() {
        assert(amounts.take(i + 1).drop_last() =~= amounts.take(i));
        none_stays(amounts, i + 1);
    } else {
        assert(amounts.take(i) =~= amounts);
    }
}

/// Display currency. Prices are in USD; the others are presentation.
#[derive(Debug, Clone, Copy, PartialEq, Eq, Structural)]
pub enum Currency {
    Usd,
    Eur,
    Czk,
}

/// A currency's code.
pub open spec fn currency_code(c: Currency) -> Text {
    match c {
        Currency::Usd => "USD"@,
        Currency::Eur => "EUR"@,
        Currency::Czk => "CZK"@,
    }
}

impl Currency {
    pub fn code(self) -> (s: &'static str)
        ensures
            s@ == currency_code(self),
    {
        match self {
            Currency::Usd => "USD",
            Currency::Eur => "EUR",
            Currency::Czk => "CZK",
        }
    }
}

/// The currency that a code names, in either case.
pub open spec fn currency_named(code: Text) -> Option<Currency> {
    let c = code.map_values(|c: char| upper(c));
    if c == "USD"@ {
        Some(Currency::Usd)
    } else if c == "EUR"@ {
        Some(Currency::Eur)
    } else if c == "CZK"@ {
        Some(Currency::Czk)
    } else {
        None
    }
}

/// The currency that a code names, in either case.
pub fn parse_currency(code: &str) -> (r: Option<Currency>)
    ensures
        r == currency_named(code@),
{
    let c = to_upper(code);
    if str_eq(c.as_str(), "USD") {
        Some(Currency::Usd)
    } else if str_eq(c.as_str(), "EUR") {
        Some(Currency::Eur)
    } else if str_eq(c.as_str(), "CZK") {
        Some(Currency::Czk)
    } else {
        None
    }
}

/// A currency's code names that currency, and no other.
pub proof fn law_currency_codes_round_trip(c: Currency)
    ensures
        currency_named(currency_code(c)) == Some(c),
{
    reveal_strlit("USD");
    reveal_strlit("EUR");
    reveal_strlit("CZK");
    let code = currency_code(c);
    assert(code.map_values(|c: char| upper(c)) =~= code);
    assert("USD"@[0] != "EUR"@[0]);
    assert("USD"@[0] != "CZK"@[0]);
    assert("EUR"@[0] != "CZK"@[0]);
}

/// Each currency has its own code, which names it in upper and in lower case;
/// nothing else names a currency.
pub proof fn law_only_codes_name_currencies(code: Text)
    ensures
        currency_code(Currency::Usd) == "USD"@,
        currency_code(Currency::Eur) == "EUR"@,
        currency_code(Currency::Czk) == "CZK"@,
        currency_named(code).is_some() ==> code.len() == 3 && forall|i: int|
            0 <= i < 3 ==> upper(#[trigger] code[i]) == currency_code(
                currency_named(code).unwrap(),
            )[i],
{
    reveal_strlit("USD");
    reveal_strlit("EUR");
    reveal_strlit("CZK");
    let c = code.map_values(|c: char| upper(c));
    assert(c.len() == code.len());
    assert forall|i: int| 0 <= i < code.len() implies upper(#[trigger] code[i]) == c[i] by {}
}

/// Amounts are added one after another, each once.
pub proof fn law_amounts_are_added_once(amounts: Seq<Money>, m: Money)
    ensures
        mantissas(Seq::empty()) == 0,
        mantissas(amounts.push(m)) == mantissas(amounts) + m@.0,
{
    assert(amounts.push(m).drop_last() =~= amounts);
}

} // verus!
