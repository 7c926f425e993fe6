//! Cross-provider usage facts and the total cost of a single request.

use vstd::prelude::*;
use vstd::string::StringSliceAdditionalSpecFns;
use vstd::utf8::encode_utf8;

use crate::text::{
    all_digits, digits_value, is_digit, is_upper, lemma_digits_value_bound, lemma_digits_value_push,
    lemma_nat_digits, lemma_padded_digits, lemma_pow10_monotone, lemma_pow10_positive, nat_digits,
    padded_digits, pow10, string_from_ascii,
};

verus! {

/// Ten decimal places: one unit is `10^-10`.
pub const DECIMAL_SCALE: u128 = 10_000_000_000;

/// Largest scaled value accepted by the `numeric(20, 10)` column.
pub const MAX_SCALED_DECIMAL: u128 = 99_999_999_999_999_999_999;

/// Accounting value-object construction failure.
#[derive(Debug, Clone, Copy, PartialEq, Eq)]
pub enum AccountingError {
    InvalidDecimal,
    InvalidCurrency,
    InvalidCostEstimate { status: &'static str },
}

// ---------------------------------------------------------------------------
// Decimal
// ---------------------------------------------------------------------------

/// Non-negative fixed-point value aligned with PostgreSQL `numeric(20, 10)`,
/// stored as the number of `10^-10` units.
#[derive(Debug, Clone, Copy, PartialEq, Eq, Structural, PartialOrd, Ord, Hash)]
pub struct Decimal(u128);

impl View for Decimal {
    type V = nat;

    closed spec fn view(&self) -> nat {
        self.0 as nat
    }
}

impl Decimal {
    /// Every value fits the `numeric(20, 10)` column.
    #[verifier::type_invariant]
    spec fn in_column_range(&self) -> bool {
        self.0 <= MAX_SCALED_DECIMAL
    }
}

impl Default for Decimal {
    fn default() -> (r: Decimal)
        ensures
            r@ == 0,
    {
        Decimal(0)
    }
}

/// `split` is the single '.' of `s`, with 1..=10 integer digits before it and
/// at most 10 fraction digits after it.
pub open spec fn valid_split(s: Seq<u8>, p: int) -> bool {
    &&& 0 <= p < s.len()
    &&& s[p] == 46
    &&& 1 <= p <= 10
    &&& all_digits(s.subrange(0, p))
    &&& s.len() - p - 1 <= 10
    &&& all_digits(s.subrange(p + 1, s.len() as int))
}

pub open spec fn split_value(s: Seq<u8>, p: int) -> nat {
    digits_value(s.subrange(0, p)) * pow10(10) + digits_value(s.subrange(p + 1, s.len() as int))
        * pow10((10 - (s.len() - p - 1)) as nat)
}

/// Scaled value denoted by the decimal text `s`: `D{1,10}` or `D{1,10}.D{0,10}`.
pub open spec fn decimal_text_value(s: Seq<u8>) -> Option<nat> {
    if 1 <= s.len() <= 10 && all_digits(s) {
        Some(digits_value(s) * pow10(10))
    } else if exists|p: int| valid_split(s, p) {
        Some(split_value(s, choose|p: int| valid_split(s, p)))
    } else {
        None
    }
}

/// Canonical rendering: integer digits, '.', and exactly ten fraction digits.
pub open spec fn render_decimal(v: nat) -> Seq<u8> {
    nat_digits(v / pow10(10)) + seq![46u8] + padded_digits(v % pow10(10), 10)
}

proof fn lemma_pow10_10()
    ensures
        pow10(10) == 10_000_000_000,
{
    reveal_with_fuel(pow10, 11);
}

proof fn lemma_pow10_add(a: nat, b: nat)
    ensures
        pow10(a + b) == pow10(a) * pow10(b),
    decreases a,
{
    if a > 0 {
        let a1 = (a - 1) as nat;
        lemma_pow10_add(a1, b);
        assert(a + b == (a1 + b) + 1);
        assert(pow10(a + b) == 10 * pow10(a1 + b));
        assert(pow10(a) == 10 * pow10(a1));
        let x = pow10(a1);
        let y = pow10(b);
        assert(10 * (x * y) == (10 * x) * y) by (nonlinear_arith);
    } else {
        assert(a + b == b);
        assert(pow10(a) == 1);
    }
}

proof fn lemma_split_unique(s: Seq<u8>, p: int, q: int)
    requires
        valid_split(s, p),
        valid_split(s, q),
    ensures
        p == q,
{
    if p < q {
        assert(s.subrange(p + 1, s.len() as int)[q - p - 1] == s[q]);
    } else if q < p {
        assert(s.subrange(q + 1, s.len() as int)[p - q - 1] == s[p]);
    }
}

proof fn lemma_split_value_bound(s: Seq<u8>, p: int)
    requires
        valid_split(s, p),
    ensures
        split_value(s, p) <= MAX_SCALED_DECIMAL,
{
    let i = s.subrange(0, p);
    let f = s.subrange(p + 1, s.len() as int);
    lemma_digits_value_bound(i);
    lemma_digits_value_bound(f);
    lemma_pow10_monotone(i.len(), 10);
    lemma_pow10_10();
    let fl = f.len();
    let rest = (10 - fl) as nat;
    lemma_pow10_add(fl, rest);
    lemma_pow10_positive(rest);
    let a = digits_value(i);
    let b = digits_value(f);
    assert(a <= 9_999_999_999);
    assert(b * pow10(rest) < pow10(fl) * pow10(rest)) by (nonlinear_arith)
        requires
            b < pow10(fl),
            pow10(rest) >= 1,
    ;
}

pub proof fn lemma_decimal_text_value_bounded(s: Seq<u8>)
    ensures
        decimal_text_value(s) matches Some(v) ==> v <= MAX_SCALED_DECIMAL,
{
    if 1 <= s.len() <= 10 && all_digits(s) {
        lemma_digits_value_bound(s);
        lemma_pow10_monotone(s.len(), 10);
        lemma_pow10_10();
        assert(digits_value(s) <= 9_999_999_999);
    } else if exists|p: int| valid_split(s, p) {
        lemma_split_value_bound(s, choose|p: int| valid_split(s, p));
    }
}

/// Rendering a bounded decimal and parsing it back gives the same value.
pub proof fn lemma_render_parse_roundtrip(v: nat)
    requires
        v <= MAX_SCALED_DECIMAL,
    ensures
        decimal_text_value(render_decimal(v)) == Some(v),
{
    lemma_pow10_10();
    let q = v / pow10(10);
    let r = v % pow10(10);
    lemma_nat_digits(q);
    lemma_padded_digits(r, 10);
    let ip = nat_digits(q);
    let fp = padded_digits(r, 10);
    let s = render_decimal(v);
    assert(q < pow10(10));
    assert(ip.len() <= 10);
    let p = ip.len() as int;
    assert(s.subrange(0, p) =~= ip);
    assert(s.subrange(p + 1, s.len() as int) =~= fp);
    assert(s[p] == 46u8);
    assert(valid_split(s, p));
    assert(!all_digits(s)) by {
        assert(!is_digit(s[p]));
    }
    assert(exists|k: int| valid_split(s, k));
    let c = choose|k: int| valid_split(s, k);
    lemma_split_unique(s, p, c);
    assert(decimal_text_value(s) == Some(split_value(s, c)));
    assert(r % pow10(10) == r);
    assert(pow10(0) == 1);
    assert(s.len() == p + 11);
    assert(digits_value(s.subrange(0, p)) == q);
    assert(digits_value(s.subrange(p + 1, s.len() as int)) == r);
    assert((10 - (s.len() - p - 1)) as nat == 0);
    let e = pow10((10 - (s.len() - p - 1)) as nat);
    assert(e == 1);
    assert(r * e == r) by (nonlinear_arith)
        requires
            e == 1,
    ;
    assert(split_value(s, p) == q * pow10(10) + r);
    assert(v == q * pow10(10) + r);
}

fn pow10_exec(n: u32) -> (r: u128)
    requires
        n <= 10,
    ensures
        r == pow10(n as nat),
    decreases n,
{
    if n == 0 {
        1
    } else {
        let t = pow10_exec(n - 1);
        proof {
            lemma_pow10_monotone((n - 1) as nat, 10);
            lemma_pow10_10();
        }
        10 * t
    }
}

/// Checks that `b[start..end]` are digits and returns their value.
fn digits_in(b: &[u8], start: usize, end: usize) -> (r: Option<u64>)
    requires
        start <= end <= b@.len(),
        end - start <= 10,
    ensures
        all_digits(b@.subrange(start as int, end as int)) ==> r == Some(
            digits_value(b@.subrange(start as int, end as int)) as u64,
        ),
        !all_digits(b@.subrange(start as int, end as int)) ==> r is None,
{
    let mut acc: u64 = 0;
    let mut k: usize = start;
    proof {
        lemma_pow10_10();
        assert(b@.subrange(start as int, start as int) =~= Seq::<u8>::empty());
    }
    while k < end
        invariant
            start <= k <= end,
            end <= b@.len(),
            end - start <= 10,
            pow10(10) == 10_000_000_000,
            all_digits(b@.subrange(start as int, k as int)),
            acc == digits_value(b@.subrange(start as int, k as int)),
        decreases end - k,
    {
        let c = b[k];
        if c < 48 || c > 57 {
            assert(b@.subrange(start as int, end as int)[k - start] == c);
            return None;
        }
        proof {
            let t = b@.subrange(start as int, k as int);
            assert(b@.subrange(start as int, k + 1) =~= t.push(c));
            lemma_digits_value_push(t, c);
            lemma_digits_value_bound(t);
            lemma_pow10_monotone(t.len(), 9);
            reveal_with_fuel(pow10, 10);
            assert(all_digits(t.push(c))) by {
                assert forall|i: int| 0 <= i < t.len() + 1 implies is_digit(
                    #[trigger] t.push(c)[i],
                ) by {
                    if i < t.len() {
                        assert(t.push(c)[i] == t[i]);
                    }
                }
            }
        }
        acc = acc * 10 + (c - 48) as u64;
        k = k + 1;
    }
    Some(acc)
}

fn push_digits(n: u128, out: &mut Vec<u8>)
    ensures
        final(out)@ == old(out)@ + nat_digits(n as nat),
    decreases n,
{
    if n < 10 {
        out.push((48 + n) as u8);
        assert(nat_digits(n as nat) =~= seq![(48 + n) as u8]);
    } else {
        push_digits(n / 10, out);
        out.push((48 + n % 10) as u8);
    }
}

fn push_padded(n: u128, width: u32, out: &mut Vec<u8>)
    ensures
        final(out)@ == old(out)@ + padded_digits(n as nat, width as nat),
    decreases width,
{
    if width == 0 {
        assert(padded_digits(n as nat, 0) =~= Seq::<u8>::empty());
    } else {
        push_padded(n / 10, width - 1, out);
        out.push((48 + n % 10) as u8);
    }
}

impl Decimal {
    /// Creates a value from its scaled integer form.
    pub fn from_scaled(value: u128) -> (r: Result<Decimal, AccountingError>)
        ensures
            value <= MAX_SCALED_DECIMAL ==> (r matches Ok(d) && d@ == value),
            value > MAX_SCALED_DECIMAL ==> r == Err::<Decimal, AccountingError>(
                AccountingError::InvalidDecimal,
            ),
    {
        if value > MAX_SCALED_DECIMAL {
            return Err(AccountingError::InvalidDecimal);
        }
        Ok(Decimal(value))
    }

    /// The zero amount.
    pub fn zero() -> (r: Decimal)
        ensures
            r@ == 0,
    {
        Decimal(0)
    }

    pub fn scaled(self) -> (r: u128)
        ensures
            r == self@,
            r <= MAX_SCALED_DECIMAL,
    {
        proof {
            use_type_invariant(&self);
        }
        self.0
    }

    /// Sum within the `numeric(20, 10)` range, `None` beyond it.
    pub fn checked_add(self, other: Decimal) -> (r: Option<Decimal>)
        ensures
            self@ + other@ <= MAX_SCALED_DECIMAL ==> (r matches Some(d) && d@ == self@ + other@),
            self@ + other@ > MAX_SCALED_DECIMAL ==> r is None,
    {
        match self.0.checked_add(other.0) {
            Some(v) => {
                if v <= MAX_SCALED_DECIMAL {
                    Some(Decimal(v))
                } else {
                    None
                }
            },
            None => None,
        }
    }

    /// Parses `D{1,10}` or `D{1,10}.D{0,10}`; signs, exponents and spaces are refused.
    pub fn parse(value: &str) -> (r: Result<Decimal, AccountingError>)
        ensures
            match decimal_text_value(value.spec_bytes()) {
                Some(v) => r matches Ok(d) && d@ == v,
                None => r == Err::<Decimal, AccountingError>(AccountingError::InvalidDecimal),
            },
    {
        let b = value.as_bytes();
        let n = b.len();
        let ghost s = b@;
        proof {
            lemma_pow10_10();
            lemma_decimal_text_value_bounded(s);
        }
        let mut i: usize = 0;
        while i < n && b[i] != 46
            invariant
                i <= n,
                n == b@.len(),
                forall|j: int| 0 <= j < i ==> b@[j] != 46,
            decreases n - i,
        {
            i = i + 1;
        }
        if i == n {
            // No '.': the whole text is the integer part.
            if n == 0 || n > 10 {
                proof {
                    assert forall|p: int| !valid_split(s, p) by {}
                }
                return Err(AccountingError::InvalidDecimal);
            }
            assert(s.subrange(0, n as int) =~= s);
            match digits_in(b, 0, n) {
                Some(v) => {
                    proof {
                        lemma_digits_value_bound(s);
                        lemma_pow10_monotone(n as nat, 10);
                    }
                    let scaled = v as u128 * DECIMAL_SCALE;
                    return Decimal::from_scaled(scaled);
                },
                None => {
                    proof {
                        assert forall|p: int| !valid_split(s, p) by {}
                    }
                    return Err(AccountingError::InvalidDecimal);
                },
            }
        }
        // The first '.' is at `i`.
        proof {
            assert(!all_digits(s)) by {
                assert(!is_digit(s[i as int]));
            }
            assert forall|q: int| valid_split(s, q) implies q == i by {
                if q < i {
                    assert(s[q] != 46);
                } else if q > i {
                    assert(s.subrange(0, q)[i as int] == s[i as int]);
                }
            }
        }
        if i == 0 || i > 10 || n - i - 1 > 10 {
            return Err(AccountingError::InvalidDecimal);
        }
        let int_part = digits_in(b, 0, i);
        let frac_part = digits_in(b, i + 1, n);
        match (int_part, frac_part) {
            (Some(iv), Some(fv)) => {
                assert(valid_split(s, i as int));
                let flen = (n - i - 1) as u32;
                let p = pow10_exec(10 - flen);
                proof {
                    lemma_split_value_bound(s, i as int);
                    let c = choose|k: int| valid_split(s, k);
                    assert(c == i);
                    lemma_pow10_positive((10 - flen) as nat);
                    assert(flen as int == s.len() - i - 1);
                    lemma_digits_value_bound(s.subrange(0, i as int));
                    lemma_digits_value_bound(s.subrange(i + 1, s.len() as int));
                    lemma_pow10_monotone((s.len() - i - 1) as nat, 10);
                    lemma_pow10_monotone(i as nat, 10);
                    assert(iv == digits_value(s.subrange(0, i as int)));
                    assert(fv == digits_value(s.subrange(i + 1, s.len() as int)));
                    assert(p == pow10((10 - (s.len() - i - 1)) as nat));
                    assert(iv as u128 * DECIMAL_SCALE + fv as u128 * p == split_value(s, i as int));
                }
                let scaled = iv as u128 * DECIMAL_SCALE + fv as u128 * p;
                Decimal::from_scaled(scaled)
            },
            _ => Err(AccountingError::InvalidDecimal),
        }
    }

    /// Canonical text: integer digits, '.', and exactly ten fraction digits.
    /// Parsing the canonical text gives the same value back, for every
    /// decimal.
    pub fn canonical(self) -> (r: String)
        ensures
            r@.len() == render_decimal(self@).len(),
            forall|i: int| 0 <= i < r@.len() ==> r@[i] as u32 == render_decimal(self@)[i] as u32,
            encode_utf8(r@) == render_decimal(self@),
            decimal_text_value(encode_utf8(r@)) == Some(self@),
    {
        let mut out: Vec<u8> = Vec::new();
        proof {
            use_type_invariant(&self);
            lemma_pow10_10();
            lemma_render_parse_roundtrip(self@);
        }
        push_digits(self.0 / DECIMAL_SCALE, &mut out);
        out.push(46u8);
        push_padded(self.0 % DECIMAL_SCALE, 10, &mut out);
        proof {
            lemma_nat_digits(self@ / pow10(10));
            lemma_padded_digits(self@ % pow10(10), 10);
            assert(out@ =~= render_decimal(self@));
            assert forall|i: int| 0 <= i < out@.len() implies out@[i] < 128 by {
                let ip = nat_digits(self@ / pow10(10));
                if i < ip.len() {
                    assert(out@[i] == ip[i]);
                    assert(is_digit(ip[i]));
                } else if i > ip.len() {
                    assert(out@[i] == padded_digits(self@ % pow10(10), 10)[i - ip.len() - 1]);
                    assert(is_digit(padded_digits(self@ % pow10(10), 10)[i - ip.len() - 1]));
                }
            }
        }
        let r = string_from_ascii(out);
        proof {
            assert(vstd::utf8::is_ascii_chars(r@)) by {
                assert forall|i: int| 0 <= i < r@.len() implies '\0' <= #[trigger] r@[i] <= '\u{7f}' by {
                    assert(r@[i] == out@[i] as char);
                }
            }
            vstd::utf8::is_ascii_chars_encode_utf8(r@);
            assert(encode_utf8(r@) =~= render_decimal(self@));
        }
        r
    }
}

impl std::str::FromStr for Decimal {
    type Err = AccountingError;

    fn from_str(value: &str) -> Result<Decimal, AccountingError> {
        Decimal::parse(value)
    }
}

// ---------------------------------------------------------------------------
// Currency and money
// ---------------------------------------------------------------------------

/// Three upper-case ASCII letters.
#[derive(Debug, Clone, Copy, PartialEq, Eq, PartialOrd, Ord, Hash)]
pub struct CurrencyCode([u8; 3]);

impl View for CurrencyCode {
    type V = Seq<u8>;

    closed spec fn view(&self) -> Seq<u8> {
        self.0@
    }
}

/// The bytes of a valid currency code.
pub open spec fn valid_currency(s: Seq<u8>) -> bool {
    s.len() == 3 && forall|i: int| 0 <= i < 3 ==> is_upper(#[trigger] s[i])
}

/// The US dollar code.
pub open spec fn usd_bytes() -> Seq<u8> {
    seq![85u8, 83u8, 68u8]
}

#[verifier::external_body]
fn ascii_str(bytes: &[u8]) -> (s: &str)
    requires
        forall|i: int| 0 <= i < bytes@.len() ==> bytes@[i] < 128,
    ensures
        s.spec_bytes() == bytes@,
{
    std::str::from_utf8(bytes).unwrap_or_default()
}

impl CurrencyCode {
    /// Every code is three upper-case ASCII letters.
    #[verifier::type_invariant]
    spec fn well_formed(&self) -> bool {
        valid_currency(self.0@)
    }

    /// Accepts exactly three upper-case ASCII letters.
    pub fn new(value: &str) -> (r: Result<CurrencyCode, AccountingError>)
        ensures
            valid_currency(value.spec_bytes()) ==> (r matches Ok(c) && c@ == value.spec_bytes()),
            !valid_currency(value.spec_bytes()) ==> r == Err::<CurrencyCode, AccountingError>(
                AccountingError::InvalidCurrency,
            ),
    {
        let b = value.as_bytes();
        if b.len() != 3 {
            return Err(AccountingError::InvalidCurrency);
        }
        let mut i: usize = 0;
        while i < 3
            invariant
                i <= 3,
                b@.len() == 3,
                b@ == value.spec_bytes(),
                forall|j: int| 0 <= j < i ==> is_upper(#[trigger] b@[j]),
            decreases 3 - i,
        {
            if b[i] < 65 || b[i] > 90 {
                assert(!is_upper(b@[i as int]));
                return Err(AccountingError::InvalidCurrency);
            }
            i = i + 1;
        }
        let bytes = [b[0], b[1], b[2]];
        assert(bytes@ =~= b@);
        let code = CurrencyCode(bytes);
        Ok(code)
    }

    pub fn usd() -> (r: CurrencyCode)
        ensures
            r@ == usd_bytes(),
    {
        let bytes = [85u8, 83u8, 68u8];
        assert(bytes@ =~= usd_bytes());
        let code = CurrencyCode(bytes);
        code
    }

    /// The code as text.
    pub fn as_str(&self) -> (r: &str)
        ensures
            r.spec_bytes() == self@,
            valid_currency(self@),
    {
        proof {
            use_type_invariant(self);
        }
        ascii_str(self.0.as_slice())
    }

    pub fn same_as(&self, other: &CurrencyCode) -> (r: bool)
        ensures
            r == (self@ == other@),
    {
        let r = self.0[0] == other.0[0] && self.0[1] == other.0[1] && self.0[2] == other.0[2];
        if r {
            assert(self@ =~= other@);
        } else {
            assert(self@ != other@) by {
                if self.0[0] != other.0[0] {
                    assert(self@[0] != other@[0]);
                } else if self.0[1] != other.0[1] {
                    assert(self@[1] != other@[1]);
                } else {
                    assert(self@[2] != other@[2]);
                }
            }
        }
        r
    }
}

/// A non-negative total together with its currency.
#[derive(Debug, Clone, Copy, PartialEq, Eq, Hash)]
pub struct Money {
    amount: Decimal,
    currency: CurrencyCode,
}

impl Money {
    pub closed spec fn spec_amount(self) -> Decimal {
        self.amount
    }

    pub closed spec fn spec_currency(self) -> CurrencyCode {
        self.currency
    }

    pub fn new(amount: Decimal, currency: CurrencyCode) -> (r: Money)
        ensures
            r.spec_amount() == amount,
            r.spec_currency() == currency,
    {
        Money { amount, currency }
    }

    pub fn amount(self) -> (r: Decimal)
        ensures
            r == self.spec_amount(),
    {
        self.amount
    }

    pub fn currency(self) -> (r: CurrencyCode)
        ensures
            r == self.spec_currency(),
    {
        self.currency
    }

    /// Sum of two amounts in the same currency; `None` across currencies or out of range.
    pub fn checked_add(self, other: Money) -> (r: Option<Money>)
        ensures
            self.spec_currency()@ != other.spec_currency()@ ==> r is None,
            self.spec_currency()@ == other.spec_currency()@ && self.spec_amount()@
                + other.spec_amount()@ <= MAX_SCALED_DECIMAL ==> (r matches Some(m) && m.spec_amount()@
                == self.spec_amount()@ + other.spec_amount()@ && m.spec_currency()
                == self.spec_currency()),
            self.spec_amount()@ + other.spec_amount()@ > MAX_SCALED_DECIMAL ==> r is None,
    {
        if !self.currency.same_as(&other.currency) {
            return None;
        }
        match self.amount.checked_add(other.amount) {
            Some(amount) => Some(Money::new(amount, self.currency)),
            None => None,
        }
    }
}

// ---------------------------------------------------------------------------
// Usage
// ---------------------------------------------------------------------------

/// The six public token facts of a model request.
#[derive(Debug, Clone, PartialEq, Eq, Structural)]
pub struct Usage {
    pub input_tokens: Option<u64>,
    pub output_tokens: Option<u64>,
    pub cached_tokens: Option<u64>,
    pub cache_write_tokens: Option<u64>,
    pub reasoning_tokens: Option<u64>,
    /// Reported by the provider on its own; never derived from the other fields.
    pub total_tokens: Option<u64>,
}

/// A field merged from a newer observation: the newer value when present.
pub open spec fn newer_or(old: Option<u64>, newer: Option<u64>) -> Option<u64> {
    if newer is Some {
        newer
    } else {
        old
    }
}

/// `old` merged with `newer`, field by field.
pub open spec fn merged_usage(old: Usage, newer: Usage) -> Usage {
    Usage {
        input_tokens: newer_or(old.input_tokens, newer.input_tokens),
        output_tokens: newer_or(old.output_tokens, newer.output_tokens),
        cached_tokens: newer_or(old.cached_tokens, newer.cached_tokens),
        cache_write_tokens: newer_or(old.cache_write_tokens, newer.cache_write_tokens),
        reasoning_tokens: newer_or(old.reasoning_tokens, newer.reasoning_tokens),
        total_tokens: newer_or(old.total_tokens, newer.total_tokens),
    }
}

pub open spec fn empty_usage() -> Usage {
    Usage {
        input_tokens: None,
        output_tokens: None,
        cached_tokens: None,
        cache_write_tokens: None,
        reasoning_tokens: None,
        total_tokens: None,
    }
}

impl Default for Usage {
    fn default() -> (r: Usage)
        ensures
            r == empty_usage(),
    {
        Usage::new()
    }
}

impl Usage {
    pub fn new() -> (r: Usage)
        ensures
            r == empty_usage(),
    {
        Usage {
            input_tokens: None,
            output_tokens: None,
            cached_tokens: None,
            cache_write_tokens: None,
            reasoning_tokens: None,
            total_tokens: None,
        }
    }

    /// Merges incremental observations of the same final upstream result;
    /// each field takes the newer non-empty value.
    pub fn merge(&mut self, newer: &Usage)
        ensures
            *final(self) == merged_usage(*old(self), *newer),
    {
        if newer.input_tokens.is_some() {
            self.input_tokens = newer.input_tokens;
        }
        if newer.output_tokens.is_some() {
            self.output_tokens = newer.output_tokens;
        }
        if newer.cached_tokens.is_some() {
            self.cached_tokens = newer.cached_tokens;
        }
        if newer.cache_write_tokens.is_some() {
            self.cache_write_tokens = newer.cache_write_tokens;
        }
        if newer.reasoning_tokens.is_some() {
            self.reasoning_tokens = newer.reasoning_tokens;
        }
        if newer.total_tokens.is_some() {
            self.total_tokens = newer.total_tokens;
        }
    }
}

/// Merging an empty observation changes nothing, and merging the same
/// observation twice is the same as merging it once.
pub proof fn lemma_usage_merge_laws(u: Usage, n: Usage)
    ensures
        merged_usage(u, empty_usage()) == u,
        merged_usage(empty_usage(), n) == n,
        merged_usage(merged_usage(u, n), n) == merged_usage(u, n),
{
}

/// Merging is associative: folding two newer observations one by one equals
/// merging their own merge.
pub proof fn lemma_usage_merge_associative(a: Usage, b: Usage, c: Usage)
    ensures
        merged_usage(merged_usage(a, b), c) == merged_usage(a, merged_usage(b, c)),
{
}

// ---------------------------------------------------------------------------
// Cost estimate
// ---------------------------------------------------------------------------

/// Where a cost amount comes from.
#[derive(Debug, Clone, Copy, PartialEq, Eq, Structural, Hash)]
pub enum CostSource {
    ProviderReported,
    Calculated,
    Unavailable,
}

impl CostSource {
    pub open spec fn spec_name(self) -> Seq<char> {
        match self {
            CostSource::ProviderReported => "provider_reported"@,
            CostSource::Calculated => "calculated"@,
            CostSource::Unavailable => "unavailable"@,
        }
    }

    pub fn as_str(self) -> (r: &'static str)
        ensures
            r@ == self.spec_name(),
    {
        match self {
            CostSource::ProviderReported => "provider_reported",
            CostSource::Calculated => "calculated",
            CostSource::Unavailable => "unavailable",
        }
    }
}

/// How far the total cost of a request can be trusted.
#[derive(Debug, Clone, Copy, PartialEq, Eq, Structural, Hash)]
pub enum CostEstimateStatus {
    Known,
    Partial,
    Unknown,
}

impl CostEstimateStatus {
    pub open spec fn spec_name(self) -> Seq<char> {
        match self {
            CostEstimateStatus::Known => "known"@,
            CostEstimateStatus::Partial => "partial"@,
            CostEstimateStatus::Unknown => "unknown"@,
        }
    }

    pub fn as_str(self) -> (r: &'static str)
        ensures
            r@ == self.spec_name(),
    {
        match self {
            CostEstimateStatus::Known => "known",
            CostEstimateStatus::Partial => "partial",
            CostEstimateStatus::Unknown => "unknown",
        }
    }
}

/// Total cost of one model request; neither price version nor breakdown.
#[derive(Debug, Clone, PartialEq, Eq)]
pub struct CostEstimate {
    status: CostEstimateStatus,
    source: CostSource,
    total: Option<Money>,
}

/// The total billed amount a provider reports at the end of a request.
#[derive(Debug, Clone, Copy, PartialEq, Eq, Hash)]
pub struct ProviderReportedCost {
    total: Money,
}

/// A total computed from public unit prices and actual usage.
#[derive(Debug, Clone, Copy, PartialEq, Eq, Hash)]
pub struct CalculatedCost {
    total: Money,
}

impl CostEstimate {
    pub closed spec fn spec_status(&self) -> CostEstimateStatus {
        self.status
    }

    pub closed spec fn spec_source(&self) -> CostSource {
        self.source
    }

    pub closed spec fn spec_total(&self) -> Option<Money> {
        self.total
    }

    /// No amount could be determined.
    pub fn unavailable() -> (r: CostEstimate)
        ensures
            r.spec_status() == CostEstimateStatus::Unknown,
            r.spec_source() == CostSource::Unavailable,
            r.spec_total() is None,
    {
        CostEstimate { status: CostEstimateStatus::Unknown, source: CostSource::Unavailable, total: None }
    }

    /// A known or partial result with an amount; `Unavailable` cannot carry an
    /// amount and `Unknown` cannot pose as a trusted one.
    pub fn priced(status: CostEstimateStatus, source: CostSource, total: Money) -> (r: Result<
        CostEstimate,
        AccountingError,
    >)
        ensures
            (source == CostSource::Unavailable || status == CostEstimateStatus::Unknown) ==> (
            r matches Err(AccountingError::InvalidCostEstimate { status: s }) && s@
                == status.spec_name()),
            !(source == CostSource::Unavailable || status == CostEstimateStatus::Unknown) ==> (
            r matches Ok(e) && e.spec_status() == status && e.spec_source() == source
                && e.spec_total() == Some(total)),
    {
        if source == CostSource::Unavailable || status == CostEstimateStatus::Unknown {
            return Err(AccountingError::InvalidCostEstimate { status: status.as_str() });
        }
        Ok(CostEstimate { status, source, total: Some(total) })
    }

    pub fn status(&self) -> (r: CostEstimateStatus)
        ensures
            r == self.spec_status(),
    {
        self.status
    }

    pub fn source(&self) -> (r: CostSource)
        ensures
            r == self.spec_source(),
    {
        self.source
    }

    pub fn total(&self) -> (r: Option<Money>)
        ensures
            r == self.spec_total(),
    {
        self.total
    }
}

impl ProviderReportedCost {
    pub closed spec fn spec_total(self) -> Money {
        self.total
    }

    /// USD ticks as xAI and others report them; one USD is `10^10` ticks.
    pub fn from_usd_ticks(ticks: u128) -> (r: Result<ProviderReportedCost, AccountingError>)
        ensures
            ticks <= MAX_SCALED_DECIMAL ==> (r matches Ok(c) && c.spec_total().spec_amount()@
                == ticks && c.spec_total().spec_currency()@ == usd_bytes()),
            ticks > MAX_SCALED_DECIMAL ==> r == Err::<ProviderReportedCost, AccountingError>(
                AccountingError::InvalidDecimal,
            ),
    {
        let amount = Decimal::from_scaled(ticks)?;
        Ok(ProviderReportedCost { total: Money::new(amount, CurrencyCode::usd()) })
    }

    pub fn total(self) -> (r: Money)
        ensures
            r == self.spec_total(),
    {
        self.total
    }

    pub fn into_estimate(self) -> (r: CostEstimate)
        ensures
            r.spec_status() == CostEstimateStatus::Known,
            r.spec_source() == CostSource::ProviderReported,
            r.spec_total() == Some(self.spec_total()),
    {
        CostEstimate {
            status: CostEstimateStatus::Known,
            source: CostSource::ProviderReported,
            total: Some(self.total),
        }
    }
}

impl CalculatedCost {
    pub closed spec fn spec_total(self) -> Money {
        self.total
    }

    /// Exact USD ticks computed locally; one USD is `10^10` ticks.
    pub fn from_usd_ticks(ticks: u128) -> (r: Result<CalculatedCost, AccountingError>)
        ensures
            ticks <= MAX_SCALED_DECIMAL ==> (r matches Ok(c) && c.spec_total().spec_amount()@
                == ticks && c.spec_total().spec_currency()@ == usd_bytes()),
            ticks > MAX_SCALED_DECIMAL ==> r == Err::<CalculatedCost, AccountingError>(
                AccountingError::InvalidDecimal,
            ),
    {
        let amount = Decimal::from_scaled(ticks)?;
        Ok(CalculatedCost { total: Money::new(amount, CurrencyCode::usd()) })
    }

    pub fn total(self) -> (r: Money)
        ensures
            r == self.spec_total(),
    {
        self.total
    }

    pub fn into_estimate(self) -> (r: CostEstimate)
        ensures
            r.spec_status() == CostEstimateStatus::Known,
            r.spec_source() == CostSource::Calculated,
            r.spec_total() == Some(self.spec_total()),
    {
        CostEstimate { status: CostEstimateStatus::Known, source: CostSource::Calculated, total: Some(self.total) }
    }
}

/// The cost components of one request, all in one currency.
#[derive(Debug, Clone, Copy, PartialEq, Eq)]
pub struct CalculatedCostAmounts {
    pub input: Money,
    pub output: Money,
    pub cache_read: Money,
    pub cache_write: Money,
    pub standard: Money,
    pub total: Money,
}

impl CalculatedCostAmounts {
    pub fn new(
        input: Money,
        output: Money,
        cache_read: Money,
        cache_write: Money,
        standard: Money,
        total: Money,
    ) -> (r: CalculatedCostAmounts)
        ensures
            r == (CalculatedCostAmounts { input, output, cache_read, cache_write, standard, total }),
    {
        CalculatedCostAmounts { input, output, cache_read, cache_write, standard, total }
    }
}

/// Per-million-token rates, all in one currency.
#[derive(Debug, Clone, Copy, PartialEq, Eq)]
pub struct CalculatedCostRates {
    pub input: Money,
    pub output: Money,
    pub cache_read: Money,
    pub cache_write: Money,
}

impl CalculatedCostRates {
    pub fn new(input: Money, output: Money, cache_read: Money, cache_write: Money) -> (r:
        CalculatedCostRates)
        ensures
            r == (CalculatedCostRates { input, output, cache_read, cache_write }),
    {
        CalculatedCostRates { input, output, cache_read, cache_write }
    }
}

/// Runtime breakdown of a controlled price rule, for events and admin views.
#[derive(Debug, Clone, PartialEq, Eq)]
pub struct CalculatedCostBreakdown {
    amounts: CalculatedCostAmounts,
    rates: CalculatedCostRates,
    service_tier: Option<String>,
    multiplier_percent: u32,
}

impl CalculatedCostBreakdown {
    pub closed spec fn spec_amounts(&self) -> CalculatedCostAmounts {
        self.amounts
    }

    pub closed spec fn spec_rates(&self) -> CalculatedCostRates {
        self.rates
    }

    pub closed spec fn spec_service_tier(&self) -> Option<String> {
        self.service_tier
    }

    pub closed spec fn spec_multiplier_percent(&self) -> u32 {
        self.multiplier_percent
    }

    pub fn new(
        amounts: CalculatedCostAmounts,
        rates: CalculatedCostRates,
        service_tier: Option<String>,
        multiplier_percent: u32,
    ) -> (r: CalculatedCostBreakdown)
        ensures
            r.spec_amounts() == amounts,
            r.spec_rates() == rates,
            r.spec_service_tier() == service_tier,
            r.spec_multiplier_percent() == multiplier_percent,
    {
        CalculatedCostBreakdown { amounts, rates, service_tier, multiplier_percent }
    }

    pub fn input_amount(&self) -> (r: Money)
        ensures
            r == self.spec_amounts().input,
    {
        self.amounts.input
    }

    pub fn output_amount(&self) -> (r: Money)
        ensures
            r == self.spec_amounts().output,
    {
        self.amounts.output
    }

    pub fn cache_read_amount(&self) -> (r: Money)
        ensures
            r == self.spec_amounts().cache_read,
    {
        self.amounts.cache_read
    }

    pub fn cache_write_amount(&self) -> (r: Money)
        ensures
            r == self.spec_amounts().cache_write,
    {
        self.amounts.cache_write
    }

    pub fn standard_amount(&self) -> (r: Money)
        ensures
            r == self.spec_amounts().standard,
    {
        self.amounts.standard
    }

    pub fn total_amount(&self) -> (r: Money)
        ensures
            r == self.spec_amounts().total,
    {
        self.amounts.total
    }

    pub fn input_price_per_million(&self) -> (r: Money)
        ensures
            r == self.spec_rates().input,
    {
        self.rates.input
    }

    pub fn output_price_per_million(&self) -> (r: Money)
        ensures
            r == self.spec_rates().output,
    {
        self.rates.output
    }

    pub fn cache_read_price_per_million(&self) -> (r: Money)
        ensures
            r == self.spec_rates().cache_read,
    {
        self.rates.cache_read
    }

    pub fn cache_write_price_per_million(&self) -> (r: Money)
        ensures
            r == self.spec_rates().cache_write,
    {
        self.rates.cache_write
    }

    pub fn service_tier(&self) -> (r: Option<&str>)
        ensures
            r is Some == self.spec_service_tier() is Some,
            r is Some ==> r->0@ == self.spec_service_tier()->0@,
    {
        match &self.service_tier {
            Some(tier) => Some(tier.as_str()),
            None => None,
        }
    }

    pub fn multiplier_percent(&self) -> (r: u32)
        ensures
            r == self.spec_multiplier_percent(),
    {
        self.multiplier_percent
    }

    pub fn calculated_cost(&self) -> (r: CalculatedCost)
        ensures
            r.spec_total() == self.spec_amounts().total,
    {
        CalculatedCost { total: self.amounts.total }
    }
}

} // verus!
