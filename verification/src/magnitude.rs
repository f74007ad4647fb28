use vstd::prelude::*;
use crate::decimal::{lemma_pow10_step, pow10, Amount};

verus! {

/// The number that a list of decimal digits stands for, least significant
/// digit first.
pub open spec fn mag(d: Seq<u8>) -> nat
    decreases d.len(),
{
    if d.len() == 0 {
        0
    } else {
        mag(d.drop_last()) + (d.last() as nat) * pow10((d.len() - 1) as nat)
    }
}

/// Every item is a decimal digit.
pub open spec fn is_decimal(d: Seq<u8>) -> bool {
    forall|i: int| 0 <= i < d.len() ==> #[trigger] d[i] < 10
}

/// The digit of `d` at place `i`; beyond the end there are zeros.
pub open spec fn digit_at(d: Seq<u8>, i: int) -> nat {
    if 0 <= i < d.len() {
        d[i] as nat
    } else {
        0
    }
}

/// The first `i` digits of `d`, or all of them where it has fewer.
pub open spec fn low_digits(d: Seq<u8>, i: int) -> Seq<u8> {
    if i < d.len() {
        d.take(i)
    } else {
        d
    }
}

/// How a whole number stands to zero.
#[derive(Debug, Clone, Copy, PartialEq, Eq)]
pub enum Sign {
    Negative,
    Zero,
    Positive,
}

/// How `x` stands to zero.
pub open spec fn sign_of(x: int) -> Sign {
    if x < 0 {
        Sign::Negative
    } else if x == 0 {
        Sign::Zero
    } else {
        Sign::Positive
    }
}

/// A digit more at the high end adds its value at that place.
pub proof fn lemma_mag_push(d: Seq<u8>, x: u8)
    ensures
        mag(d.push(x)) == mag(d) + x * pow10(d.len()),
{
    assert(d.push(x).drop_last() =~= d);
}

/// A number of `n` decimal digits is below ten to the power `n`.
pub proof fn lemma_mag_bound(d: Seq<u8>)
    requires
        is_decimal(d),
    ensures
        mag(d) < pow10(d.len()),
    decreases d.len(),
{
    if d.len() > 0 {
        let front = d.drop_last();
        assert(is_decimal(front)) by {
            assert forall|i: int| 0 <= i < front.len() implies #[trigger] front[i] < 10 by {
                assert(front[i] == d[i]);
            }
        }
        lemma_mag_bound(front);
        lemma_pow10_step(front.len());
        let p = pow10(front.len()) as int;
        let x = d.last() as int;
        assert(x < 10);
        assert(x * p <= 9 * p) by (nonlinear_arith)
            requires
                0 <= x <= 9,
                p >= 0,
        ;
    }
}

/// Taking one digit more of `d` adds the digit at that place.
pub proof fn lemma_low_digits_step(d: Seq<u8>, i: int)
    requires
        0 <= i,
    ensures
        mag(low_digits(d, i + 1)) == mag(low_digits(d, i)) + digit_at(d, i) * pow10(i as nat),
{
    if i < d.len() {
        assert(low_digits(d, i + 1) =~= d.take(i).push(d[i]));
        lemma_mag_push(d.take(i), d[i]);
    } else {
        assert(0 * pow10(i as nat) == 0) by (nonlinear_arith);
    }
}

/// Of two numbers with as many digits, the one with the smaller digit at
/// the highest place where they differ is the smaller one.
pub proof fn lemma_high_digit_decides(a: Seq<u8>, b: Seq<u8>, i: int)
    requires
        a.len() == b.len(),
        is_decimal(a),
        is_decimal(b),
        0 <= i < a.len(),
        a[i] < b[i],
        forall|j: int| i < j < a.len() ==> a[j] == b[j],
    ensures
        mag(a) < mag(b),
    decreases a.len(),
{
    let n = a.len();
    let p = pow10((n - 1) as nat) as int;
    let fa = a.drop_last();
    let fb = b.drop_last();
    assert(is_decimal(fa)) by {
        assert forall|k: int| 0 <= k < fa.len() implies #[trigger] fa[k] < 10 by {
            assert(fa[k] == a[k]);
        }
    }
    assert(is_decimal(fb)) by {
        assert forall|k: int| 0 <= k < fb.len() implies #[trigger] fb[k] < 10 by {
            assert(fb[k] == b[k]);
        }
    }
    if i == n - 1 {
        lemma_mag_bound(fa);
        let x = a[i] as int;
        let y = b[i] as int;
        assert(x * p + p <= y * p) by (nonlinear_arith)
            requires
                x + 1 <= y,
                p >= 0,
        ;
    } else {
        assert(a.last() == b.last());
        lemma_high_digit_decides(fa, fb, i);
    }
}

/// The sum of two numbers, digit by digit. The digits of the sum are
/// decimal whatever the items of `a` and `b` are.
pub fn add_mag(a: &Vec<u8>, b: &Vec<u8>) -> (r: Vec<u8>)
    ensures
        mag(r@) == mag(a@) + mag(b@),
        is_decimal(r@),
{
    let n: usize = if a.len() > b.len() {
        a.len()
    } else {
        b.len()
    };
    let mut r: Vec<u8> = Vec::new();
    let mut carry: u32 = 0;
    let mut i: usize = 0;
    proof {
        assert(low_digits(a@, 0) =~= Seq::<u8>::empty());
        assert(low_digits(b@, 0) =~= Seq::<u8>::empty());
        assert(0 * pow10(0) == 0) by (nonlinear_arith);
    }
    while i < n
        invariant
            i <= n,
            n >= a.len(),
            n >= b.len(),
            r.len() == i,
            is_decimal(r@),
            carry <= 60,
            mag(r@) + carry * pow10(i as nat) == mag(low_digits(a@, i as int)) + mag(
                low_digits(b@, i as int),
            ),
        decreases n - i,
    {
        let x: u32 = if i < a.len() {
            a[i] as u32
        } else {
            0
        };
        let y: u32 = if i < b.len() {
            b[i] as u32
        } else {
            0
        };
        let t: u32 = x + y + carry;
        let low: u8 = (t % 10) as u8;
        proof {
            lemma_low_digits_step(a@, i as int);
            lemma_low_digits_step(b@, i as int);
            lemma_mag_push(r@, low);
            lemma_pow10_step(i as nat);
            let p = pow10(i as nat) as int;
            let q = (t / 10) as int;
            let l = low as int;
            let ti = t as int;
            let xi = x as int;
            let yi = y as int;
            let ci = carry as int;
            assert(l * p + q * (10 * p) == xi * p + yi * p + ci * p) by (nonlinear_arith)
                requires
                    l + 10 * q == ti,
                    ti == xi + yi + ci,
            ;
        }
        r.push(low);
        carry = t / 10;
        i += 1;
    }
    proof {
        assert(low_digits(a@, i as int) == a@);
        assert(low_digits(b@, i as int) == b@);
    }
    while carry > 0
        invariant
            is_decimal(r@),
            mag(r@) + carry * pow10(r@.len()) == mag(a@) + mag(b@),
        decreases carry,
    {
        let low: u8 = (carry % 10) as u8;
        proof {
            lemma_mag_push(r@, low);
            lemma_pow10_step(r@.len());
            let p = pow10(r@.len()) as int;
            let q = (carry / 10) as int;
            let l = low as int;
            let ci = carry as int;
            assert(l * p + q * (10 * p) == ci * p) by (nonlinear_arith)
                requires
                    l + 10 * q == ci,
            ;
        }
        r.push(low);
        carry = carry / 10;
    }
    proof {
        assert(0 * pow10(r@.len()) == 0) by (nonlinear_arith);
    }
    r
}

/// Lengthens a number to `n` digits with zeros at the high end.
fn pad(d: Vec<u8>, n: usize) -> (r: Vec<u8>)
    requires
        is_decimal(d@),
    ensures
        mag(r@) == mag(d@),
        is_decimal(r@),
        r.len() == (if d.len() > n {
            d.len()
        } else {
            n
        }),
{
    let mut r = d;
    while r.len() < n
        invariant
            mag(r@) == mag(d@),
            is_decimal(r@),
            r.len() >= d.len(),
            r.len() <= n || r.len() == d.len(),
        decreases n - r.len(),
    {
        proof {
            lemma_mag_push(r@, 0);
            assert(0 * pow10(r@.len()) == 0) by (nonlinear_arith);
        }
        r.push(0);
    }
    r
}

/// How the difference of two numbers with as many digits stands to zero.
fn order_mag(a: &Vec<u8>, b: &Vec<u8>) -> (r: Sign)
    requires
        a.len() == b.len(),
        is_decimal(a@),
        is_decimal(b@),
    ensures
        r == sign_of(mag(a@) - mag(b@)),
{
    let mut i: usize = a.len();
    while i > 0
        invariant
            i <= a.len(),
            a.len() == b.len(),
            is_decimal(a@),
            is_decimal(b@),
            forall|j: int| i <= j < a.len() ==> a@[j] == b@[j],
        decreases i,
    {
        i -= 1;
        if a[i] < b[i] {
            proof {
                lemma_high_digit_decides(a@, b@, i as int);
            }
            return Sign::Negative;
        }
        if a[i] > b[i] {
            proof {
                lemma_high_digit_decides(b@, a@, i as int);
            }
            return Sign::Positive;
        }
    }
    proof {
        assert(a@ =~= b@);
    }
    Sign::Zero
}

/// The digits of an amount's size in units.
pub fn expand(x: Amount) -> (r: Vec<u8>)
    ensures
        mag(r@) == x.mantissa * pow10(x.shift as nat),
        is_decimal(r@),
{
    let mut r: Vec<u8> = Vec::new();
    let mut i: u16 = 0;
    while i < x.shift
        invariant
            i <= x.shift,
            r.len() == i,
            mag(r@) == 0,
            is_decimal(r@),
        decreases x.shift - i,
    {
        proof {
            lemma_mag_push(r@, 0);
            assert(0 * pow10(r@.len()) == 0) by (nonlinear_arith);
        }
        r.push(0);
        i += 1;
    }
    let mut m: u128 = x.mantissa;
    while m > 0
        invariant
            is_decimal(r@),
            mag(r@) + m * pow10(r@.len()) == x.mantissa * pow10(x.shift as nat),
        decreases m,
    {
        let low: u8 = (m % 10) as u8;
        proof {
            lemma_mag_push(r@, low);
            lemma_pow10_step(r@.len());
            let p = pow10(r@.len()) as int;
            let q = (m / 10) as int;
            let l = low as int;
            let mi = m as int;
            assert(l * p + q * (10 * p) == mi * p) by (nonlinear_arith)
                requires
                    l + 10 * q == mi,
            ;
        }
        r.push(low);
        m = m / 10;
    }
    proof {
        assert(0 * pow10(r@.len()) == 0) by (nonlinear_arith);
    }
    r
}

/// Two running sums, kept apart so that neither ever has to go below
/// zero: together they stand for `gained` less `lost`.
struct Ledger {
    gained: Vec<u8>,
    lost: Vec<u8>,
}

impl Ledger {
    /// What the ledger stands for.
    spec fn total(self) -> int {
        mag(self.gained@) - mag(self.lost@)
    }

    /// Both sums are held in decimal digits.
    spec fn wf(self) -> bool {
        is_decimal(self.gained@) && is_decimal(self.lost@)
    }

    /// A ledger that stands for nothing.
    fn new() -> (r: Ledger)
        ensures
            r.wf(),
            r.total() == 0,
    {
        Ledger { gained: Vec::new(), lost: Vec::new() }
    }

    /// Adds `x` to the ledger, or takes it off where `add` is false.
    fn enter(self, x: Amount, add: bool) -> (r: Ledger)
        requires
            self.wf(),
        ensures
            r.wf(),
            r.total() == self.total() + (if add {
                x.units()
            } else {
                -x.units()
            }),
    {
        let digits = expand(x);
        if x.negative == add {
            Ledger { gained: self.gained, lost: add_mag(&self.lost, &digits) }
        } else {
            Ledger { gained: add_mag(&self.gained, &digits), lost: self.lost }
        }
    }

    /// How what the ledger stands for stands to zero.
    fn sign(self) -> (r: Sign)
        requires
            self.wf(),
        ensures
            r == sign_of(self.total()),
    {
        let n = self.lost.len();
        let gained = pad(self.gained, n);
        let lost = pad(self.lost, gained.len());
        order_mag(&gained, &lost)
    }
}

/// How the excess of `a` over `b` stands to the excess of `c` over `d`:
/// the sign of `(a - b) - (c - d)`, computed exactly.
pub fn gap_sign(a: Amount, b: Amount, c: Amount, d: Amount) -> (r: Sign)
    ensures
        r == sign_of((a.units() - b.units()) - (c.units() - d.units())),
{
    Ledger::new().enter(a, true).enter(b, false).enter(c, false).enter(d, true).sign()
}

/// Whether two amounts are worth the same, however they are written.
pub fn same_amount(a: Amount, b: Amount) -> (r: bool)
    ensures
        r == (a.units() == b.units()),
{
    let zero = Amount::zero();
    match gap_sign(a, b, zero, zero) {
        Sign::Zero => true,
        _ => false,
    }
}

} // verus!
