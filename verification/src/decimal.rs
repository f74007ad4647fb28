use vstd::prelude::*;
use crate::text::chars_of;

verus! {

/// Whether `c` is one of the ten decimal digits.
pub open spec fn is_digit(c: char) -> bool {
    '0' <= c <= '9'
}

/// The number a decimal digit stands for.
pub open spec fn digit_value(c: char) -> nat {
    (c as nat - '0' as nat) as nat
}

/// Value of a string of decimal digits, most significant first.
pub open spec fn digits_value(s: Seq<char>) -> nat
    decreases s.len(),
{
    if s.len() == 0 {
        0
    } else {
        digits_value(s.drop_last()) * 10 + digit_value(s.last())
    }
}

/// End of the run of digits that starts at `from`: the position of the first
/// character at or after `from` that is no digit, or the length of `s`.
pub open spec fn digit_run(s: Seq<char>, from: int) -> int
    decreases s.len() - from,
{
    if 0 <= from < s.len() && is_digit(s[from]) {
        digit_run(s, from + 1)
    } else {
        from
    }
}

/// Ten to the power `n`.
pub open spec fn pow10(n: nat) -> nat
    decreases n,
{
    if n == 0 {
        1
    } else {
        10 * pow10((n - 1) as nat)
    }
}

/// Number of characters a leading sign takes: 1 for `+` or `-`, else 0.
pub open spec fn sign_len(s: Seq<char>, from: int) -> int {
    if 0 <= from < s.len() && (s[from] == '+' || s[from] == '-') {
        1
    } else {
        0
    }
}

/// Whether a minus sign stands at `from`.
pub open spec fn minus_at(s: Seq<char>, from: int) -> bool {
    0 <= from < s.len() && s[from] == '-'
}

/// An unsigned decimal integer: an optional `+`, then one or more digits
/// and nothing else.
pub open spec fn unsigned_of(s: Seq<char>) -> Option<nat> {
    let start = if s.len() > 0 && s[0] == '+' {
        1int
    } else {
        0int
    };
    if start < s.len() && digit_run(s, start) == s.len() {
        Some(digits_value(s.subrange(start, s.len() as int)))
    } else {
        None
    }
}

/// A running decimal value that remembers having outgrown 128 bits.
#[derive(Clone, Copy)]
struct Tally {
    value: u128,
    over: bool,
}

impl Tally {
    /// `self` stands for `n`: exactly, or by recording that `n` is too large.
    spec fn holds(self, n: nat) -> bool {
        if self.over {
            n > u128::MAX
        } else {
            n == self.value
        }
    }
}

/// Reads the run of digits of `s` that starts at `start`, continuing the
/// value of the digits `before`.
fn read_digits(s: &Vec<char>, start: usize, tally: Tally, Ghost(before): Ghost<Seq<char>>) -> (r: (
    usize,
    Tally,
))
    requires
        start <= s.len(),
        tally.holds(digits_value(before)),
    ensures
        r.0 == digit_run(s@, start as int),
        start <= r.0 <= s.len(),
        r.0 < s.len() ==> !is_digit(s@[r.0 as int]),
        r.1.holds(digits_value(before + s@.subrange(start as int, r.0 as int))),
{
    let mut i: usize = start;
    let mut t = tally;
    proof {
        assert(before + s@.subrange(start as int, start as int) =~= before);
    }
    while i < s.len() && s[i] >= '0' && s[i] <= '9'
        invariant
            start <= i <= s.len(),
            digit_run(s@, start as int) == digit_run(s@, i as int),
            t.holds(digits_value(before + s@.subrange(start as int, i as int))),
        decreases s.len() - i,
    {
        let c = s[i];
        let d: u128 = (c as u32 - '0' as u32) as u128;
        proof {
            let prev = before + s@.subrange(start as int, i as int);
            let next = before + s@.subrange(start as int, i + 1);
            assert(next.drop_last() =~= prev);
            assert(next.last() == c);
            assert(digits_value(next) == digits_value(prev) * 10 + d);
        }
        if !t.over {
            match t.value.checked_mul(10) {
                Some(m) => match m.checked_add(d) {
                    Some(v) => {
                        t = Tally { value: v, over: false };
                    },
                    None => {
                        t = Tally { value: 0, over: true };
                    },
                },
                None => {
                    t = Tally { value: 0, over: true };
                },
            }
        }
        i += 1;
    }
    (i, t)
}

/// Reads an unsigned decimal integer that does not exceed `max`.
pub fn parse_unsigned(s: &str, max: u64) -> (r: Option<u64>)
    ensures
        r == match unsigned_of(s@) {
            Some(n) => if n <= max {
                Some(n as u64)
            } else {
                None
            },
            None => None,
        },
{
    let chars = chars_of(s);
    let start: usize = if chars.len() > 0 && chars[0] == '+' {
        1
    } else {
        0
    };
    if start >= chars.len() {
        return None;
    }
    let (end, tally) = read_digits(&chars, start, Tally { value: 0, over: false }, Ghost(Seq::empty()));
    proof {
        assert(Seq::<char>::empty() + s@.subrange(start as int, end as int) =~= s@.subrange(
            start as int,
            end as int,
        ));
    }
    if end != chars.len() || tally.over || tally.value > max as u128 {
        return None;
    }
    Some(tally.value as u64)
}

/// A decimal numeral taken apart: it stands for `mantissa` times ten to the
/// power `exponent`, negated when `negative`.
pub struct Numeral {
    pub negative: bool,
    pub mantissa: nat,
    pub exponent: int,
}

/// Reads a decimal numeral: an optional sign; digits with at most one point
/// among them, at least one digit in all; then optionally `e` or `E`, an
/// optional sign and one or more digits. Anything else is no numeral.
pub open spec fn numeral_of(s: Seq<char>) -> Option<Numeral> {
    let first = sign_len(s, 0);
    let whole_end = digit_run(s, first);
    let frac_start = if whole_end < s.len() && s[whole_end] == '.' {
        whole_end + 1
    } else {
        whole_end
    };
    let frac_end = digit_run(s, frac_start);
    let digits = s.subrange(first, whole_end) + s.subrange(frac_start, frac_end);
    let exp_start = frac_end + 1 + sign_len(s, frac_end + 1);
    let exp_end = digit_run(s, exp_start);
    if digits.len() == 0 {
        None
    } else if frac_end == s.len() {
        Some(Numeral { negative: minus_at(s, 0), mantissa: digits_value(digits), exponent: frac_start - frac_end })
    } else if (s[frac_end] == 'e' || s[frac_end] == 'E') && exp_start < exp_end && exp_end == s.len() {
        let e = digits_value(s.subrange(exp_start, exp_end));
        Some(
            Numeral {
                negative: minus_at(s, 0),
                mantissa: digits_value(digits),
                exponent: (if minus_at(s, frac_end + 1) {
                    -e
                } else {
                    e as int
                }) + frac_start - frac_end,
            },
        )
    } else {
        None
    }
}

/// `m` times ten to the power `k`, rounded to the nearest whole number, a
/// half rounding up.
pub open spec fn scaled(m: nat, k: int) -> nat {
    if k >= 0 {
        m * pow10(k as nat)
    } else {
        (m + pow10((-k) as nat) / 2) / pow10((-k) as nat)
    }
}

/// Decimal places that an amount keeps: one unit is ten to the power
/// minus 400 of a token, or of the native currency.
pub const PLACES: u16 = 400;

/// Highest place above one unit at which the last digit of a numeral
/// that is read may stand: 600 places before the point.
pub const MAX_SHIFT: u16 = 1000;

/// An exact decimal amount: `mantissa` times ten to the power `shift`
/// units, negated when `negative`. One amount can be written in several
/// ways; `units` tells what it is worth.
///
/// Numerals of up to 38 digits are held where their last digit stands no
/// more than 400 places behind the point and no more than 600 before it.
/// That is wide enough for every 64-bit integer and for the shortest
/// numeral of every finite 64-bit float, which has 17 digits at most and
/// its last digit no more than 340 places behind the point.
#[derive(Debug, Clone, Copy, PartialEq, Eq)]
pub struct Amount {
    pub negative: bool,
    pub mantissa: u128,
    pub shift: u16,
}

impl Amount {
    /// The amount in units.
    pub open spec fn units(self) -> int {
        if self.negative {
            -(self.mantissa * pow10(self.shift as nat))
        } else {
            self.mantissa * pow10(self.shift as nat)
        }
    }

    /// Nothing.
    pub fn zero() -> (r: Amount)
        ensures
            r == (Amount { negative: false, mantissa: 0, shift: 0 }),
            r.units() == 0,
    {
        proof {
            assert(0 * pow10(0) == 0) by (nonlinear_arith);
        }
        Amount { negative: false, mantissa: 0, shift: 0 }
    }

    /// A whole number of tokens, or of units of the native currency.
    pub fn whole(n: u64) -> (r: Amount)
        ensures
            r == (Amount { negative: false, mantissa: n as u128, shift: PLACES }),
            r.units() == n * pow10(PLACES as nat),
    {
        Amount { negative: false, mantissa: n as u128, shift: PLACES }
    }

    /// Reads a decimal numeral.
    pub fn parse(s: &str) -> (r: Option<Amount>)
        ensures
            r == amount_of(s@),
    {
        parse_amount(s)
    }
}

/// The amount that the numeral `s` stands for, exactly. A numeral has none
/// where its digits exceed 128 bits, where it has digits below one unit,
/// or where its last digit stands more than `MAX_SHIFT` places above one
/// unit.
pub open spec fn amount_of(s: Seq<char>) -> Option<Amount> {
    match numeral_of(s) {
        Some(n) => {
            if n.mantissa <= u128::MAX && -(PLACES as int) <= n.exponent <= MAX_SHIFT - PLACES {
                Some(
                    Amount {
                        negative: n.negative,
                        mantissa: n.mantissa as u128,
                        shift: (n.exponent + PLACES) as u16,
                    },
                )
            } else {
                None
            }
        },
        None => None,
    }
}

/// A numeral below ten to the power 38 in its digits, whose last digit
/// stands within the places that are kept, is read as an amount.
pub proof fn lemma_short_numerals_are_amounts(s: Seq<char>)
    requires
        numeral_of(s) matches Some(n) && n.mantissa < pow10(38) && -(PLACES as int) <= n.exponent
            <= MAX_SHIFT - PLACES,
    ensures
        amount_of(s) is Some,
{
    lemma_pow10_limits();
}

/// The value of a numeral that is read as an amount is the value of the
/// amount: nothing is rounded.
pub proof fn lemma_amount_is_exact(s: Seq<char>)
    requires
        amount_of(s) is Some,
    ensures
        numeral_of(s) is Some,
        amount_of(s).unwrap().units() == (if numeral_of(s).unwrap().negative {
            -1int
        } else {
            1int
        }) * numeral_of(s).unwrap().mantissa * pow10(
            (numeral_of(s).unwrap().exponent + PLACES) as nat,
        ),
{
    let n = numeral_of(s).unwrap();
    let p = pow10((n.exponent + PLACES) as nat) as int;
    let m = n.mantissa as int;
    assert(-(m * p) == (-1int) * m * p) by (nonlinear_arith);
    assert(m * p == 1int * m * p) by (nonlinear_arith);
}

/// Powers of ten are positive and grow with the exponent.
pub proof fn lemma_pow10_grows(a: nat, b: nat)
    requires
        a <= b,
    ensures
        1 <= pow10(a) <= pow10(b),
    decreases b,
{
    if b == 0 {
    } else if a == b {
        lemma_pow10_grows(0, (b - 1) as nat);
    } else {
        lemma_pow10_grows(a, (b - 1) as nat);
    }
}

/// The largest power of ten below 2^128, and the next one.
pub proof fn lemma_pow10_limits()
    ensures
        pow10(38) == 100000000000000000000000000000000000000,
        pow10(39) == 1000000000000000000000000000000000000000,
{
    reveal_with_fuel(pow10, 40);
}

/// Ten to the power of one place more.
pub proof fn lemma_pow10_step(n: nat)
    ensures
        pow10(n + 1) == 10 * pow10(n),
        pow10(n) >= 1,
    decreases n,
{
    if n > 0 {
        lemma_pow10_step((n - 1) as nat);
    }
}

/// Ten to the power of a sum is the product of the powers.
pub proof fn lemma_pow10_sum(a: nat, b: nat)
    ensures
        pow10(a + b) == pow10(a) * pow10(b),
    decreases b,
{
    if b == 0 {
        assert(pow10(a) * 1 == pow10(a)) by (nonlinear_arith);
    } else {
        lemma_pow10_sum(a, (b - 1) as nat);
        lemma_pow10_step((a + b - 1) as nat);
        lemma_pow10_step((b - 1) as nat);
        let x = pow10(a) as int;
        let y = pow10((b - 1) as nat) as int;
        assert(10 * (x * y) == x * (10 * y)) by (nonlinear_arith);
    }
}

/// Ten to the power `n`, for the powers that fit in 128 bits.
fn pow10_u128(n: u32) -> (r: u128)
    requires
        n <= 38,
    ensures
        r == pow10(n as nat),
{
    let mut r: u128 = 1;
    let mut i: u32 = 0;
    while i < n
        invariant
            i <= n <= 38,
            r == pow10(i as nat),
        decreases n - i,
    {
        proof {
            lemma_pow10_grows((i + 1) as nat, 38);
            lemma_pow10_limits();
        }
        r = r * 10;
        i += 1;
    }
    r
}

/// `m` times ten to the power `k`, rounded to the nearest whole number,
/// where that fits in 127 bits.
pub fn round_scaled(m: u128, k: i32) -> (r: Option<u128>)
    ensures
        r == (if scaled(m as nat, k as int) <= i128::MAX {
            Some(scaled(m as nat, k as int) as u128)
        } else {
            None
        }),
{
    proof {
        lemma_pow10_limits();
        if k >= 0 {
            lemma_pow10_grows(0, k as nat);
        } else {
            lemma_pow10_grows(1, (-k) as nat);
        }
    }
    if m == 0 {
        proof {
            if k >= 0 {
                assert(0 * pow10(k as nat) == 0) by (nonlinear_arith);
            } else {
                let p = pow10((-k) as nat) as int;
                assert((0 + p / 2) / p == 0) by (nonlinear_arith)
                    requires
                        p >= 10,
                ;
            }
        }
        return Some(0);
    }
    if k >= 39 {
        proof {
            lemma_scaled_overflows(m as nat, k as int);
        }
        None
    } else if k <= -39 {
        proof {
            lemma_scaled_vanishes(m as nat, k as int);
        }
        Some(0)
    } else if k >= 0 {
        let p = pow10_u128(k as u32);
        assert(scaled(m as nat, k as int) == m * p);
        match m.checked_mul(p) {
            Some(v) => if v <= i128::MAX as u128 {
                Some(v)
            } else {
                None
            },
            None => None,
        }
    } else {
        let p = pow10_u128((-k) as u32);
        let q = m / p;
        let rem = m % p;
        let half = p / 2;
        proof {
            lemma_pow10_grows(1, (-k) as nat);
            lemma_pow10_grows((-k) as nat, 38);
            lemma_round_half_up(m as int, p as int);
        }
        assert(scaled(m as nat, k as int) == (m + p / 2) / (p as int));
        assert(q * 10 <= m) by (nonlinear_arith)
            requires
                q * p <= m,
                p >= 10,
                q >= 0,
        ;
        if rem >= half {
            Some(q + 1)
        } else {
            Some(q)
        }
    }
}

/// Reads a decimal numeral as an exact amount.
pub fn parse_amount(s: &str) -> (r: Option<Amount>)
    ensures
        r == amount_of(s@),
{
    let chars = chars_of(s);
    let n = chars.len();
    let zero = Tally { value: 0, over: false };
    let negative = n > 0 && chars[0] == '-';
    let first: usize = if n > 0 && (chars[0] == '+' || chars[0] == '-') {
        1
    } else {
        0
    };
    let (whole_end, whole) = read_digits(&chars, first, zero, Ghost(Seq::empty()));
    proof {
        assert(Seq::<char>::empty() + s@.subrange(first as int, whole_end as int) =~= s@.subrange(
            first as int,
            whole_end as int,
        ));
    }
    let frac_start: usize = if whole_end < n && chars[whole_end] == '.' {
        whole_end + 1
    } else {
        whole_end
    };
    let (frac_end, mantissa) = read_digits(&chars, frac_start, whole, Ghost(s@.subrange(first as int, whole_end as int)));
    if (whole_end - first) + (frac_end - frac_start) == 0 {
        return None;
    }
    let frac_len: usize = frac_end - frac_start;
    let exp_negative: bool;
    let exp: Tally;
    let ghost e: nat;
    if frac_end == n {
        exp_negative = false;
        exp = zero;
        proof {
            e = 0;
        }
    } else if chars[frac_end] == 'e' || chars[frac_end] == 'E' {
        let sign_at: usize = frac_end + 1;
        exp_negative = sign_at < n && chars[sign_at] == '-';
        let exp_start: usize = if sign_at < n && (chars[sign_at] == '+' || chars[sign_at] == '-') {
            sign_at + 1
        } else {
            sign_at
        };
        let (exp_end, read) = read_digits(&chars, exp_start, zero, Ghost(Seq::empty()));
        proof {
            assert(Seq::<char>::empty() + s@.subrange(exp_start as int, exp_end as int) =~= s@.subrange(
                exp_start as int,
                exp_end as int,
            ));
        }
        if exp_end == exp_start || exp_end != n {
            return None;
        }
        exp = read;
        proof {
            e = digits_value(s@.subrange(exp_start as int, exp_end as int));
        }
    } else {
        return None;
    }
    if mantissa.over || exp.over || exp.value > 0x1_0000_0000_0000_0000_0000 {
        return None;
    }
    let ev: i128 = exp.value as i128;
    let signed: i128 = if exp_negative {
        -ev
    } else {
        ev
    };
    let k: i128 = signed - (frac_len as i128);
    if k < -(PLACES as i128) || k > (MAX_SHIFT - PLACES) as i128 {
        return None;
    }
    Some(Amount { negative, mantissa: mantissa.value, shift: (k + PLACES as i128) as u16 })
}

/// Dividing by a power of ten beyond the 39th leaves nothing of a 128-bit
/// number, even after rounding.
pub proof fn lemma_scaled_vanishes(m: nat, k: int)
    requires
        m <= u128::MAX,
        k <= -39,
    ensures
        scaled(m, k) == 0,
{
    lemma_pow10_limits();
    lemma_pow10_grows(39, (-k) as nat);
    let p = pow10((-k) as nat) as int;
    assert((m + p / 2) / p == 0) by (nonlinear_arith)
        requires
            0 <= m <= u128::MAX,
            p >= 1000000000000000000000000000000000000000,
    ;
}

/// A positive number times a power of ten from the 39th on exceeds `i128`.
pub proof fn lemma_scaled_overflows(m: nat, k: int)
    requires
        m >= 1,
        k >= 39,
    ensures
        scaled(m, k) > i128::MAX,
{
    lemma_pow10_limits();
    lemma_pow10_grows(39, k as nat);
    let p = pow10(k as nat) as int;
    assert(m * p >= p) by (nonlinear_arith)
        requires
            m >= 1,
            p >= 0,
    ;
}

/// Rounding `m / p` to the nearest whole number adds one to the quotient
/// exactly when the remainder reaches half of an even `p`.
pub proof fn lemma_round_half_up(m: int, p: int)
    requires
        0 <= m,
        2 <= p,
        p % 2 == 0,
    ensures
        (m + p / 2) / p == m / p + (if m % p >= p / 2 {
            1int
        } else {
            0int
        }),
        m >= 1 ==> m / p + 1 <= m,
        (m / p) * p <= m,
{
    let q = m / p;
    let r = m % p;
    let h = p / 2;
    assert(m == q * p + r && 0 <= r < p) by (nonlinear_arith)
        requires
            q == m / p,
            r == m % p,
            p >= 2,
            m >= 0,
    ;
    assert(h + h == p);
    if r >= h {
        assert((m + h) / p == q + 1) by (nonlinear_arith)
            requires
                m == q * p + r,
                h <= r < p,
                h + h == p,
                p >= 2,
        ;
    } else {
        assert((m + h) / p == q) by (nonlinear_arith)
            requires
                m == q * p + r,
                0 <= r < h,
                h + h == p,
                p >= 2,
        ;
    }
    assert(q * p <= m) by (nonlinear_arith)
        requires
            m == q * p + r,
            0 <= r,
    ;
    assert(q + 1 <= m || m == 0) by (nonlinear_arith)
        requires
            m == q * p + r,
            0 <= r,
            p >= 2,
            q >= 0,
            m >= 0,
    ;
}

/// The character that stands for the digit `d`.
pub open spec fn digit_char(d: nat) -> char {
    if d == 0 {
        '0'
    } else if d == 1 {
        '1'
    } else if d == 2 {
        '2'
    } else if d == 3 {
        '3'
    } else if d == 4 {
        '4'
    } else if d == 5 {
        '5'
    } else if d == 6 {
        '6'
    } else if d == 7 {
        '7'
    } else if d == 8 {
        '8'
    } else {
        '9'
    }
}

/// The decimal digits of `n`, most significant first, without leading
/// zeros; zero is written as one digit.
pub open spec fn digits_of(n: nat) -> Seq<char>
    decreases n,
{
    if n < 10 {
        seq![digit_char(n)]
    } else {
        digits_of(n / 10).push(digit_char(n % 10))
    }
}

/// The text of one digit.
fn digit_str(d: u64) -> (r: &'static str)
    requires
        d < 10,
    ensures
        r@ == seq![digit_char(d as nat)],
{
    proof {
        reveal_strlit("0");
        reveal_strlit("1");
        reveal_strlit("2");
        reveal_strlit("3");
        reveal_strlit("4");
        reveal_strlit("5");
        reveal_strlit("6");
        reveal_strlit("7");
        reveal_strlit("8");
        reveal_strlit("9");
    }
    let r = if d == 0 {
        "0"
    } else if d == 1 {
        "1"
    } else if d == 2 {
        "2"
    } else if d == 3 {
        "3"
    } else if d == 4 {
        "4"
    } else if d == 5 {
        "5"
    } else if d == 6 {
        "6"
    } else if d == 7 {
        "7"
    } else if d == 8 {
        "8"
    } else {
        "9"
    };
    assert(r@ =~= seq![digit_char(d as nat)]);
    r
}

/// Writes `n` in decimal digits.
pub fn unsigned_text(n: u64) -> (r: String)
    ensures
        r@ == digits_of(n as nat),
{
    let mut low: Vec<u64> = Vec::new();
    let mut m: u64 = n;
    let ghost mut tail: Seq<char> = Seq::empty();
    proof {
        assert(digits_of(m as nat) + tail =~= digits_of(n as nat));
    }
    while m >= 10
        invariant
            digits_of(n as nat) == digits_of(m as nat) + tail,
            low.len() == tail.len(),
            forall|k: int|
                0 <= k < low.len() ==> low@[k] < 10 && tail[tail.len() - 1 - k] == digit_char(
                    #[trigger] low@[k] as nat,
                ),
        decreases m,
    {
        let d = m % 10;
        proof {
            let c = digit_char(d as nat);
            assert(digits_of(m as nat) == digits_of((m / 10) as nat).push(c));
            assert(digits_of((m / 10) as nat).push(c) + tail =~= digits_of((m / 10) as nat) + (seq![c]
                + tail));
            tail = seq![c] + tail;
        }
        low.push(d);
        m = m / 10;
    }
    let mut out = String::from_str(digit_str(m));
    let mut j: usize = low.len();
    proof {
        assert(out@ + tail.take(0) =~= digits_of(m as nat));
    }
    while j > 0
        invariant
            j <= low.len(),
            low.len() == tail.len(),
            out@ == digits_of(m as nat) + tail.take(tail.len() - j),
            forall|k: int|
                0 <= k < low.len() ==> low@[k] < 10 && tail[tail.len() - 1 - k] == digit_char(
                    #[trigger] low@[k] as nat,
                ),
        decreases j,
    {
        j -= 1;
        let d = low[j];
        proof {
            assert(tail.take(tail.len() - j) =~= tail.take(tail.len() - (j + 1)) + seq![
                digit_char(d as nat),
            ]);
        }
        out.append(digit_str(d));
    }
    proof {
        assert(tail.take(tail.len() as int) =~= tail);
    }
    out
}

/// The digits written for a number are digits, and their value is the
/// number.
pub proof fn lemma_digits_of_value(n: nat)
    ensures
        digits_of(n).len() >= 1,
        forall|i: int| 0 <= i < digits_of(n).len() ==> is_digit(#[trigger] digits_of(n)[i]),
        digits_value(digits_of(n)) == n,
    decreases n,
{
    let s = digits_of(n);
    if n < 10 {
        assert(s.drop_last() =~= Seq::<char>::empty());
        assert(digits_value(s.drop_last()) == 0);
        assert(digit_value(digit_char(n)) == n);
    } else {
        lemma_digits_of_value(n / 10);
        assert(s.drop_last() =~= digits_of(n / 10));
        assert(digit_value(digit_char(n % 10)) == n % 10);
        assert forall|i: int| 0 <= i < s.len() implies is_digit(#[trigger] s[i]) by {
            if i < s.len() - 1 {
                assert(s[i] == digits_of(n / 10)[i]);
            }
        }
    }
}

/// A run of digits that reaches to the end of a text ends there.
pub proof fn lemma_digit_run_to_end(s: Seq<char>, from: int)
    requires
        0 <= from <= s.len(),
        forall|i: int| from <= i < s.len() ==> is_digit(#[trigger] s[i]),
    ensures
        digit_run(s, from) == s.len(),
    decreases s.len() - from,
{
    if from < s.len() {
        lemma_digit_run_to_end(s, from + 1);
    }
}

/// What is written for a number is read back as that number.
pub proof fn lemma_written_is_read_back(n: nat)
    ensures
        unsigned_of(digits_of(n)) == Some(n),
{
    let s = digits_of(n);
    lemma_digits_of_value(n);
    lemma_digit_run_to_end(s, 0);
    assert(is_digit(s[0]));
    assert(s.subrange(0, s.len() as int) =~= s);
}

} // verus!
