use vstd::prelude::*;
use bitcoin::Script;
use crate::model::varint_len;

verus! {

/// A fee rate in satoshis per virtual byte, as the fraction
/// `numerator / denominator`.
#[derive(Clone, Copy, Debug, PartialEq, Eq)]
pub struct FeeRate {
    pub numerator: u64,
    pub denominator: u64,
}

/// `ceil(numerator * vsize / denominator)`.
pub open spec fn fee_spec(numerator: nat, denominator: nat, vsize: nat) -> nat
    recommends
        denominator > 0,
{
    ((numerator * vsize + denominator - 1) / denominator as int) as nat
}

impl FeeRate {
    pub open spec fn wf(&self) -> bool {
        self.denominator > 0
    }

    /// The fee, rounded up, for a transaction of `vsize` virtual bytes.
    pub open spec fn fee_of(&self, vsize: nat) -> nat {
        fee_spec(self.numerator as nat, self.denominator as nat, vsize)
    }

    /// The rate `numerator / denominator`; `None` when `denominator` is zero.
    pub fn new(numerator: u64, denominator: u64) -> (r: Option<FeeRate>)
        ensures
            r is Some <==> denominator > 0,
            r matches Some(f) ==> f.wf() && f.numerator == numerator && f.denominator
                == denominator,
    {
        if denominator == 0 {
            None
        } else {
            Some(FeeRate { numerator, denominator })
        }
    }

    /// The fee, rounded up, for `vsize` virtual bytes; `None` when it exceeds
    /// the largest amount.
    pub fn fee(&self, vsize: u64) -> (r: Option<u64>)
        requires
            self.wf(),
        ensures
            r is Some <==> self.fee_of(vsize as nat) <= u64::MAX,
            r matches Some(f) ==> f == self.fee_of(vsize as nat),
    {
        let n: u128 = self.numerator as u128;
        let v: u128 = vsize as u128;
        assert(n * v <= 0xFFFF_FFFF_FFFF_FFFFu128 * 0xFFFF_FFFF_FFFF_FFFFu128) by (nonlinear_arith)
            requires
                n <= 0xFFFF_FFFF_FFFF_FFFFu128,
                v <= 0xFFFF_FFFF_FFFF_FFFFu128,
        ;
        let product: u128 = n * v;
        let d: u128 = self.denominator as u128;
        let total: u128 = (product + d - 1) / d;
        if total > u64::MAX as u128 {
            None
        } else {
            Some(total as u64)
        }
    }
}

/// A version opcode followed by one push of the rest of the script, of 2 to 40 bytes.
pub open spec fn is_witness_program(s: Seq<u8>) -> bool {
    &&& 4 <= s.len() <= 42
    &&& (s[0] == 0 || (0x51 <= s[0] && s[0] <= 0x60))
    &&& 2 <= s[1] <= 40
    &&& s.len() - 2 == s[1]
}

/// The smallest value an output paying `s` should carry to be relayed: three
/// satoshis per byte of the output and of the input that would spend it.
pub open spec fn dust_spec(s: Seq<u8>) -> nat {
    if s.len() > 0 && s[0] == 0x6a {
        0
    } else if is_witness_program(s) {
        3 * (32 + 4 + 1 + 26 + 4 + 8 + varint_len(s.len()) + s.len())
    } else {
        3 * (32 + 4 + 1 + 107 + 4 + 8 + varint_len(s.len()) + s.len())
    }
}

/// Relies on bitcoin's `Script::dust_value`.
#[verifier::external_body]
pub fn dust_value(script_pubkey: &Vec<u8>) -> (r: u64)
    ensures
        r == dust_spec(script_pubkey@),
{
    Script::from(script_pubkey.clone()).dust_value().to_sat()
}

pub open spec fn is_digit(b: u8) -> bool {
    0x30 <= b <= 0x39
}

pub open spec fn all_digits(s: Seq<u8>) -> bool {
    forall|i: int| 0 <= i < s.len() ==> is_digit(s[i])
}

/// The number that the decimal digits `s` write.
pub open spec fn digits_value(s: Seq<u8>) -> nat
    decreases s.len(),
{
    if s.len() == 0 {
        0
    } else {
        digits_value(s.drop_last()) * 10 + (s.last() - 0x30) as nat
    }
}

pub open spec fn pow10(n: nat) -> nat
    decreases n,
{
    if n == 0 {
        1
    } else {
        10 * pow10((n - 1) as nat)
    }
}

/// `text` is digits, a point at `k`, and digits, with at least one digit on each side.
pub open spec fn point_at(text: Seq<u8>, k: int) -> bool {
    &&& 0 < k < text.len() - 1
    &&& text[k] == 0x2e
    &&& all_digits(text.take(k))
    &&& all_digits(text.skip(k + 1))
}

/// The rate that `text` writes in decimal, as numerator and denominator,
/// whether or not they fit in 64 bits; `None` when `text` is no decimal.
pub open spec fn decimal_spec(text: Seq<u8>) -> Option<(nat, nat)> {
    if text.len() > 0 && all_digits(text) {
        Some((digits_value(text), 1))
    } else if exists|k: int| point_at(text, k) {
        let k = choose|k: int| point_at(text, k);
        Some((digits_value(text.take(k) + text.skip(k + 1)), pow10((text.len() - k - 1) as nat)))
    } else {
        None
    }
}

/// A prefix of digits writes no larger a number.
pub proof fn lemma_prefix_value(s: Seq<u8>, i: int)
    requires
        0 <= i <= s.len(),
        all_digits(s),
    ensures
        digits_value(s.take(i)) <= digits_value(s),
    decreases s.len(),
{
    if i < s.len() {
        assert(s.take(i) =~= s.drop_last().take(i));
        lemma_prefix_value(s.drop_last(), i);
    } else {
        assert(s.take(i) =~= s);
    }
}

/// Larger exponents give larger powers.
pub proof fn lemma_pow10_monotonic(a: nat, b: nat)
    requires
        a <= b,
    ensures
        1 <= pow10(a) <= pow10(b),
    decreases b,
{
    if a < b {
        lemma_pow10_monotonic(a, (b - 1) as nat);
    } else if a > 0 {
        lemma_pow10_monotonic((a - 1) as nat, (a - 1) as nat);
    }
}

/// The number that the decimal digits `d` write; `None` when it exceeds 64 bits.
pub fn digits_number(d: &[u8]) -> (r: Option<u64>)
    requires
        all_digits(d@),
    ensures
        r is Some <==> digits_value(d@) <= u64::MAX,
        r matches Some(v) ==> v == digits_value(d@),
{
    let mut value: u64 = 0;
    let mut k: usize = 0;
    while k < d.len()
        invariant
            all_digits(d@),
            k <= d@.len(),
            value == digits_value(d@.take(k as int)),
        decreases d@.len() - k,
    {
        assert(d@.take(k + 1).drop_last() =~= d@.take(k as int));
        let digit: u64 = (d[k] - 0x30) as u64;
        assert(digits_value(d@.take(k + 1)) == value * 10 + digit);
        if value > (u64::MAX - digit) / 10 {
            proof {
                lemma_prefix_value(d@, k + 1);
                assert(value * 10 + digit > u64::MAX) by (nonlinear_arith)
                    requires
                        value > (u64::MAX - digit) / 10,
                        digit <= 9,
                ;
            }
            return None;
        }
        value = value * 10 + digit;
        k = k + 1;
    }
    assert(d@.take(d@.len() as int) =~= d@);
    Some(value)
}

/// Ten to the power `e`; `None` when it exceeds 64 bits.
pub fn power_of_ten(e: usize) -> (r: Option<u64>)
    ensures
        r is Some <==> pow10(e as nat) <= u64::MAX,
        r matches Some(v) ==> v == pow10(e as nat),
{
    let mut value: u64 = 1;
    let mut i: usize = 0;
    while i < e
        invariant
            i <= e,
            value == pow10(i as nat),
        decreases e - i,
    {
        if value > u64::MAX / 10 {
            proof {
                lemma_pow10_monotonic((i + 1) as nat, e as nat);
            }
            return None;
        }
        value = value * 10;
        i = i + 1;
    }
    Some(value)
}

impl FeeRate {
    /// The rate written in decimal in `text` (`1`, `3.3`); `None` when
    /// `text` is no decimal, or its numerator or denominator exceeds 64 bits.
    pub fn from_decimal(text: &[u8]) -> (r: Option<FeeRate>)
        ensures
            r is Some <==> (decimal_spec(text@) matches Some(p) && p.0 <= u64::MAX && p.1 <= u64::MAX),
            r matches Some(f) ==> f.wf() && decimal_spec(text@) == Some((f.numerator as nat, f.denominator as nat)),
    {
        let n = text.len();
        let mut point: usize = n;
        let mut i: usize = 0;
        while i < n
            invariant
                n == text@.len(),
                i <= n,
                point == n || (point < i && text@[point as int] == 0x2e),
                forall|j: int| 0 <= j < i && j != point ==> is_digit(text@[j]),
            decreases n - i,
        {
            if text[i] == 0x2e && point == n {
                point = i;
            } else if !(0x30 <= text[i] && text[i] <= 0x39) {
                proof {
                    assert(decimal_spec(text@) is None) by {
                        assert(!all_digits(text@));
                        assert forall|k: int| !point_at(text@, k) by {
                            if point_at(text@, k) {
                                if i == k {
                                    assert(text@.take(k)[point as int] == text@[point as int]);
                                } else if i < k {
                                    assert(text@.take(k)[i as int] == text@[i as int]);
                                } else if i > k {
                                    assert(text@.skip(k + 1)[i - k - 1] == text@[i as int]);
                                }
                            }
                        }
                    }
                }
                return None;
            }
            i = i + 1;
        }
        if n == 0 || point == 0 || (point < n && point + 1 == n) {
            proof {
                assert forall|k: int| !point_at(text@, k) by {
                    if point_at(text@, k) && point < n {
                        assert(k == point as int);
                    }
                }
                if point == 0 && n > 0 {
                    assert(!is_digit(text@[0]));
                }
                if point < n && point + 1 == n {
                    assert(!is_digit(text@[point as int]));
                }
            }
            return None;
        }
        let mut digits: Vec<u8> = Vec::new();
        let mut j: usize = 0;
        while j < n
            invariant
                n == text@.len(),
                j <= n,
                digits@ == if j <= point { text@.take(j as int) } else { text@.take(point as int) + text@.subrange(point + 1, j as int) },
            decreases n - j,
        {
            if j != point {
                digits.push(text[j]);
            }
            proof {
                if j < point {
                    assert(text@.take(j + 1) =~= text@.take(j as int).push(text@[j as int]));
                } else if j == point {
                    assert(text@.subrange(point + 1, j + 1) =~= Seq::<u8>::empty());
                    assert(text@.take(point as int) + Seq::<u8>::empty() =~= text@.take(point as int));
                } else {
                    assert(text@.subrange(point + 1, j + 1) =~= text@.subrange(point + 1, j as int).push(text@[j as int]));
                }
            }
            j = j + 1;
        }
        let frac_len: usize = if point == n { 0 } else { n - point - 1 };
        let ghost spec_digits = digits@;
        let ghost expected: (nat, nat) = (digits_value(spec_digits), pow10(frac_len as nat));
        proof {
            if point == n {
                assert(text@.take(n as int) =~= text@);
                assert(all_digits(text@));
            } else {
                assert(text@.subrange(point + 1, n as int) =~= text@.skip(point + 1));
                assert(point_at(text@, point as int));
                assert forall|k: int| point_at(text@, k) implies k == point as int by {
                    if k < point {
                        assert(text@.skip(k + 1)[point - k - 1] == text@[point as int]);
                    } else if k > point {
                        assert(text@.take(k)[point as int] == text@[point as int]);
                    }
                }
                assert(!is_digit(text@[point as int]));
            }
            assert(decimal_spec(text@) == Some(expected));
            assert(all_digits(spec_digits)) by {
                assert forall|q: int| 0 <= q < spec_digits.len() implies is_digit(spec_digits[q]) by {
                    if point < n && q >= point {
                        assert(spec_digits[q] == text@[q + 1]);
                    } else {
                        assert(spec_digits[q] == text@[q]);
                    }
                }
            }
        }
        let numerator = match digits_number(&digits) {
            Some(v) => v,
            None => {
                return None;
            },
        };
        let denominator = match power_of_ten(frac_len) {
            Some(v) => v,
            None => {
                return None;
            },
        };
        proof {
            lemma_pow10_monotonic(0, frac_len as nat);
        }
        Some(FeeRate { numerator, denominator })
    }
}

} // verus!
