//! Decimal weights of union branches, and their text form.
use vstd::prelude::*;

verus! {

/// A decimal weight: `digits / 10^scale`, negated when `negative` holds.
/// No range is enforced.
#[derive(Debug, Clone, Copy, PartialEq, Eq)]
pub struct W {
    pub negative: bool,
    pub digits: u64,
    pub scale: u32,
}

/// The character of the decimal digit `d`.
pub open spec fn digit_char(d: nat) -> char {
    if d == 0 {
        '0'
    } else if d == 1 {
        '1'
    } else if d == 2 {
        '2'
    } else if d == 3 {
        '3'
    } else if d == 4 {
        '4'
    } else if d == 5 {
        '5'
    } else if d == 6 {
        '6'
    } else if d == 7 {
        '7'
    } else if d == 8 {
        '8'
    } else {
        '9'
    }
}

/// The decimal digits of `n`, most significant first, without leading zeros
/// (`0` is one digit).
pub open spec fn nat_text(n: nat) -> Seq<char>
    decreases n,
{
    if n < 10 {
        seq![digit_char(n)]
    } else {
        nat_text(n / 10).push(digit_char(n % 10))
    }
}

/// The lowest `k` decimal digits of `m`, most significant first, with
/// leading zeros.
pub open spec fn low_digits(m: nat, k: nat) -> Seq<char>
    decreases k,
{
    if k == 0 {
        Seq::empty()
    } else {
        low_digits(m / 10, (k - 1) as nat).push(digit_char(m % 10))
    }
}

/// `m` without its lowest `k` decimal digits.
pub open spec fn high_part(m: nat, k: nat) -> nat
    decreases k,
{
    if k == 0 {
        m
    } else {
        high_part(m / 10, (k - 1) as nat)
    }
}

/// `s` without the zeros at its end.
pub open spec fn strip_trailing_zeros(s: Seq<char>) -> Seq<char>
    decreases s.len(),
{
    if s.len() > 0 && s.last() == '0' {
        strip_trailing_zeros(s.drop_last())
    } else {
        s
    }
}

/// The natural decimal text of a weight: an optional `-`, the integer part,
/// and, when the fraction is not zero, `.` and its digits without trailing
/// zeros (`0.5`, `1`, `-2.25`).
pub open spec fn weight_text(w: W) -> Seq<char> {
    let sign = if w.negative {
        seq!['-']
    } else {
        Seq::empty()
    };
    let frac = strip_trailing_zeros(low_digits(w.digits as nat, w.scale as nat));
    let int_part = nat_text(high_part(w.digits as nat, w.scale as nat));
    if frac.len() == 0 {
        sign + int_part
    } else {
        sign + int_part + seq!['.'] + frac
    }
}

fn digit_str(d: u64) -> (r: &'static str)
    requires
        d < 10,
    ensures
        r@ == seq![digit_char(d as nat)],
{
    proof {
        reveal_strlit("0");
        reveal_strlit("1");
        reveal_strlit("2");
        reveal_strlit("3");
        reveal_strlit("4");
        reveal_strlit("5");
        reveal_strlit("6");
        reveal_strlit("7");
        reveal_strlit("8");
        reveal_strlit("9");
    }
    if d == 0 {
        "0"
    } else if d == 1 {
        "1"
    } else if d == 2 {
        "2"
    } else if d == 3 {
        "3"
    } else if d == 4 {
        "4"
    } else if d == 5 {
        "5"
    } else if d == 6 {
        "6"
    } else if d == 7 {
        "7"
    } else if d == 8 {
        "8"
    } else {
        "9"
    }
}

/// Writes the decimal digits of `n` after `out`.
pub(crate) fn write_nat(n: u64, out: &mut String)
    ensures
        final(out)@ == old(out)@ + nat_text(n as nat),
    decreases n,
{
    if n >= 10 {
        write_nat(n / 10, out);
    }
    out.append(digit_str(n % 10));
    proof {
        if n >= 10 {
            assert(final(out)@ =~= old(out)@ + nat_text(n as nat));
        } else {
            assert(final(out)@ =~= old(out)@ + nat_text(n as nat));
        }
    }
}

proof fn lemma_low_digits_zero(k: nat)
    ensures
        low_digits(0, k) == Seq::new(k, |i: int| '0'),
    decreases k,
{
    if k > 0 {
        lemma_low_digits_zero((k - 1) as nat);
        assert(low_digits(0, k) =~= Seq::new(k, |i: int| '0'));
    } else {
        assert(low_digits(0, k) =~= Seq::new(k, |i: int| '0'));
    }
}

proof fn lemma_high_part_zero(k: nat)
    ensures
        high_part(0, k) == 0,
    decreases k,
{
    if k > 0 {
        lemma_high_part_zero((k - 1) as nat);
    }
}

/// Writes the lowest `k` decimal digits of `m` after `out`.
fn write_low_digits(m: u64, k: u32, out: &mut String)
    ensures
        final(out)@ == old(out)@ + low_digits(m as nat, k as nat),
    decreases m,
{
    if m == 0 {
        proof {
            reveal_strlit("0");
            lemma_low_digits_zero(k as nat);
        }
        let ghost start = out@;
        let mut i: u32 = 0;
        while i < k
            invariant
                i <= k,
                out@ == start + Seq::new(i as nat, |j: int| '0'),
            decreases k - i,
        {
            proof {
                reveal_strlit("0");
            }
            out.append("0");
            assert(out@ =~= start + Seq::new((i + 1) as nat, |j: int| '0'));
            i = i + 1;
        }
    } else if k > 0 {
        write_low_digits(m / 10, k - 1, out);
        out.append(digit_str(m % 10));
        assert(final(out)@ =~= old(out)@ + low_digits(m as nat, k as nat));
    } else {
        assert(final(out)@ =~= old(out)@ + low_digits(m as nat, k as nat));
    }
}

impl W {
    /// The weight that a union branch gets when none is given: `0.5`.
    pub open spec fn spec_default_weight() -> W {
        W { negative: false, digits: 5, scale: 1 }
    }

    /// The weight `digits / 10^scale`, negated when `negative` holds.
    pub fn new(negative: bool, digits: u64, scale: u32) -> (r: W)
        ensures
            r == (W { negative, digits, scale }),
    {
        W { negative, digits, scale }
    }

    /// The weight that a union branch gets when none is given: `0.5`.
    #[verifier::when_used_as_spec(spec_default_weight)]
    pub fn default_weight() -> (r: W)
        ensures
            r == W::spec_default_weight(),
    {
        W { negative: false, digits: 5, scale: 1 }
    }

    /// Writes the weight's text after `out`.
    pub(crate) fn render_into(&self, out: &mut String)
        ensures
            final(out)@ == old(out)@ + weight_text(*self),
    {
        let ghost start = out@;
        if self.negative {
            proof {
                reveal_strlit("-");
            }
            out.append("-");
        }
        // Drop the fraction's trailing zeros.
        let mut m = self.digits;
        let mut k = self.scale;
        while k > 0 && m % 10 == 0
            invariant
                strip_trailing_zeros(low_digits(m as nat, k as nat)) == strip_trailing_zeros(
                    low_digits(self.digits as nat, self.scale as nat),
                ),
                high_part(m as nat, k as nat) == high_part(
                    self.digits as nat,
                    self.scale as nat,
                ),
            decreases k,
        {
            assert(low_digits(m as nat, k as nat).last() == '0');
            assert(low_digits(m as nat, k as nat).drop_last() =~= low_digits(
                (m / 10) as nat,
                (k - 1) as nat,
            ));
            m = m / 10;
            k = k - 1;
        }
        assert(strip_trailing_zeros(low_digits(m as nat, k as nat)) == low_digits(
            m as nat,
            k as nat,
        ));
        // The integer part.
        let mut h = m;
        let mut t: u32 = 0;
        while t < k && h > 0
            invariant
                t <= k,
                high_part(h as nat, (k - t) as nat) == high_part(m as nat, k as nat),
            decreases k - t,
        {
            h = h / 10;
            t = t + 1;
        }
        proof {
            if h == 0 {
                lemma_high_part_zero((k - t) as nat);
            }
        }
        write_nat(h, out);
        if k > 0 {
            proof {
                reveal_strlit(".");
            }
            out.append(".");
            write_low_digits(m, k, out);
        }
        assert(out@ =~= start + weight_text(*self));
    }

    /// The weight's natural decimal text.
    pub fn render(&self) -> (r: String)
        ensures
            r@ == weight_text(*self),
    {
        let mut out = String::new();
        self.render_into(&mut out);
        assert(out@ =~= weight_text(*self));
        out
    }
}

} // verus!
