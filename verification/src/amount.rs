//! Unbounded token amounts.
//!
//! An `Amount` is a natural number of any size, kept as little-endian base-256
//! digits with no leading zero digit. Its view is the number it denotes.
use vstd::prelude::*;

verus! {

/// `256` raised to `n`.
pub open spec fn radix_pow(n: nat) -> nat
    decreases n,
{
    if n == 0 {
        1
    } else {
        256 * radix_pow((n - 1) as nat)
    }
}

/// Digit `i` of a little-endian base-256 numeral; zero outside the numeral.
pub open spec fn digit_at(d: Seq<u8>, i: int) -> nat {
    if 0 <= i < d.len() {
        d[i] as nat
    } else {
        0
    }
}

/// The number formed by the lowest `n` digits of `d`.
pub open spec fn prefix_value(d: Seq<u8>, n: nat) -> nat
    decreases n,
{
    if n == 0 {
        0
    } else {
        prefix_value(d, (n - 1) as nat) + digit_at(d, n - 1) * radix_pow((n - 1) as nat)
    }
}

/// The number that the little-endian base-256 numeral `d` denotes.
pub open spec fn digits_value(d: Seq<u8>) -> nat {
    prefix_value(d, d.len())
}

/// The number that the big-endian byte string `b` denotes.
pub open spec fn be_value(b: Seq<u8>) -> nat
    decreases b.len(),
{
    if b.len() == 0 {
        0
    } else {
        be_value(b.drop_last()) * 256 + b.last() as nat
    }
}

/// A numeral without a most significant zero digit.
pub open spec fn is_canonical(d: Seq<u8>) -> bool {
    d.len() == 0 || d.last() != 0
}

pub proof fn lemma_radix_pow_positive(n: nat)
    ensures
        radix_pow(n) >= 1,
    decreases n,
{
    if n > 0 {
        lemma_radix_pow_positive((n - 1) as nat);
    }
}

/// The lowest `n` digits denote less than `256^n`.
pub proof fn lemma_prefix_bound(d: Seq<u8>, n: nat)
    ensures
        prefix_value(d, n) < radix_pow(n),
    decreases n,
{
    if n > 0 {
        let m = (n - 1) as nat;
        lemma_prefix_bound(d, m);
        let p = radix_pow(m);
        let x = digit_at(d, m as int);
        assert(x <= 255);
        assert(x * p <= 255 * p) by (nonlinear_arith)
            requires
                x <= 255,
        ;
    }
}

/// Digits beyond the end of a numeral add nothing.
pub proof fn lemma_prefix_past_end(d: Seq<u8>, n: nat)
    requires
        n >= d.len(),
    ensures
        prefix_value(d, n) == digits_value(d),
    decreases n,
{
    if n > d.len() {
        let m = (n - 1) as nat;
        lemma_prefix_past_end(d, m);
        assert(digit_at(d, m as int) == 0);
        assert(prefix_value(d, n) == prefix_value(d, m) + digit_at(d, m as int) * radix_pow(m));
    }
}

/// Two numerals that agree on their lowest `n` digits agree on the value of those digits.
pub proof fn lemma_prefix_agree(d1: Seq<u8>, d2: Seq<u8>, n: nat)
    requires
        forall|i: int| 0 <= i < n ==> digit_at(d1, i) == digit_at(d2, i),
    ensures
        prefix_value(d1, n) == prefix_value(d2, n),
    decreases n,
{
    if n > 0 {
        lemma_prefix_agree(d1, d2, (n - 1) as nat);
        assert(digit_at(d1, n - 1) == digit_at(d2, n - 1));
    }
}

/// Appending a most significant digit `x` adds `x * 256^len`.
pub proof fn lemma_push_value(d: Seq<u8>, x: u8)
    ensures
        digits_value(d.push(x)) == digits_value(d) + x * radix_pow(d.len()),
{
    let e = d.push(x);
    assert forall|i: int| 0 <= i < d.len() implies digit_at(e, i) == digit_at(d, i) by {}
    lemma_prefix_agree(e, d, d.len());
}

/// Removing a most significant zero digit keeps the value.
pub proof fn lemma_drop_zero(d: Seq<u8>)
    requires
        d.len() > 0,
        d.last() == 0,
    ensures
        digits_value(d.drop_last()) == digits_value(d),
{
    let e = d.drop_last();
    assert(d =~= e.push(0u8));
    lemma_push_value(e, 0u8);
}

/// Prepending a least significant digit `x` gives `x + 256 * value`.
pub proof fn lemma_shift_prefix(d: Seq<u8>, x: u8, n: nat)
    ensures
        prefix_value(seq![x] + d, n + 1) == x + 256 * prefix_value(d, n),
    decreases n,
{
    let e = seq![x] + d;
    if n == 0 {
        assert(digit_at(e, 0) == x);
        assert(radix_pow(0) == 1);
        assert(prefix_value(e, 0) == 0);
        assert(prefix_value(e, 1) == prefix_value(e, 0) + digit_at(e, 0) * radix_pow(0));
        assert(prefix_value(d, 0) == 0);
    } else {
        let m = (n - 1) as nat;
        lemma_shift_prefix(d, x, m);
        assert(digit_at(e, n as int) == digit_at(d, m as int));
        let pm = radix_pow(m);
        let dm = digit_at(d, m as int);
        assert(radix_pow(n) == 256 * pm);
        assert(prefix_value(e, n + 1) == prefix_value(e, n) + digit_at(e, n as int) * radix_pow(n));
        assert(prefix_value(d, n) == prefix_value(d, m) + dm * pm);
        let pn = radix_pow(n);
        assert(dm * pn == 256 * (dm * pm)) by (nonlinear_arith)
            requires
                pn == 256 * pm,
        ;
    }
}

pub proof fn lemma_shift_value(d: Seq<u8>, x: u8)
    ensures
        digits_value(seq![x] + d) == x + 256 * digits_value(d),
{
    lemma_shift_prefix(d, x, d.len());
}

/// A little-endian numeral read backwards is the same number in big-endian order.
pub proof fn lemma_reverse_value(d: Seq<u8>)
    ensures
        be_value(d.reverse()) == digits_value(d),
    decreases d.len(),
{
    if d.len() > 0 {
        let t = d.drop_first();
        lemma_reverse_value(t);
        assert(d.reverse().drop_last() =~= t.reverse());
        assert(d =~= seq![d[0]] + t);
        lemma_shift_value(t, d[0]);
    }
}

/// A natural number of unbounded size.
#[derive(Debug, PartialEq, Eq)]
pub struct Amount {
    digits: Vec<u8>,
}

impl View for Amount {
    type V = nat;

    closed spec fn view(&self) -> nat {
        digits_value(self.digits@)
    }
}

/// Removes most significant zero digits.
fn trim(d: &mut Vec<u8>)
    ensures
        digits_value(final(d)@) == digits_value(old(d)@),
        is_canonical(final(d)@),
{
    while d.len() > 0 && d[d.len() - 1] == 0
        invariant
            digits_value(d@) == digits_value(old(d)@),
        decreases d.len(),
    {
        proof {
            lemma_drop_zero(d@);
        }
        d.pop();
    }
}

/// Subtracts `b` from `a` digit by digit, as far as the longer of the two reaches.
/// The flag says whether a borrow was left over, which is so exactly when `a < b`.
fn sub_digits(a: &Vec<u8>, b: &Vec<u8>) -> (res: (Vec<u8>, bool))
    ensures
        res.0.len() == if a.len() >= b.len() {
            a.len()
        } else {
            b.len()
        },
        digits_value(res.0@) - (if res.1 {
            radix_pow(res.0.len() as nat)
        } else {
            0
        }) == digits_value(a@) - digits_value(b@),
        res.1 <==> digits_value(a@) < digits_value(b@),
{
    let n: usize = if a.len() >= b.len() {
        a.len()
    } else {
        b.len()
    };
    let mut res: Vec<u8> = Vec::new();
    let mut borrow: i32 = 0;
    let mut i: usize = 0;
    while i < n
        invariant
            i <= n,
            n == if a.len() >= b.len() {
                a.len()
            } else {
                b.len()
            },
            res.len() == i,
            0 <= borrow <= 1,
            digits_value(res@) - borrow * radix_pow(i as nat) == prefix_value(a@, i as nat)
                - prefix_value(b@, i as nat),
        decreases n - i,
    {
        let da: i32 = if i < a.len() {
            a[i] as i32
        } else {
            0
        };
        let db: i32 = if i < b.len() {
            b[i] as i32
        } else {
            0
        };
        assert(da == digit_at(a@, i as int));
        assert(db == digit_at(b@, i as int));
        let mut t: i32 = da - db - borrow;
        let new_borrow: i32;
        if t < 0 {
            t = t + 256;
            new_borrow = 1;
        } else {
            new_borrow = 0;
        }
        proof {
            let p = radix_pow(i as nat);
            lemma_push_value(res@, t as u8);
            assert(radix_pow((i + 1) as nat) == 256 * p);
            assert(prefix_value(a@, (i + 1) as nat) == prefix_value(a@, i as nat) + da * p);
            assert(prefix_value(b@, (i + 1) as nat) == prefix_value(b@, i as nat) + db * p);
            let p1 = radix_pow((i + 1) as nat);
            assert(t * p - new_borrow * p1 + borrow * p == da * p - db * p) by (nonlinear_arith)
                requires
                    t == da - db - borrow + 256 * new_borrow,
                    p1 == 256 * p,
            ;
        }
        res.push(t as u8);
        borrow = new_borrow;
        i = i + 1;
    }
    proof {
        lemma_prefix_past_end(a@, n as nat);
        lemma_prefix_past_end(b@, n as nat);
        lemma_prefix_bound(res@, n as nat);
    }
    (res, borrow == 1)
}

impl Amount {
    /// The canonical numeral is kept: no most significant zero digit.
    #[verifier::type_invariant]
    spec fn canonical(&self) -> bool {
        is_canonical(self.digits@)
    }

    /// Zero.
    pub fn zero() -> (r: Amount)
        ensures
            r@ == 0,
    {
        Amount { digits: Vec::new() }
    }

    /// The amount `v`.
    pub fn from_u128(v: u128) -> (r: Amount)
        ensures
            r@ == v,
    {
        let mut rest: u128 = v;
        let mut digits: Vec<u8> = Vec::new();
        assert(radix_pow(0) == 1);
        assert(digits_value(digits@) == 0);
        assert(rest * radix_pow(0) == rest);
        while rest > 0
            invariant
                digits_value(digits@) + rest * radix_pow(digits.len() as nat) == v,
                rest > 0 || is_canonical(digits@),
            decreases rest,
        {
            let low: u8 = (rest % 256) as u8;
            let high: u128 = rest / 256;
            proof {
                let p = radix_pow(digits.len() as nat);
                lemma_push_value(digits@, low);
                let p1 = radix_pow((digits.len() + 1) as nat);
                assert(p1 == 256 * p);
                assert(low * p + high * p1 == rest * p) by (nonlinear_arith)
                    requires
                        rest == low + 256 * high,
                        p1 == 256 * p,
                ;
            }
            digits.push(low);
            rest = high;
        }
        Amount { digits }
    }

    /// The amount `v`.
    pub fn from_u64(v: u64) -> (r: Amount)
        ensures
            r@ == v,
    {
        Amount::from_u128(v as u128)
    }

    /// The amount written by `bytes`, most significant byte first.
    pub fn from_be_bytes(bytes: &[u8]) -> (r: Amount)
        ensures
            r@ == be_value(bytes@),
    {
        let mut digits: Vec<u8> = Vec::new();
        let n = bytes.len();
        let mut k: usize = 0;
        while k < n
            invariant
                n == bytes@.len(),
                k <= n,
                digits@ =~= bytes@.subrange(n - k, n as int).reverse(),
            decreases n - k,
        {
            digits.push(bytes[n - 1 - k]);
            k = k + 1;
        }
        proof {
            assert(bytes@.subrange(0, n as int) =~= bytes@);
            lemma_reverse_value(digits@);
            assert(digits@.reverse() =~= bytes@);
        }
        trim(&mut digits);
        Amount { digits }
    }

    /// The shortest big-endian byte string that writes this amount (empty for zero).
    pub fn to_be_bytes(&self) -> (r: Vec<u8>)
        ensures
            be_value(r@) == self@,
            r@.len() == 0 || r@[0] != 0,
    {
        proof {
            use_type_invariant(self);
        }
        let n = self.digits.len();
        let mut out: Vec<u8> = Vec::new();
        let mut k: usize = 0;
        while k < n
            invariant
                n == self.digits@.len(),
                k <= n,
                out@ =~= self.digits@.subrange(n - k, n as int).reverse(),
            decreases n - k,
        {
            out.push(self.digits[n - 1 - k]);
            k = k + 1;
        }
        proof {
            assert(self.digits@.subrange(0, n as int) =~= self.digits@);
            lemma_reverse_value(self.digits@);
        }
        out
    }

    /// Whether this amount is zero.
    pub fn is_zero(&self) -> (r: bool)
        ensures
            r == (self@ == 0),
    {
        proof {
            use_type_invariant(self);
            if self.digits@.len() > 0 {
                let d = self.digits@;
                let e = d.drop_last();
                assert(d =~= e.push(d.last()));
                lemma_push_value(e, d.last());
                lemma_radix_pow_positive(e.len());
                assert(d.last() * radix_pow(e.len()) >= 1) by (nonlinear_arith)
                    requires
                        d.last() >= 1,
                        radix_pow(e.len()) >= 1,
                ;
            }
        }
        self.digits.len() == 0
    }

    /// The sum of the two amounts.
    pub fn add(&self, other: &Amount) -> (r: Amount)
        ensures
            r@ == self@ + other@,
    {
        let a = &self.digits;
        let b = &other.digits;
        let n: usize = if a.len() >= b.len() {
            a.len()
        } else {
            b.len()
        };
        let mut res: Vec<u8> = Vec::new();
        let mut carry: u16 = 0;
        let mut i: usize = 0;
        while i < n
            invariant
                i <= n,
                n == if a.len() >= b.len() {
                    a.len()
                } else {
                    b.len()
                },
                res.len() == i,
                carry <= 1,
                digits_value(res@) + carry * radix_pow(i as nat) == prefix_value(a@, i as nat)
                    + prefix_value(b@, i as nat),
            decreases n - i,
        {
            let da: u16 = if i < a.len() {
                a[i] as u16
            } else {
                0
            };
            let db: u16 = if i < b.len() {
                b[i] as u16
            } else {
                0
            };
            assert(da == digit_at(a@, i as int));
            assert(db == digit_at(b@, i as int));
            let t: u16 = da + db + carry;
            let low: u8 = (t % 256) as u8;
            let high: u16 = t / 256;
            proof {
                let p = radix_pow(i as nat);
                lemma_push_value(res@, low);
                assert(radix_pow((i + 1) as nat) == 256 * p);
                assert(prefix_value(a@, (i + 1) as nat) == prefix_value(a@, i as nat) + da * p);
                assert(prefix_value(b@, (i + 1) as nat) == prefix_value(b@, i as nat) + db * p);
                let p1 = radix_pow((i + 1) as nat);
                assert(low * p + high * p1 - carry * p == da * p + db * p) by (nonlinear_arith)
                    requires
                        t == da + db + carry,
                        t == low + 256 * high,
                        p1 == 256 * p,
                ;
            }
            res.push(low);
            carry = high;
            i = i + 1;
        }
        proof {
            lemma_prefix_past_end(a@, n as nat);
            lemma_prefix_past_end(b@, n as nat);
        }
        if carry > 0 {
            proof {
                lemma_push_value(res@, 1u8);
            }
            res.push(1);
        }
        trim(&mut res);
        Amount { digits: res }
    }

    /// Whether this amount is smaller than `other`.
    pub fn lt(&self, other: &Amount) -> (r: bool)
        ensures
            r == (self@ < other@),
    {
        let (_, borrow) = sub_digits(&self.digits, &other.digits);
        borrow
    }

    /// Whether this amount is larger than `other`.
    pub fn gt(&self, other: &Amount) -> (r: bool)
        ensures
            r == (self@ > other@),
    {
        other.lt(self)
    }

    /// Whether the two amounts are the same number.
    pub fn equals(&self, other: &Amount) -> (r: bool)
        ensures
            r == (self@ == other@),
    {
        !self.lt(other) && !other.lt(self)
    }

    /// The difference `self - other`; the subtrahend may not exceed this amount.
    pub fn sub(&self, other: &Amount) -> (r: Amount)
        requires
            self@ >= other@,
        ensures
            r@ == self@ - other@,
    {
        let (mut digits, _) = sub_digits(&self.digits, &other.digits);
        trim(&mut digits);
        Amount { digits }
    }

    /// A copy of this amount.
    pub fn duplicate(&self) -> (r: Amount)
        ensures
            r@ == self@,
    {
        proof {
            use_type_invariant(self);
        }
        let digits = self.digits.clone();
        assert(digits@ =~= self.digits@);
        Amount { digits }
    }
}

impl Clone for Amount {
    fn clone(&self) -> (r: Amount)
        ensures
            r@ == self@,
    {
        self.duplicate()
    }
}

} // verus!
