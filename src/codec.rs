//! Field elements and their decimal text, the form that witness generators read.
use vstd::prelude::*;
use num_bigint::BigUint;
use num_traits::Num;

verus! {

/// Number of bytes in the canonical little-endian representation of an element.
pub const REPR_BYTES: usize = 32;

pub open spec fn is_digit(c: char) -> bool {
    '0' <= c && c <= '9'
}

pub open spec fn digit_value(c: char) -> nat {
    (c as int - '0' as int) as nat
}

pub open spec fn digit_char(d: nat) -> char {
    (d + 48) as char
}

pub open spec fn pow256(n: nat) -> nat
    decreases n,
{
    if n == 0 {
        1
    } else {
        256 * pow256((n - 1) as nat)
    }
}

/// The value of a little-endian byte sequence.
pub open spec fn le_value(b: Seq<u8>) -> nat
    decreases b.len(),
{
    if b.len() == 0 {
        0
    } else {
        le_value(b.drop_last()) + pow256((b.len() - 1) as nat) * (b.last() as nat)
    }
}

/// Base-10 text of `n`: no sign, no leading zeros, "0" for zero.
pub open spec fn decimal_text(n: nat) -> Seq<char>
    decreases n,
{
    if n < 10 {
        seq![digit_char(n)]
    } else {
        decimal_text(n / 10).push(digit_char(n % 10))
    }
}

/// A non-empty string of ASCII decimal digits.
pub open spec fn is_decimal(s: Seq<char>) -> bool {
    s.len() > 0 && forall|i: int| 0 <= i < s.len() ==> is_digit(#[trigger] s[i])
}

/// The value of a string of decimal digits.
pub open spec fn decimal_value(s: Seq<char>) -> nat
    decreases s.len(),
{
    if s.len() == 0 {
        0
    } else {
        decimal_value(s.drop_last()) * 10 + digit_value(s.last())
    }
}

/// A field element, held as its canonical little-endian bytes.
pub struct FieldElement {
    pub repr: Vec<u8>,
}

impl View for FieldElement {
    type V = nat;

    open spec fn view(&self) -> nat {
        le_value(self.repr@)
    }
}

impl FieldElement {
    pub open spec fn wf(&self) -> bool {
        self.repr@.len() == REPR_BYTES
    }

    /// The element's decimal text.
    pub fn to_decimal(&self) -> (r: String)
        requires
            self.wf(),
        ensures
            r@ == decimal_text(self@),
    {
        decimal_of_le_bytes(self.repr.as_slice())
    }

    /// Reads an element back from decimal text. Succeeds exactly on strings of
    /// decimal digits whose value fits in the representation.
    pub fn from_decimal(s: &str) -> (r: Option<FieldElement>)
        ensures
            r is Some <==> (is_decimal(s@) && decimal_value(s@) < pow256(REPR_BYTES as nat)),
            r matches Some(e) ==> e.wf() && e@ == decimal_value(s@),
    {
        if !is_decimal_str(s) {
            return None;
        }
        let v = match le_bytes_of_decimal(s) {
            Some(v) => v,
            None => return None,
        };
        let ghost val = decimal_value(s@);
        if v.len() <= REPR_BYTES {
            proof {
                lemma_le_bound(v@);
                lemma_pow_mono(v@.len(), REPR_BYTES as nat);
            }
            let mut out = v;
            while out.len() < REPR_BYTES
                invariant
                    le_value(out@) == val,
                    out.len() <= REPR_BYTES,
                decreases REPR_BYTES - out.len(),
            {
                proof {
                    lemma_push_zero(out@);
                }
                out.push(0);
            }
            Some(FieldElement { repr: out })
        } else {
            let mut i: usize = REPR_BYTES;
            while i < v.len()
                invariant
                    REPR_BYTES <= i <= v.len(),
                    le_value(v@) == decimal_value(s@),
                    forall|j: int| REPR_BYTES <= j < i ==> v@[j] == 0,
                decreases v.len() - i,
            {
                if v[i] != 0 {
                    proof {
                        let high = v@.subrange(REPR_BYTES as int, v@.len() as int);
                        assert(high[i - REPR_BYTES] == v@[i as int]);
                        assert(high[i - REPR_BYTES] != 0);
                        lemma_nonzero(high, i - REPR_BYTES);
                        lemma_split(v@, REPR_BYTES as nat);
                        assert(pow256(REPR_BYTES as nat) * le_value(high) >= pow256(
                            REPR_BYTES as nat,
                        )) by (nonlinear_arith)
                            requires
                                le_value(high) >= 1,
                        ;
                        assert(le_value(v@) >= pow256(REPR_BYTES as nat));
                        assert(decimal_value(s@) >= pow256(REPR_BYTES as nat));
                    }
                    return None;
                }
                i = i + 1;
            }
            let mut out: Vec<u8> = Vec::new();
            let mut k: usize = 0;
            while k < REPR_BYTES
                invariant
                    k <= REPR_BYTES < v.len(),
                    le_value(v@) == decimal_value(s@),
                    forall|j: int| REPR_BYTES <= j < v.len() ==> v@[j] == 0,
                    out@ == v@.subrange(0, k as int),
                decreases REPR_BYTES - k,
            {
                out.push(v[k]);
                k = k + 1;
            }
            proof {
                let high = v@.subrange(REPR_BYTES as int, v@.len() as int);
                lemma_zeros(high);
                lemma_split(v@, REPR_BYTES as nat);
                lemma_le_bound(out@);
            }
            Some(FieldElement { repr: out })
        }
    }
}

/// Whether every character of `s` is a decimal digit and there is at least one.
pub fn is_decimal_str(s: &str) -> (r: bool)
    ensures
        r == is_decimal(s@),
{
    let n = s.unicode_len();
    if n == 0 {
        return false;
    }
    let mut i: usize = 0;
    while i < n
        invariant
            n == s@.len(),
            i <= n,
            forall|j: int| 0 <= j < i ==> is_digit(#[trigger] s@[j]),
        decreases n - i,
    {
        let c = s.get_char(i);
        if c < '0' || c > '9' {
            return false;
        }
        i = i + 1;
    }
    true
}

/// Relies on num_bigint's `BigUint::from_bytes_le` and `BigUint::to_str_radix`:
/// the base-10 text of the value of little-endian bytes, without leading zeros.
#[verifier::external_body]
fn decimal_of_le_bytes(b: &[u8]) -> (r: String)
    ensures
        r@ == decimal_text(le_value(b@)),
{
    BigUint::from_bytes_le(b).to_str_radix(10)
}

/// Relies on num_traits' `Num::from_str_radix` for `BigUint`, which accepts every
/// non-empty string of decimal digits, and on `BigUint::to_bytes_le`.
#[verifier::external_body]
fn le_bytes_of_decimal(s: &str) -> (r: Option<Vec<u8>>)
    requires
        is_decimal(s@),
    ensures
        r is Some,
        le_value(r.unwrap()@) == decimal_value(s@),
{
    <BigUint as Num>::from_str_radix(s, 10).ok().map(|n| n.to_bytes_le())
}

pub proof fn lemma_pow_pos(n: nat)
    ensures
        pow256(n) >= 1,
    decreases n,
{
    if n > 0 {
        lemma_pow_pos((n - 1) as nat);
    }
}

pub proof fn lemma_pow_add(a: nat, b: nat)
    ensures
        pow256(a + b) == pow256(a) * pow256(b),
    decreases b,
{
    if b > 0 {
        let b1 = (b - 1) as nat;
        lemma_pow_add(a, b1);
        let pa = pow256(a);
        let pb1 = pow256(b1);
        assert(pow256(a + b1) == pa * pb1);
        assert(pow256(a + b) == 256 * pow256(a + b1));
        assert(pow256(b) == 256 * pb1);
        assert(pa * (256 * pb1) == 256 * (pa * pb1)) by (nonlinear_arith);
    } else {
        assert(pow256(b) == 1);
        assert(a + b == a);
    }
}

pub proof fn lemma_pow_mono(a: nat, b: nat)
    requires
        a <= b,
    ensures
        pow256(a) <= pow256(b),
{
    lemma_pow_add(a, (b - a) as nat);
    lemma_pow_pos((b - a) as nat);
    assert(pow256(a) * pow256((b - a) as nat) >= pow256(a)) by (nonlinear_arith)
        requires
            pow256((b - a) as nat) >= 1,
    ;
}

pub proof fn lemma_push_zero(b: Seq<u8>)
    ensures
        le_value(b.push(0)) == le_value(b),
{
    let c = b.push(0);
    assert(c.drop_last() =~= b);
    assert(c.last() == 0);
    assert(le_value(c) == le_value(c.drop_last()) + pow256((c.len() - 1) as nat) * (c.last() as nat));
}

pub proof fn lemma_le_bound(b: Seq<u8>)
    ensures
        le_value(b) < pow256(b.len()),
    decreases b.len(),
{
    if b.len() > 0 {
        let n = (b.len() - 1) as nat;
        lemma_le_bound(b.drop_last());
        let p = pow256(n);
        let l = b.last() as nat;
        assert(le_value(b.drop_last()) + p * l < 256 * p) by (nonlinear_arith)
            requires
                le_value(b.drop_last()) < p,
                l <= 255,
        ;
    }
}

pub proof fn lemma_zeros(b: Seq<u8>)
    requires
        forall|j: int| 0 <= j < b.len() ==> b[j] == 0,
    ensures
        le_value(b) == 0,
    decreases b.len(),
{
    if b.len() > 0 {
        lemma_zeros(b.drop_last());
    }
}

pub proof fn lemma_nonzero(b: Seq<u8>, i: int)
    requires
        0 <= i < b.len(),
        b[i] != 0,
    ensures
        le_value(b) >= 1,
    decreases b.len(),
{
    let n = (b.len() - 1) as nat;
    if i == n {
        lemma_pow_pos(n);
        let p = pow256(n);
        let l = b.last() as nat;
        assert(p * l >= 1) by (nonlinear_arith)
            requires
                p >= 1,
                l >= 1,
        ;
    } else {
        lemma_nonzero(b.drop_last(), i);
    }
}

/// The value of bytes splits at any position into low and high parts.
pub proof fn lemma_split(b: Seq<u8>, k: nat)
    requires
        k <= b.len(),
    ensures
        le_value(b) == le_value(b.subrange(0, k as int)) + pow256(k) * le_value(
            b.subrange(k as int, b.len() as int),
        ),
    decreases b.len(),
{
    if b.len() == k {
        assert(b.subrange(0, k as int) =~= b);
        assert(b.subrange(k as int, b.len() as int).len() == 0);
        assert(le_value(b.subrange(k as int, b.len() as int)) == 0);
        assert(pow256(k) * 0 == 0);
    } else {
        let n = (b.len() - 1) as nat;
        let init = b.drop_last();
        lemma_split(init, k);
        assert(init.subrange(0, k as int) =~= b.subrange(0, k as int));
        let high = b.subrange(k as int, b.len() as int);
        assert(high.drop_last() =~= init.subrange(k as int, init.len() as int));
        assert(high.last() == b.last());
        lemma_pow_add(k, (n - k) as nat);
        assert(k + (n - k) as nat == n);
        assert(pow256(n) == pow256(k) * pow256((n - k) as nat));
        let pk = pow256(k);
        let ph = pow256((n - k) as nat);
        let hi = le_value(init.subrange(k as int, init.len() as int));
        let l = b.last() as nat;
        assert(le_value(b) == le_value(init) + pow256(n) * l);
        assert(high.len() == n - k + 1);
        assert(le_value(high) == le_value(high.drop_last()) + ph * l);
        assert(pk * (hi + ph * l) == pk * hi + (pk * ph) * l) by (nonlinear_arith);
    }
}

/// The decimal text of a number is a string of digits that reads back as the number.
pub proof fn lemma_decimal_text(n: nat)
    ensures
        is_decimal(decimal_text(n)),
        decimal_value(decimal_text(n)) == n,
    decreases n,
{
    if n < 10 {
        let t = decimal_text(n);
        assert(t.drop_last() =~= Seq::<char>::empty());
        assert(decimal_value(t.drop_last()) == 0);
        assert(digit_value(digit_char(n)) == n);
        assert(is_digit(t[0]));
    } else {
        lemma_decimal_text(n / 10);
        let t = decimal_text(n);
        assert(t.drop_last() =~= decimal_text(n / 10));
        assert(digit_value(digit_char(n % 10)) == n % 10);
        assert(decimal_value(t) == decimal_value(t.drop_last()) * 10 + digit_value(t.last()));
        assert((n / 10) * 10 + n % 10 == n);
        assert forall|i: int| 0 <= i < t.len() implies is_digit(#[trigger] t[i]) by {
            if i < t.len() - 1 {
                assert(t[i] == decimal_text(n / 10)[i]);
            }
        }
    }
}

/// Decimal round trip: reading back the decimal text of any well-formed element,
/// the largest one included, succeeds and gives the same value.
pub proof fn lemma_decimal_round_trip(e: FieldElement)
    requires
        e.wf(),
    ensures
        is_decimal(decimal_text(e@)),
        decimal_value(decimal_text(e@)) == e@,
        e@ < pow256(REPR_BYTES as nat),
{
    lemma_decimal_text(e@);
    lemma_le_bound(e.repr@);
}

} // verus!
