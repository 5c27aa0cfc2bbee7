//! Decimal rendering and parsing of unsigned integers, the number format of
//! the token payload. `dec_digits` is the canonical (no leading zero) decimal
//! form; `dec_val` reads a digit string back. The lemmas establish that the
//! two are mutually inverse, which the payload codec's round trip rests on.
use vstd::prelude::*;

verus! {

/// A decimal digit byte.
pub open spec fn is_digit(b: u8) -> bool {
    0x30 <= b <= 0x39
}

pub open spec fn all_digits(s: Seq<u8>) -> bool {
    forall|i: int| 0 <= i < s.len() ==> is_digit(#[trigger] s[i])
}

/// Canonical decimal rendering of `n`: no leading zero, at least one digit.
pub open spec fn dec_digits(n: nat) -> Seq<u8>
    decreases n,
{
    if n < 10 {
        seq![(n + 0x30) as u8]
    } else {
        dec_digits(n / 10).push(((n % 10) + 0x30) as u8)
    }
}

/// Value of a digit string, most significant digit first.
pub open spec fn dec_val(s: Seq<u8>) -> nat
    decreases s.len(),
{
    if s.len() == 0 {
        0
    } else {
        dec_val(s.drop_last()) * 10 + ((s.last() - 0x30) as nat)
    }
}

/// `dec_digits(n)` is made of digits, is nonempty, and starts with '0'
/// only for n == 0 (in which case it is exactly "0").
pub proof fn lemma_dec_digits_wf(n: nat)
    ensures
        all_digits(dec_digits(n)),
        dec_digits(n).len() >= 1,
        dec_digits(n)[0] == 0x30 <==> n == 0,
        n == 0 ==> dec_digits(n).len() == 1,
    decreases n,
{
    if n < 10 {
    } else {
        lemma_dec_digits_wf(n / 10);
    }
}

/// Reading back the canonical rendering gives the number again.
pub proof fn lemma_dec_val_of_digits(n: nat)
    ensures
        dec_val(dec_digits(n)) == n,
    decreases n,
{
    if n < 10 {
        let s = dec_digits(n);
        assert(s.drop_last() =~= Seq::<u8>::empty());
        assert(dec_val(s.drop_last()) == 0);
        assert(s.last() == (n + 0x30) as u8);
        assert((s.last() - 0x30) as nat == n);
        assert(dec_val(s) == n);
    } else {
        lemma_dec_val_of_digits(n / 10);
        let s = dec_digits(n);
        assert(s == dec_digits(n / 10).push(((n % 10) + 0x30) as u8));
        assert(s.drop_last() =~= dec_digits(n / 10));
        assert(dec_val(s) == (n / 10) * 10 + n % 10);
        vstd::arithmetic::div_mod::lemma_fundamental_div_mod(n as int, 10);
    }
}

/// A nonempty digit string whose first digit is not '0' has value at least 1.
pub proof fn lemma_dec_val_pos(s: Seq<u8>)
    requires
        all_digits(s),
        s.len() >= 1,
        s[0] != 0x30,
    ensures
        dec_val(s) >= 1,
    decreases s.len(),
{
    if s.len() == 1 {
    } else {
        lemma_dec_val_pos(s.drop_last());
    }
}

/// A digit string without a leading zero is the canonical rendering of its
/// value: decimal rendering is injective on such strings.
pub proof fn lemma_digits_canonical(s: Seq<u8>)
    requires
        all_digits(s),
        s.len() >= 1,
        s[0] == 0x30 ==> s.len() == 1,
    ensures
        s == dec_digits(dec_val(s)),
    decreases s.len(),
{
    if s.len() == 1 {
        assert(is_digit(s[0]));
        assert(s.drop_last() =~= Seq::<u8>::empty());
        assert(dec_val(s.drop_last()) == 0);
        let v = dec_val(s);
        assert(s.last() == s[0]);
        assert(v == (s[0] - 0x30) as nat);
        assert((v + 0x30) as u8 == s[0]);
        assert(s =~= dec_digits(v));
    } else {
        let p = s.drop_last();
        let d = (s.last() - 0x30) as nat;
        lemma_digits_canonical(p);
        lemma_dec_val_pos(p);
        let v = dec_val(s);
        assert(v == dec_val(p) * 10 + d);
        assert(v >= 10) by {
            assert(dec_val(p) * 10 >= 10) by (nonlinear_arith)
                requires
                    dec_val(p) >= 1,
            ;
        }
        assert(v / 10 == dec_val(p) && v % 10 == d) by (nonlinear_arith)
            requires
                v == dec_val(p) * 10 + d,
                d < 10,
        ;
        assert(dec_digits(v) == dec_digits(v / 10).push(((v % 10) + 0x30) as u8));
        assert(dec_digits(v / 10) == p);
        assert(((v % 10) + 0x30) as u8 == s.last());
        assert(s =~= p.push(s.last()));
    }
}

/// Appends the canonical decimal rendering of `n` to `out`.
pub fn push_dec(out: &mut Vec<u8>, n: u64)
    ensures
        final(out)@ == old(out)@ + dec_digits(n as nat),
    decreases n,
{
    if n < 10 {
        out.push((n as u8) + 0x30);
        assert(out@ =~= old(out)@ + dec_digits(n as nat));
    } else {
        push_dec(out, n / 10);
        out.push(((n % 10) as u8) + 0x30);
        assert(out@ =~= old(out)@ + dec_digits(n as nat));
    }
}

} // verus!
