//! The claims payload format: a fixed-shape JSON object over decimal
//! integers and a two-valued kind string. `payload_bytes` is the canonical
//! serialization; `spec_parse_payload` is the parser at the specification
//! level, and the two are proved mutually inverse, so a byte string parses
//! exactly when it is the canonical serialization of some claims value.
use vstd::prelude::*;

use crate::num::{
    all_digits, dec_digits, dec_val, is_digit, lemma_dec_digits_wf, lemma_dec_val_of_digits,
    lemma_digits_canonical, push_dec,
};
use crate::token::{Claims, JwtKind};

verus! {

// The literal segments of the payload object, in order of appearance:
// `{"uid":U,"jti":J,"sub":"access","iat":I,"exp":E}`.
pub open spec fn lit_uid() -> Seq<u8> {
    seq![0x7bu8, 0x22u8, 0x75u8, 0x69u8, 0x64u8, 0x22u8, 0x3au8]
}

pub open spec fn lit_jti() -> Seq<u8> {
    seq![0x2cu8, 0x22u8, 0x6au8, 0x74u8, 0x69u8, 0x22u8, 0x3au8]
}

pub open spec fn lit_sub_access() -> Seq<u8> {
    seq![
        0x2cu8, 0x22u8, 0x73u8, 0x75u8, 0x62u8, 0x22u8, 0x3au8, 0x22u8, 0x61u8, 0x63u8,
        0x63u8, 0x65u8, 0x73u8, 0x73u8, 0x22u8, 0x2cu8, 0x22u8, 0x69u8, 0x61u8, 0x74u8,
        0x22u8, 0x3au8,
    ]
}

pub open spec fn lit_sub_refresh() -> Seq<u8> {
    seq![
        0x2cu8, 0x22u8, 0x73u8, 0x75u8, 0x62u8, 0x22u8, 0x3au8, 0x22u8, 0x72u8, 0x65u8,
        0x66u8, 0x72u8, 0x65u8, 0x73u8, 0x68u8, 0x22u8, 0x2cu8, 0x22u8, 0x69u8, 0x61u8,
        0x74u8, 0x22u8, 0x3au8,
    ]
}

pub open spec fn lit_exp() -> Seq<u8> {
    seq![0x2cu8, 0x22u8, 0x65u8, 0x78u8, 0x70u8, 0x22u8, 0x3au8]
}

pub open spec fn lit_end() -> Seq<u8> {
    seq![0x7du8]
}

pub open spec fn lit_sub(kind: JwtKind) -> Seq<u8> {
    match kind {
        JwtKind::Access => lit_sub_access(),
        JwtKind::Refresh => lit_sub_refresh(),
    }
}

/// The canonical serialization of a claims value.
pub open spec fn payload_bytes(c: Claims) -> Seq<u8> {
    lit_uid() + dec_digits(c.uid as nat) + lit_jti() + dec_digits(c.jti as nat) + lit_sub(c.sub)
        + dec_digits(c.iat as nat) + lit_exp() + dec_digits(c.exp as nat) + lit_end()
}

/// The literal `lit` stands in `s` at position `i`.
pub open spec fn match_at(s: Seq<u8>, i: int, lit: Seq<u8>) -> bool {
    0 <= i && i + lit.len() <= s.len() && s.subrange(i, i + lit.len()) == lit
}

/// The first position at or after `i` holding no decimal digit.
pub open spec fn digits_end(s: Seq<u8>, i: int) -> int
    decreases s.len() - i,
{
    if 0 <= i < s.len() && is_digit(s[i]) {
        digits_end(s, i + 1)
    } else {
        i
    }
}

/// Parses a canonical decimal number at position `i`: at least one digit,
/// no leading zero, value within `u64`. Returns the value and the position
/// after the digits.
pub open spec fn spec_parse_dec(s: Seq<u8>, i: int) -> Option<(u64, int)> {
    let e = digits_end(s, i);
    if e == i {
        None
    } else if s[i] == 0x30 && e > i + 1 {
        None
    } else if dec_val(s.subrange(i, e)) > u64::MAX {
        None
    } else {
        Some((dec_val(s.subrange(i, e)) as u64, e))
    }
}

/// Parses the kind string together with its surrounding literal text.
pub open spec fn spec_parse_sub(s: Seq<u8>, i: int) -> Option<(JwtKind, int)> {
    if match_at(s, i, lit_sub_access()) {
        Some((JwtKind::Access, i + lit_sub_access().len()))
    } else if match_at(s, i, lit_sub_refresh()) {
        Some((JwtKind::Refresh, i + lit_sub_refresh().len()))
    } else {
        None
    }
}

/// The payload parser: accepts exactly the canonical serializations.
pub open spec fn spec_parse_payload(s: Seq<u8>) -> Option<Claims> {
    if !match_at(s, 0, lit_uid()) {
        None
    } else {
        match spec_parse_dec(s, lit_uid().len() as int) {
            None => None,
            Some((uid, i2)) => {
                if !match_at(s, i2, lit_jti()) {
                    None
                } else {
                    match spec_parse_dec(s, i2 + lit_jti().len()) {
                        None => None,
                        Some((jti, i4)) => match spec_parse_sub(s, i4) {
                            None => None,
                            Some((sub, i5)) => match spec_parse_dec(s, i5) {
                                None => None,
                                Some((iat, i6)) => {
                                    if !match_at(s, i6, lit_exp()) {
                                        None
                                    } else {
                                        match spec_parse_dec(s, i6 + lit_exp().len()) {
                                            None => None,
                                            Some((exp, i8)) => {
                                                if i8 + 1 == s.len() && s[i8] == 0x7d {
                                                    Some(Claims { uid, jti, sub, iat, exp })
                                                } else {
                                                    None
                                                }
                                            },
                                        }
                                    }
                                },
                            },
                        },
                    }
                }
            },
        }
    }
}

/// `digits_end` runs to exactly `e` when the digits stop there.
proof fn lemma_digits_end_conf(s: Seq<u8>, i: int, e: int)
    requires
        0 <= i <= e <= s.len(),
        forall|j: int| i <= j < e ==> is_digit(#[trigger] s[j]),
        e == s.len() || !is_digit(s[e]),
    ensures
        digits_end(s, i) == e,
    decreases e - i,
{
    if i < e {
        lemma_digits_end_conf(s, i + 1, e);
    }
}

/// What holds of `digits_end` on any input.
proof fn lemma_digits_end(s: Seq<u8>, i: int)
    requires
        0 <= i <= s.len(),
    ensures
        i <= digits_end(s, i) <= s.len(),
        forall|j: int| i <= j < digits_end(s, i) ==> is_digit(#[trigger] s[j]),
        digits_end(s, i) < s.len() ==> !is_digit(s[digits_end(s, i)]),
    decreases s.len() - i,
{
    if i < s.len() && is_digit(s[i]) {
        lemma_digits_end(s, i + 1);
    }
}

/// A canonical number standing at `i`, followed by a non-digit, parses to
/// exactly its value, ending right after it.
pub proof fn lemma_parse_dec_here(s: Seq<u8>, i: int, n: u64)
    requires
        0 <= i,
        i + dec_digits(n as nat).len() <= s.len(),
        s.subrange(i, i + dec_digits(n as nat).len()) == dec_digits(n as nat),
        i + dec_digits(n as nat).len() == s.len() || !is_digit(
            s[i + dec_digits(n as nat).len()],
        ),
    ensures
        spec_parse_dec(s, i) == Some((n, i + dec_digits(n as nat).len())),
{
    let ds = dec_digits(n as nat);
    let e = i + ds.len();
    lemma_dec_digits_wf(n as nat);
    assert(forall|j: int| i <= j < e ==> is_digit(#[trigger] s[j])) by {
        assert(forall|j: int| i <= j < e ==> s[j] == ds[j - i] && is_digit(#[trigger] s[j]));
    }
    lemma_digits_end_conf(s, i, e);
    lemma_dec_val_of_digits(n as nat);
    assert(s[i] == ds[0]);
    if s[i] == 0x30 {
        assert(n == 0);
        assert(e == i + 1);
    }
}

/// Whatever a successful parse returns came from a canonical number.
pub proof fn lemma_parse_dec_sound(s: Seq<u8>, i: int, v: u64, e: int)
    requires
        0 <= i <= s.len(),
        spec_parse_dec(s, i) == Some((v, e)),
    ensures
        i < e <= s.len(),
        s.subrange(i, e) == dec_digits(v as nat),
        e == s.len() || !is_digit(s[e]),
{
    lemma_digits_end(s, i);
    assert(e == digits_end(s, i));
    let ds = s.subrange(i, e);
    assert(all_digits(ds)) by {
        assert(forall|k: int| 0 <= k < ds.len() ==> #[trigger] ds[k] == s[k + i]);
    }
    assert(ds[0] == s[i]);
    if ds[0] == 0x30 {
        assert(e == i + 1);
    }
    lemma_digits_canonical(ds);
    assert(dec_val(ds) == v as nat);
}

/// Round trip: the canonical serialization of any claims value parses back
/// to exactly that value.
pub proof fn lemma_payload_round_trip(c: Claims)
    ensures
        spec_parse_payload(payload_bytes(c)) == Some(c),
{
    let s = payload_bytes(c);
    let du = dec_digits(c.uid as nat);
    let dj = dec_digits(c.jti as nat);
    let di = dec_digits(c.iat as nat);
    let de = dec_digits(c.exp as nat);
    let i1 = lit_uid().len() as int;
    let i2 = i1 + du.len();
    let i3 = i2 + lit_jti().len();
    let i4 = i3 + dj.len();
    let i5 = i4 + lit_sub(c.sub).len();
    let i6 = i5 + di.len();
    let i7 = i6 + lit_exp().len();
    let i8 = i7 + de.len();
    assert(s.len() == i8 + 1);
    lemma_dec_digits_wf(c.uid as nat);
    lemma_dec_digits_wf(c.jti as nat);
    lemma_dec_digits_wf(c.iat as nat);
    lemma_dec_digits_wf(c.exp as nat);

    assert(s.subrange(0, i1) =~= lit_uid());
    assert(match_at(s, 0, lit_uid()));
    assert(s.subrange(i1, i2) =~= du);
    assert(!is_digit(s[i2]));
    lemma_parse_dec_here(s, i1, c.uid);
    assert(s.subrange(i2, i3) =~= lit_jti());
    assert(match_at(s, i2, lit_jti()));
    assert(s.subrange(i3, i4) =~= dj);
    assert(!is_digit(s[i4]));
    lemma_parse_dec_here(s, i3, c.jti);
    assert(s.subrange(i4, i5) =~= lit_sub(c.sub));
    match c.sub {
        JwtKind::Access => {
            assert(match_at(s, i4, lit_sub_access()));
        },
        JwtKind::Refresh => {
            assert(match_at(s, i4, lit_sub_refresh()));
            // The two kind literals differ where "refresh" and "access"
            // begin, so the access branch cannot also match.
            assert(lit_sub_access()[8] != lit_sub_refresh()[8]);
            assert(!match_at(s, i4, lit_sub_access())) by {
                if match_at(s, i4, lit_sub_access()) {
                    assert(s.subrange(i4, i4 + lit_sub_access().len())[8] == lit_sub_access()[8]);
                    assert(s.subrange(i4, i4 + lit_sub_refresh().len())[8] == lit_sub_refresh()[8]);
                    assert(s[i4 + 8] == lit_sub_access()[8]);
                    assert(s[i4 + 8] == lit_sub_refresh()[8]);
                }
            }
        },
    }
    assert(spec_parse_sub(s, i4) == Some((c.sub, i5)));
    assert(s.subrange(i5, i6) =~= di);
    assert(!is_digit(s[i6]));
    lemma_parse_dec_here(s, i5, c.iat);
    assert(s.subrange(i6, i7) =~= lit_exp());
    assert(match_at(s, i6, lit_exp()));
    assert(s.subrange(i7, i8) =~= de);
    assert(s[i8] == 0x7d);
    assert(!is_digit(s[i8]));
    lemma_parse_dec_here(s, i7, c.exp);
}

/// Soundness: whatever parses is the canonical serialization of its result.
pub proof fn lemma_payload_sound(s: Seq<u8>, c: Claims)
    requires
        spec_parse_payload(s) == Some(c),
    ensures
        s == payload_bytes(c),
{
    let i1 = lit_uid().len() as int;
    let r1 = spec_parse_dec(s, i1);
    let (uid, i2) = r1->Some_0;
    lemma_parse_dec_sound(s, i1, uid, i2);
    let i3 = i2 + lit_jti().len();
    let r2 = spec_parse_dec(s, i3);
    let (jti, i4) = r2->Some_0;
    lemma_parse_dec_sound(s, i3, jti, i4);
    let r3 = spec_parse_sub(s, i4);
    let (sub, i5) = r3->Some_0;
    let r4 = spec_parse_dec(s, i5);
    let (iat, i6) = r4->Some_0;
    lemma_parse_dec_sound(s, i5, iat, i6);
    let i7 = i6 + lit_exp().len();
    let r5 = spec_parse_dec(s, i7);
    let (exp, i8) = r5->Some_0;
    lemma_parse_dec_sound(s, i7, exp, i8);
    assert(c == Claims { uid, jti, sub, iat, exp });
    assert(s.len() == i8 + 1);
    assert(s =~= s.subrange(0, i1) + s.subrange(i1, i2) + s.subrange(i2, i3) + s.subrange(
        i3,
        i4,
    ) + s.subrange(i4, i5) + s.subrange(i5, i6) + s.subrange(i6, i7) + s.subrange(i7, i8)
        + s.subrange(i8, i8 + 1));
    assert(s.subrange(i4, i5) == lit_sub(sub));
    assert(s.subrange(i8, i8 + 1) =~= lit_end());
}

// ------------------------------------------------------------------
// Executable serialization and parsing.
fn lit_uid_vec() -> (r: Vec<u8>)
    ensures
        r@ == lit_uid(),
{
    let a: [u8; 7] = [0x7b, 0x22, 0x75, 0x69, 0x64, 0x22, 0x3a];
    let v = vstd::slice::slice_to_vec(a.as_slice());
    assert(a@ =~= lit_uid());
    v
}

fn lit_jti_vec() -> (r: Vec<u8>)
    ensures
        r@ == lit_jti(),
{
    let a: [u8; 7] = [0x2c, 0x22, 0x6a, 0x74, 0x69, 0x22, 0x3a];
    let v = vstd::slice::slice_to_vec(a.as_slice());
    assert(a@ =~= lit_jti());
    v
}

fn lit_sub_access_vec() -> (r: Vec<u8>)
    ensures
        r@ == lit_sub_access(),
{
    let a: [u8; 22] = [
        0x2c, 0x22, 0x73, 0x75, 0x62, 0x22, 0x3a, 0x22, 0x61, 0x63, 0x63, 0x65, 0x73, 0x73,
        0x22, 0x2c, 0x22, 0x69, 0x61, 0x74, 0x22, 0x3a,
    ];
    let v = vstd::slice::slice_to_vec(a.as_slice());
    assert(a@ =~= lit_sub_access());
    v
}

fn lit_sub_refresh_vec() -> (r: Vec<u8>)
    ensures
        r@ == lit_sub_refresh(),
{
    let a: [u8; 23] = [
        0x2c, 0x22, 0x73, 0x75, 0x62, 0x22, 0x3a, 0x22, 0x72, 0x65, 0x66, 0x72, 0x65, 0x73,
        0x68, 0x22, 0x2c, 0x22, 0x69, 0x61, 0x74, 0x22, 0x3a,
    ];
    let v = vstd::slice::slice_to_vec(a.as_slice());
    assert(a@ =~= lit_sub_refresh());
    v
}

fn lit_exp_vec() -> (r: Vec<u8>)
    ensures
        r@ == lit_exp(),
{
    let a: [u8; 7] = [0x2c, 0x22, 0x65, 0x78, 0x70, 0x22, 0x3a];
    let v = vstd::slice::slice_to_vec(a.as_slice());
    assert(a@ =~= lit_exp());
    v
}

/// Serializes `c` into its canonical payload bytes.
pub fn build_payload(c: &Claims) -> (r: Vec<u8>)
    ensures
        r@ == payload_bytes(*c),
{
    let mut out: Vec<u8> = Vec::new();
    let l1 = lit_uid_vec();
    out.extend_from_slice(l1.as_slice());
    push_dec(&mut out, c.uid);
    let l2 = lit_jti_vec();
    out.extend_from_slice(l2.as_slice());
    push_dec(&mut out, c.jti);
    let ls = match c.sub {
        JwtKind::Access => lit_sub_access_vec(),
        JwtKind::Refresh => lit_sub_refresh_vec(),
    };
    out.extend_from_slice(ls.as_slice());
    push_dec(&mut out, c.iat);
    let l3 = lit_exp_vec();
    out.extend_from_slice(l3.as_slice());
    push_dec(&mut out, c.exp);
    out.push(0x7d);
    assert(out@ =~= payload_bytes(*c));
    out
}

/// Does `lit` stand in `b` at position `i`?
fn match_lit(b: &Vec<u8>, i: usize, lit: &Vec<u8>) -> (r: bool)
    ensures
        r == match_at(b@, i as int, lit@),
{
    let n = b.len();
    if i > n || n - i < lit.len() {
        return false;
    }
    let mut j: usize = 0;
    while j < lit.len()
        invariant
            n == b@.len(),
            i + lit@.len() <= n,
            0 <= j <= lit@.len(),
            forall|k: int| 0 <= k < j ==> b@[i + k] == lit@[k],
        decreases lit@.len() - j,
    {
        if b[i + j] != lit[j] {
            assert(b@.subrange(i as int, i + lit@.len())[j as int] != lit@[j as int]);
            return false;
        }
        j += 1;
    }
    assert(b@.subrange(i as int, i + lit@.len()) =~= lit@);
    true
}

/// Parses a canonical decimal number at position `i` of `b`.
fn parse_dec(b: &Vec<u8>, i: usize) -> (r: Option<(u64, usize)>)
    requires
        i <= b@.len(),
    ensures
        match r {
            Some((v, e)) => spec_parse_dec(b@, i as int) == Some((v, e as int)),
            None => spec_parse_dec(b@, i as int) is None,
        },
{
    let n = b.len();
    let mut e: usize = i;
    while e < n && 0x30 <= b[e] && b[e] <= 0x39
        invariant
            i <= e <= n == b@.len(),
            forall|j: int| i <= j < e ==> is_digit(#[trigger] b@[j]),
        decreases n - e,
    {
        e += 1;
    }
    proof {
        lemma_digits_end_conf(b@, i as int, e as int);
    }
    if e == i {
        return None;
    }
    if b[i] == 0x30 && e > i + 1 {
        return None;
    }
    let ghost full = b@.subrange(i as int, e as int);
    let mut acc: u64 = 0;
    let mut j: usize = i;
    while j < e
        invariant
            i < e <= b@.len(),
            i <= j <= e,
            forall|k: int| i <= k < e ==> is_digit(#[trigger] b@[k]),
            full == b@.subrange(i as int, e as int),
            acc as nat == dec_val(b@.subrange(i as int, j as int)),
            digits_end(b@, i as int) == e as int,
            b@[i as int] == 0x30 ==> e == i + 1,
        decreases e - j,
    {
        let d = b[j] - 0x30;
        proof {
            assert(b@.subrange(i as int, j + 1).drop_last() =~= b@.subrange(i as int, j as int));
            assert(dec_val(b@.subrange(i as int, j + 1)) == acc as nat * 10 + d);
        }
        if acc > (u64::MAX - (d as u64)) / 10 {
            proof {
                vstd::arithmetic::div_mod::lemma_fundamental_div_mod(
                    (u64::MAX - (d as u64)) as int,
                    10,
                );
                assert(acc as nat * 10 + d > u64::MAX);
                lemma_dec_val_grows(b@, i as int, j + 1, e as int);
                assert(dec_val(b@.subrange(i as int, e as int)) >= dec_val(
                    b@.subrange(i as int, j + 1),
                ));
                assert(dec_val(b@.subrange(i as int, j + 1)) == acc as nat * 10 + d);
                assert(dec_val(b@.subrange(i as int, e as int)) > u64::MAX);
            }
            return None;
        }
        proof {
            vstd::arithmetic::div_mod::lemma_fundamental_div_mod(
                (u64::MAX - (d as u64)) as int,
                10,
            );
            assert(acc as nat * 10 + d <= u64::MAX);
        }
        acc = acc * 10 + (d as u64);
        j += 1;
    }
    assert(acc as nat == dec_val(full));
    Some((acc, e))
}

/// Extending a digit run never shrinks its value.
proof fn lemma_dec_val_grows(s: Seq<u8>, i: int, j: int, e: int)
    requires
        0 <= i <= j <= e <= s.len(),
        forall|k: int| i <= k < e ==> is_digit(#[trigger] s[k]),
    ensures
        dec_val(s.subrange(i, e)) >= dec_val(s.subrange(i, j)),
    decreases e - j,
{
    if j < e {
        assert(s.subrange(i, j + 1).drop_last() =~= s.subrange(i, j));
        assert(dec_val(s.subrange(i, j + 1)) == dec_val(s.subrange(i, j)) * 10 + (
        (s[j] - 0x30) as nat));
        lemma_dec_val_grows(s, i, j + 1, e);
    } else {
        assert(s.subrange(i, e) =~= s.subrange(i, j));
    }
}

/// Parses the kind string with its surrounding literal text.
fn parse_sub(b: &Vec<u8>, i: usize) -> (r: Option<(JwtKind, usize)>)
    requires
        i <= b@.len(),
    ensures
        match r {
            Some((k, e)) => spec_parse_sub(b@, i as int) == Some((k, e as int)),
            None => spec_parse_sub(b@, i as int) is None,
        },
{
    let n = b.len();
    let la = lit_sub_access_vec();
    if match_lit(b, i, &la) {
        assert(i + la@.len() <= n);
        return Some((JwtKind::Access, i + la.len()));
    }
    let lr = lit_sub_refresh_vec();
    if match_lit(b, i, &lr) {
        assert(i + lr@.len() <= n);
        return Some((JwtKind::Refresh, i + lr.len()));
    }
    None
}

/// Parses payload bytes; accepts exactly the canonical serializations.
pub fn parse_payload(b: &Vec<u8>) -> (r: Option<Claims>)
    ensures
        r == spec_parse_payload(b@),
{
    let n = b.len();
    let lu = lit_uid_vec();
    if !match_lit(b, 0, &lu) {
        return None;
    }
    let i1 = lu.len();
    let (uid, i2) = match parse_dec(b, i1) {
        Some(p) => p,
        None => {
            return None;
        },
    };
    proof {
        lemma_parse_dec_sound(b@, i1 as int, uid, i2 as int);
    }
    let lj = lit_jti_vec();
    if !match_lit(b, i2, &lj) {
        return None;
    }
    assert(i2 + lj@.len() <= n);
    let i3 = i2 + lj.len();
    let (jti, i4) = match parse_dec(b, i3) {
        Some(p) => p,
        None => {
            return None;
        },
    };
    proof {
        lemma_parse_dec_sound(b@, i3 as int, jti, i4 as int);
    }
    let (sub, i5) = match parse_sub(b, i4) {
        Some(p) => p,
        None => {
            return None;
        },
    };
    let (iat, i6) = match parse_dec(b, i5) {
        Some(p) => p,
        None => {
            return None;
        },
    };
    proof {
        lemma_parse_dec_sound(b@, i5 as int, iat, i6 as int);
    }
    let le = lit_exp_vec();
    if !match_lit(b, i6, &le) {
        return None;
    }
    assert(i6 + le@.len() <= n);
    let i7 = i6 + le.len();
    let (exp, i8) = match parse_dec(b, i7) {
        Some(p) => p,
        None => {
            return None;
        },
    };
    proof {
        lemma_parse_dec_sound(b@, i7 as int, exp, i8 as int);
    }
    if i8 < b.len() && b.len() - i8 == 1 && b[i8] == 0x7d {
        Some(Claims { uid, jti, sub, iat, exp })
    } else {
        None
    }
}

} // verus!
