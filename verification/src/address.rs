//! Network addresses: a public key rendered as a prefixed base-58 string.
//!
//! An address is the owner's public key in base-58 check form — the key
//! followed by four bytes of its double SHA-256 digest, converted to the
//! base-58 alphabet with one leading `1` per leading zero byte — behind a
//! `ZEI_` prefix.  Decoding accepts a string exactly when re-encoding its
//! decoded key reproduces the string, so a decoded key is always the key
//! the address was made from.

use vstd::prelude::*;

verus! {

use crate::bytes::{concat_bytes, sub_bytes};
use crate::curve::{sha256, sha256_of};
use crate::errors::Error;

/// The base-58 alphabet: digits and letters without `0`, `O`, `I` and `l`.
pub open spec fn b58_alphabet_of() -> Seq<u8> {
    seq![
        49u8, 50u8, 51u8, 52u8, 53u8, 54u8, 55u8, 56u8, 57u8, 65u8, 66u8, 67u8, 68u8, 69u8,
        70u8, 71u8, 72u8, 74u8, 75u8, 76u8, 77u8, 78u8, 80u8, 81u8, 82u8, 83u8, 84u8, 85u8,
        86u8, 87u8, 88u8, 89u8, 90u8, 97u8, 98u8, 99u8, 100u8, 101u8, 102u8, 103u8, 104u8,
        105u8, 106u8, 107u8, 109u8, 110u8, 111u8, 112u8, 113u8, 114u8, 115u8, 116u8, 117u8,
        118u8, 119u8, 120u8, 121u8, 122u8,
    ]
}

/// One long-division step: divides the big-endian number by 58, returning
/// the quotient digits and the remainder carried out.
pub open spec fn divmod58_of(s: Seq<u8>, carry: int) -> (Seq<u8>, int)
    decreases s.len(),
{
    if s.len() == 0 {
        (Seq::<u8>::empty(), carry)
    } else {
        let t = carry * 256 + s[0];
        let rest = divmod58_of(s.skip(1), t % 58);
        (seq![(t / 58) as u8] + rest.0, rest.1)
    }
}

/// The base-58 digits of the big-endian number, least significant first,
/// over `k` division rounds.
pub open spec fn b58_digits_k_of(s: Seq<u8>, k: nat) -> Seq<u8>
    decreases k,
{
    if k == 0 {
        Seq::<u8>::empty()
    } else {
        let step = divmod58_of(s, 0);
        seq![step.1 as u8] + b58_digits_k_of(step.0, (k - 1) as nat)
    }
}

/// Drops leading zero entries.
pub open spec fn strip_zeros_of(s: Seq<u8>) -> Seq<u8>
    decreases s.len(),
{
    if s.len() == 0 || s[0] != 0 {
        s
    } else {
        strip_zeros_of(s.skip(1))
    }
}

/// The number of leading zero bytes.
pub open spec fn leading_zeros_of(s: Seq<u8>) -> int
    decreases s.len(),
{
    if s.len() == 0 || s[0] != 0 {
        0
    } else {
        1 + leading_zeros_of(s.skip(1))
    }
}

/// Division rounds enough to exhaust a 36-byte number.
pub const B58_ROUNDS: usize = 50;

/// The base-58 check form of a payload: one `1` per leading zero byte of
/// the payload-and-checksum, then the stripped digits in the alphabet,
/// most significant first.
pub open spec fn b58check_of(payload: Seq<u8>) -> Seq<u8> {
    let data = payload + sha256_of(sha256_of(payload)).subrange(0, 4);
    let digits = strip_zeros_of(b58_digits_k_of(data, B58_ROUNDS as nat).reverse());
    Seq::new(leading_zeros_of(data) as nat, |i: int| 49u8) + Seq::new(
        digits.len(),
        |i: int| b58_alphabet_of()[digits[i] as int],
    )
}

/// The address bytes of a public key: the `ZEI_` prefix before the base-58
/// check form.
pub open spec fn address_of(pk: Seq<u8>) -> Seq<u8> {
    seq![90u8, 69u8, 73u8, 95u8] + b58check_of(pk)
}

/// The UTF-8 bytes of a character sequence.
pub uninterp spec fn utf8_of(s: Seq<char>) -> Seq<u8>;

/// An account address: its encoded public key.
pub type Address = String;

/// One long-division step over the byte vector.
fn divmod58(num: &Vec<u8>) -> (r: (Vec<u8>, u8))
    ensures
        (r.0@, r.1 as int) == divmod58_of(num@, 0),
        r.0@.len() == num@.len(),
        r.1 < 58,
{
    let mut q: Vec<u8> = Vec::new();
    let mut carry: u32 = 0;
    let mut i: usize = 0;
    let ghost whole = divmod58_of(num@, 0);
    proof {
        assert(num@.skip(0) =~= num@);
    }
    while i < num.len()
        invariant
            i <= num@.len(),
            q@.len() == i as int,
            carry < 58,
            whole == divmod58_of(num@, 0),
            whole.0 == q@ + divmod58_of(num@.skip(i as int), carry as int).0,
            whole.1 == divmod58_of(num@.skip(i as int), carry as int).1,
        decreases num.len() - i,
    {
        let t: u32 = carry * 256 + (num[i] as u32);
        let d: u8 = (t / 58) as u8;
        let ghost prev_q = q@;
        let ghost prev_carry = carry as int;
        q.push(d);
        carry = t % 58;
        proof {
            let s = num@.skip(i as int);
            assert(s[0] == num@[i as int]);
            assert(s.skip(1) =~= num@.skip(i + 1));
            let t_spec = prev_carry * 256 + s[0];
            assert(t_spec == t as int);
            let rest = divmod58_of(num@.skip(i + 1), t_spec % 58);
            assert(divmod58_of(s, prev_carry) == ((seq![(t_spec / 58) as u8] + rest.0, rest.1)));
            assert(prev_q + (seq![(t_spec / 58) as u8] + rest.0) =~= q@ + rest.0);
        }
        i += 1;
    }
    proof {
        assert(num@.skip(num@.len() as int) =~= Seq::<u8>::empty());
        assert(q@ + Seq::<u8>::empty() =~= q@);
    }
    (q, carry as u8)
}

/// The base-58 digits of the byte vector, least significant first.
fn b58_digits(data: &Vec<u8>) -> (r: Vec<u8>)
    requires
        data@.len() <= 64,
    ensures
        r@ == b58_digits_k_of(data@, B58_ROUNDS as nat),
        r@.len() == B58_ROUNDS,
        forall|i: int| 0 <= i < r@.len() ==> r@[i] < 58,
{
    let mut digits: Vec<u8> = Vec::new();
    let mut num = data.clone();
    let mut k: usize = 0;
    let ghost whole = b58_digits_k_of(data@, B58_ROUNDS as nat);
    while k < B58_ROUNDS
        invariant
            k <= B58_ROUNDS,
            digits@.len() == k as int,
            whole == b58_digits_k_of(data@, B58_ROUNDS as nat),
            whole =~= digits@ + b58_digits_k_of(num@, (B58_ROUNDS - k) as nat),
            forall|i: int| 0 <= i < digits@.len() ==> digits@[i] < 58,
        decreases B58_ROUNDS - k,
    {
        let ghost prev_digits = digits@;
        let ghost prev_num = num@;
        let (q, rem) = divmod58(&num);
        digits.push(rem);
        num = q;
        proof {
            let step = divmod58_of(prev_num, 0);
            assert(b58_digits_k_of(prev_num, (B58_ROUNDS - k) as nat) == seq![step.1 as u8]
                + b58_digits_k_of(step.0, (B58_ROUNDS - k - 1) as nat));
            assert(prev_digits + (seq![rem] + b58_digits_k_of(num@, (B58_ROUNDS - k - 1) as nat))
                =~= digits@ + b58_digits_k_of(num@, (B58_ROUNDS - k - 1) as nat));
        }
        k += 1;
    }
    proof {
        assert(b58_digits_k_of(num@, 0) =~= Seq::<u8>::empty());
        assert(digits@ + Seq::<u8>::empty() =~= digits@);
        assert(whole =~= digits@);
    }
    digits
}

/// The alphabet as bytes.
fn b58_alphabet() -> (r: Vec<u8>)
    ensures
        r@ == b58_alphabet_of(),
        r@.len() == 58,
{
    let mut v: Vec<u8> = Vec::new();
    v.push(49u8);
    v.push(50u8);
    v.push(51u8);
    v.push(52u8);
    v.push(53u8);
    v.push(54u8);
    v.push(55u8);
    v.push(56u8);
    v.push(57u8);
    v.push(65u8);
    v.push(66u8);
    v.push(67u8);
    v.push(68u8);
    v.push(69u8);
    v.push(70u8);
    v.push(71u8);
    v.push(72u8);
    v.push(74u8);
    v.push(75u8);
    v.push(76u8);
    v.push(77u8);
    v.push(78u8);
    v.push(80u8);
    v.push(81u8);
    v.push(82u8);
    v.push(83u8);
    v.push(84u8);
    v.push(85u8);
    v.push(86u8);
    v.push(87u8);
    v.push(88u8);
    v.push(89u8);
    v.push(90u8);
    v.push(97u8);
    v.push(98u8);
    v.push(99u8);
    v.push(100u8);
    v.push(101u8);
    v.push(102u8);
    v.push(103u8);
    v.push(104u8);
    v.push(105u8);
    v.push(106u8);
    v.push(107u8);
    v.push(109u8);
    v.push(110u8);
    v.push(111u8);
    v.push(112u8);
    v.push(113u8);
    v.push(114u8);
    v.push(115u8);
    v.push(116u8);
    v.push(117u8);
    v.push(118u8);
    v.push(119u8);
    v.push(120u8);
    v.push(121u8);
    v.push(122u8);
    proof {
        assert(v@ =~= b58_alphabet_of());
    }
    v
}

/// The base-58 check encoding of a payload, as ASCII bytes.
fn b58check_encode(payload: &Vec<u8>) -> (r: Vec<u8>)
    requires
        payload@.len() <= 60,
    ensures
        r@ == b58check_of(payload@),
{
    let check_full = sha256(&sha256(payload));
    let check = sub_bytes(&check_full, 0, 4);
    let data = concat_bytes(payload, &check);
    let ghost dv = data@;
    let digits_lsf = b58_digits(&data);
    // most significant first
    let mut digits: Vec<u8> = Vec::new();
    let mut i: usize = digits_lsf.len();
    while i > 0
        invariant
            i <= digits_lsf@.len(),
            digits@.len() == digits_lsf@.len() - i,
            forall|j: int| 0 <= j < digits@.len() ==> digits@[j] == digits_lsf@.reverse()[j],
            forall|j: int| 0 <= j < digits_lsf@.len() ==> digits_lsf@[j] < 58,
        decreases i,
    {
        i -= 1;
        digits.push(digits_lsf[i]);
    }
    proof {
        assert(digits@ =~= digits_lsf@.reverse());
    }
    // skip leading zero digits
    let mut start: usize = 0;
    while start < digits.len() && digits[start] == 0
        invariant
            start <= digits@.len(),
            forall|j: int| 0 <= j < start ==> digits@[j] == 0,
            forall|j: int| 0 <= j < digits@.len() ==> digits@[j] < 58,
        decreases digits.len() - start,
    {
        start += 1;
    }
    proof {
        lemma_strip_zeros(digits@, start as int);
    }
    let stripped = sub_bytes(&digits, start, digits.len());
    // one leading alphabet zero per leading zero byte
    let mut out: Vec<u8> = Vec::new();
    let mut z: usize = 0;
    while z < data.len() && data[z] == 0
        invariant
            z <= data@.len(),
            data@ == dv,
            forall|j: int| 0 <= j < z ==> data@[j] == 0,
            out@.len() == z as int,
            forall|j: int| 0 <= j < z ==> out@[j] == 49u8,
        decreases data.len() - z,
    {
        out.push(49u8);
        z += 1;
    }
    proof {
        lemma_leading_zeros(dv, z as int);
        assert(out@ =~= Seq::new(leading_zeros_of(dv) as nat, |i: int| 49u8));
    }
    let alphabet = b58_alphabet();
    let mut j: usize = 0;
    let ghost head = out@;
    while j < stripped.len()
        invariant
            j <= stripped@.len(),
            out@.len() == head.len() + j,
            alphabet@ == b58_alphabet_of(),
            forall|i: int| 0 <= i < stripped@.len() ==> stripped@[i] < 58,
            forall|i: int| 0 <= i < head.len() ==> out@[i] == head[i],
            forall|i: int|
                0 <= i < j ==> out@[head.len() + i] == b58_alphabet_of()[stripped@[i] as int],
        decreases stripped.len() - j,
    {
        out.push(alphabet[stripped[j] as usize]);
        j += 1;
    }
    proof {
        assert(out@ =~= head + Seq::new(
            stripped@.len(),
            |i: int| b58_alphabet_of()[stripped@[i] as int],
        ));
        assert(out@ =~= b58check_of(payload@));
    }
    out
}

/// Leading zeros of a sequence whose first `z` entries are zero and whose
/// entry at `z`, if any, is not.
proof fn lemma_leading_zeros(s: Seq<u8>, z: int)
    requires
        0 <= z <= s.len(),
        forall|j: int| 0 <= j < z ==> s[j] == 0,
        z < s.len() ==> s[z] != 0,
    ensures
        leading_zeros_of(s) == z,
    decreases z,
{
    if z == 0 {
    } else {
        assert(s[0] == 0);
        lemma_leading_zeros(s.skip(1), z - 1);
    }
}

/// Stripping zeros drops exactly the leading zero entries.
proof fn lemma_strip_zeros(s: Seq<u8>, z: int)
    requires
        0 <= z <= s.len(),
        forall|j: int| 0 <= j < z ==> s[j] == 0,
        z < s.len() ==> s[z] != 0,
    ensures
        strip_zeros_of(s) =~= s.subrange(z, s.len() as int),
    decreases z,
{
    if z == 0 {
        assert(s.subrange(0, s.len() as int) =~= s);
    } else {
        assert(s[0] == 0);
        lemma_strip_zeros(s.skip(1), z - 1);
        assert(s.skip(1).subrange(z - 1, s.skip(1).len() as int) =~= s.subrange(z, s.len() as int));
    }
}


/// The first alphabet index holding `c`, scanning from `j`; 58 when none.
pub open spec fn b58_index_of(c: u8, j: int) -> int
    decreases 58 - j,
{
    if j < 0 || j >= 58 {
        58
    } else if b58_alphabet_of()[j] == c {
        j
    } else {
        b58_index_of(c, j + 1)
    }
}

/// One multiply-by-58-and-add step over a fixed-width big-endian number:
/// the updated bytes and the carry out of the top.
pub open spec fn mul58_of(s: Seq<u8>, carry: int) -> (Seq<u8>, int)
    decreases s.len(),
{
    if s.len() == 0 {
        (Seq::<u8>::empty(), carry)
    } else {
        let t = s.last() * 58 + carry;
        let rest = mul58_of(s.drop_last(), t / 256);
        (rest.0.push((t % 256) as u8), rest.1)
    }
}

/// Folding address characters into a fixed-width number: look each one up
/// in the alphabet, multiply the number by 58 and add the digit; an unknown
/// character or a carry out of the top refuses the string.
pub open spec fn decode_fold_of(chars: Seq<u8>, acc: Seq<u8>) -> Option<Seq<u8>>
    decreases chars.len(),
{
    if chars.len() == 0 {
        Some(acc)
    } else {
        let d = b58_index_of(chars[0], 0);
        if d >= 58 {
            None
        } else {
            let step = mul58_of(acc, d);
            if step.1 != 0 {
                None
            } else {
                decode_fold_of(chars.skip(1), step.0)
            }
        }
    }
}

/// The 36-byte number a candidate address's digits fold into, if they do.
pub open spec fn decode_candidate_of(b: Seq<u8>) -> Option<Seq<u8>> {
    decode_fold_of(b.subrange(4, b.len() as int), Seq::new(36, |i: int| 0u8))
}

/// The first alphabet index holding `c`, or 58 when `c` is no alphabet
/// character.
fn b58_index(alphabet: &Vec<u8>, c: u8) -> (r: u8)
    requires
        alphabet@ == b58_alphabet_of(),
    ensures
        r as int == b58_index_of(c, 0),
        r <= 58,
{
    let mut j: usize = 0;
    while j < 58
        invariant
            j <= 58,
            alphabet@ == b58_alphabet_of(),
            alphabet@.len() == 58,
            b58_index_of(c, 0) == b58_index_of(c, j as int),
        decreases 58 - j,
    {
        if alphabet[j] == c {
            proof {
                assert(b58_index_of(c, j as int) == j as int);
            }
            return j as u8;
        }
        proof {
            assert(b58_index_of(c, j as int) == b58_index_of(c, j + 1));
        }
        j += 1;
    }
    proof {
        assert(b58_index_of(c, 58) == 58);
    }
    58
}

/// Multiplies the fixed-width big-endian number by 58 and adds `d` in
/// place; reports the carry out of the top.
fn mul58_add(num: &mut Vec<u8>, d: u8) -> (overflow: bool)
    ensures
        final(num)@ == mul58_of(old(num)@, d as int).0,
        final(num)@.len() == old(num)@.len(),
        overflow == (mul58_of(old(num)@, d as int).1 != 0),
{
    let ghost orig = num@;
    let len = num.len();
    let mut carry: u32 = d as u32;
    let mut k: usize = len;
    proof {
        assert(orig.subrange(0, len as int) =~= orig);
        assert(num@.subrange(len as int, len as int) =~= Seq::<u8>::empty());
        assert(mul58_of(orig, d as int).0 =~= mul58_of(orig, d as int).0 + Seq::<u8>::empty());
    }
    while k > 0
        invariant
            k <= len,
            num@.len() == len,
            orig.len() == len,
            carry < 15000,
            num@.subrange(0, k as int) == orig.subrange(0, k as int),
            mul58_of(orig, d as int).0 == mul58_of(orig.subrange(0, k as int), carry as int).0
                + num@.subrange(k as int, len as int),
            mul58_of(orig, d as int).1 == mul58_of(orig.subrange(0, k as int), carry as int).1,
        decreases k,
    {
        let ghost prev = num@;
        let ghost carry_in = carry as int;
        k -= 1;
        let t: u32 = (num[k] as u32) * 58 + carry;
        num[k] = (t % 256) as u8;
        carry = t / 256;
        proof {
            let kk = k as int;
            let s = orig.subrange(0, kk + 1);
            assert(s.last() == orig[kk]);
            assert(s.drop_last() =~= orig.subrange(0, kk));
            assert(prev[kk] == orig[kk]);
            let t_spec = s.last() * 58 + carry_in;
            assert(t_spec == t as int);
            let rest = mul58_of(orig.subrange(0, kk), t_spec / 256);
            assert(mul58_of(s, carry_in) == ((rest.0.push((t_spec % 256) as u8), rest.1)));
            assert(num@.subrange(0, kk) =~= orig.subrange(0, kk));
            assert(num@.subrange(kk, len as int) =~= seq![(t_spec % 256) as u8] + prev.subrange(
                kk + 1,
                len as int,
            ));
            assert(rest.0.push((t_spec % 256) as u8) + prev.subrange(kk + 1, len as int)
                =~= rest.0 + num@.subrange(kk, len as int));
        }
    }
    proof {
        assert(orig.subrange(0, 0) =~= Seq::<u8>::empty());
        assert(Seq::<u8>::empty() + num@.subrange(0, len as int) =~= num@);
        assert(num@.subrange(0, len as int) =~= num@);
    }
    carry != 0
}

/// Relies on std `String::from_utf8`: ASCII bytes become the string with
/// those characters, and that string's UTF-8 bytes are the given ones.
#[verifier::external_body]
fn ascii_to_string(b: Vec<u8>) -> (r: String)
    requires
        forall|i: int| 0 <= i < b@.len() ==> b@[i] < 128,
    ensures
        r@ == Seq::new(b@.len(), |i: int| b@[i] as char),
        utf8_of(r@) == b@,
{
    String::from_utf8(b).unwrap()
}

/// Relies on std `str::as_bytes`: the UTF-8 bytes of the string, a function
/// of its characters alone.
#[verifier::external_body]
fn string_to_bytes(s: &String) -> (r: Vec<u8>)
    ensures
        r@ == utf8_of(s@),
{
    s.as_bytes().to_vec()
}

/// Every alphabet byte is ASCII.
proof fn lemma_alphabet_ascii()
    ensures
        forall|d: int| 0 <= d < 58 ==> b58_alphabet_of()[d] < 128,
{
    assert forall|d: int| 0 <= d < 58 implies b58_alphabet_of()[d] < 128 by {
        if d < 29 {
            assert(b58_alphabet_of()[d] < 128);
        } else {
            assert(b58_alphabet_of()[d] < 128);
        }
    }
}

/// The carried-out remainder of a division step stays below 58.
proof fn lemma_divmod58_rem(s: Seq<u8>, carry: int)
    requires
        0 <= carry < 58,
    ensures
        0 <= divmod58_of(s, carry).1 < 58,
    decreases s.len(),
{
    if s.len() > 0 {
        let t = carry * 256 + s[0];
        lemma_divmod58_rem(s.skip(1), t % 58);
    }
}

/// Every digit of the division chain is below 58.
proof fn lemma_digits_bounded(s: Seq<u8>, k: nat)
    ensures
        forall|i: int| 0 <= i < b58_digits_k_of(s, k).len() ==> b58_digits_k_of(s, k)[i] < 58,
    decreases k,
{
    if k > 0 {
        let step = divmod58_of(s, 0);
        lemma_divmod58_rem(s, 0);
        lemma_digits_bounded(step.0, (k - 1) as nat);
        assert forall|i: int| 0 <= i < b58_digits_k_of(s, k).len() implies b58_digits_k_of(
            s,
            k,
        )[i] < 58 by {
            if i > 0 {
                assert(b58_digits_k_of(s, k)[i] == b58_digits_k_of(step.0, (k - 1) as nat)[i - 1]);
            }
        }
    }
}

/// Stripping zeros keeps a bound on the entries.
proof fn lemma_strip_bounded(s: Seq<u8>)
    requires
        forall|i: int| 0 <= i < s.len() ==> s[i] < 58,
    ensures
        forall|i: int| 0 <= i < strip_zeros_of(s).len() ==> strip_zeros_of(s)[i] < 58,
    decreases s.len(),
{
    if s.len() > 0 && s[0] == 0 {
        assert forall|i: int| 0 <= i < s.skip(1).len() implies s.skip(1)[i] < 58 by {
            assert(s.skip(1)[i] == s[i + 1]);
        }
        lemma_strip_bounded(s.skip(1));
        assert(strip_zeros_of(s) == strip_zeros_of(s.skip(1)));
        assert forall|i: int| 0 <= i < strip_zeros_of(s).len() implies strip_zeros_of(s)[i]
            < 58 by {
            assert(strip_zeros_of(s.skip(1))[i] < 58);
        }
    }
}

/// A leading-zero count is never negative.
proof fn lemma_leading_zeros_nonneg(s: Seq<u8>)
    ensures
        leading_zeros_of(s) >= 0,
    decreases s.len(),
{
    if s.len() > 0 && s[0] == 0 {
        lemma_leading_zeros_nonneg(s.skip(1));
    }
}

/// Every byte of an address is ASCII.
proof fn lemma_address_ascii(pk: Seq<u8>)
    ensures
        forall|i: int| 0 <= i < address_of(pk).len() ==> address_of(pk)[i] < 128,
{
    lemma_alphabet_ascii();
    let data = pk + sha256_of(sha256_of(pk)).subrange(0, 4);
    lemma_leading_zeros_nonneg(data);
    let raw = b58_digits_k_of(data, B58_ROUNDS as nat);
    lemma_digits_bounded(data, B58_ROUNDS as nat);
    assert(forall|i: int| 0 <= i < raw.reverse().len() ==> #[trigger] raw.reverse()[i] < 58);
    lemma_strip_bounded(raw.reverse());
    let digits = strip_zeros_of(raw.reverse());
    assert forall|i: int| 0 <= i < address_of(pk).len() implies address_of(pk)[i] < 128 by {
        let a = address_of(pk);
        if i >= 4 {
            let c = b58check_of(pk);
            assert(a[i] == c[i - 4]);
            let lz = leading_zeros_of(data);
            if i - 4 >= lz {
                assert(c[i - 4] == b58_alphabet_of()[digits[i - 4 - lz] as int]);
                assert(digits[i - 4 - lz] < 58);
            }
        }
    }
}

/// Encodes a public key as an address: the `ZEI_` prefix before the
/// base-58 check form of the key bytes.
pub fn enc(pk: &Vec<u8>) -> (r: Address)
    requires
        pk@.len() <= 60,
    ensures
        r@ == Seq::new(address_of(pk@).len(), |i: int| address_of(pk@)[i] as char),
        utf8_of(r@) == address_of(pk@),
{
    let body = b58check_encode(pk);
    let mut out: Vec<u8> = Vec::new();
    out.push(90u8);
    out.push(69u8);
    out.push(73u8);
    out.push(95u8);
    let all = concat_bytes(&out, &body);
    proof {
        assert(all@ =~= address_of(pk@));
        lemma_address_ascii(pk@);
    }
    ascii_to_string(all)
}

/// Decodes an address back to a public key.  The result is accepted
/// exactly when re-encoding it reproduces the given string, so an `Ok`
/// answer is always the key this address encodes; everything else is
/// `DeserializationError`.
pub fn dec(addy: &Address) -> (r: Result<Vec<u8>, Error>)
    ensures
        r is Err ==> r->Err_0 == Error::DeserializationError,
        r is Ok ==> (r->Ok_0@.len() == 32 && utf8_of(addy@) == address_of(r->Ok_0@)),
        r is Ok <==> ({
            let b = utf8_of(addy@);
            &&& b.len() >= 4
            &&& decode_candidate_of(b) is Some
            &&& b == address_of(decode_candidate_of(b)->0.subrange(0, 32))
        }),
        r is Ok ==> r->Ok_0@ == decode_candidate_of(utf8_of(addy@))->0.subrange(0, 32),
{
    let bytes = string_to_bytes(addy);
    if bytes.len() < 4 {
        return Err(Error::DeserializationError);
    }
    let alphabet = b58_alphabet();
    // rebuild the 36-byte number from the digits after the prefix
    let mut num: Vec<u8> = Vec::new();
    let mut i: usize = 0;
    while i < 36
        invariant
            i <= 36,
            num@.len() == i as int,
            forall|j: int| 0 <= j < i ==> num@[j] == 0u8,
        decreases 36 - i,
    {
        num.push(0u8);
        i += 1;
    }
    let ghost whole = decode_candidate_of(bytes@);
    proof {
        assert(num@ =~= Seq::new(36, |i: int| 0u8));
        assert(bytes@.subrange(4, bytes@.len() as int).subrange(
            0,
            bytes@.len() - 4,
        ) =~= bytes@.subrange(4, bytes@.len() as int));
    }
    let mut i: usize = 4;
    while i < bytes.len()
        invariant
            4 <= i <= bytes@.len(),
            num@.len() == 36,
            alphabet@ == b58_alphabet_of(),
            bytes@ == utf8_of(addy@),
            whole == decode_candidate_of(bytes@),
            whole == decode_fold_of(bytes@.subrange(i as int, bytes@.len() as int), num@),
        decreases bytes.len() - i,
    {
        let ghost suffix = bytes@.subrange(i as int, bytes@.len() as int);
        proof {
            assert(suffix[0] == bytes@[i as int]);
            assert(suffix.skip(1) =~= bytes@.subrange(i + 1, bytes@.len() as int));
        }
        let c = bytes[i];
        let d = b58_index(&alphabet, c);
        if d >= 58 {
            proof {
                assert(decode_fold_of(suffix, num@) is None);
            }
            return Err(Error::DeserializationError);
        }
        let ghost prev_num = num@;
        let overflow = mul58_add(&mut num, d);
        if overflow {
            proof {
                assert(decode_fold_of(suffix, prev_num) is None);
            }
            return Err(Error::DeserializationError);
        }
        proof {
            assert(decode_fold_of(suffix, prev_num) == decode_fold_of(suffix.skip(1), num@));
        }
        i += 1;
    }
    proof {
        assert(bytes@.subrange(bytes@.len() as int, bytes@.len() as int)
            =~= Seq::<u8>::empty());
        assert(whole == Some(num@));
    }
    let payload = sub_bytes(&num, 0, 32);
    // accept exactly when the candidate re-encodes to the given string
    let reencoded = enc(&payload);
    let reenc_bytes = string_to_bytes(&reencoded);
    if crate::bytes::bytes_eq(&reenc_bytes, &bytes) {
        Ok(payload)
    } else {
        return Err(Error::DeserializationError);
    }
}

} // verus!
