use vstd::prelude::*;

verus! {

/// The sequence of byte sequences held by a sequence of byte vectors.
pub open spec fn views_of(s: Seq<Vec<u8>>) -> Seq<Seq<u8>> {
    Seq::new(s.len(), |i: int| s[i]@)
}

/// Pushing a vector extends the view sequence by the vector's view.
pub broadcast proof fn lemma_views_of_push(s: Seq<Vec<u8>>, x: Vec<u8>)
    ensures
        #[trigger] views_of(s.push(x)) == views_of(s).push(x@),
{
    assert(views_of(s.push(x)) =~= views_of(s).push(x@));
}

/// The byte sequence of 32 zeros: the canonical encoding of the zero scalar.
pub open spec fn zero32() -> Seq<u8> {
    Seq::new(32, |i: int| 0u8)
}

/// A vector of 32 zero bytes.
pub fn make_zero32() -> (r: Vec<u8>)
    ensures
        r@ == zero32(),
{
    let mut v: Vec<u8> = Vec::new();
    let mut i: usize = 0;
    while i < 32
        invariant
            i <= 32,
            v@.len() == i as int,
            forall|j: int| 0 <= j < i ==> v@[j] == 0u8,
        decreases 32 - i,
    {
        v.push(0u8);
        i += 1;
    }
    proof {
        assert(v@ =~= zero32());
    }
    v
}

/// Whether two byte vectors hold the same bytes.
pub fn bytes_eq(a: &Vec<u8>, b: &Vec<u8>) -> (r: bool)
    ensures
        r == (a@ == b@),
{
    if a.len() != b.len() {
        proof {
            assert(a@ != b@);
        }
        return false;
    }
    let mut i: usize = 0;
    while i < a.len()
        invariant
            i <= a.len(),
            a@.len() == b@.len(),
            forall|j: int| 0 <= j < i ==> a@[j] == b@[j],
        decreases a.len() - i,
    {
        if a[i] != b[i] {
            return false;
        }
        i += 1;
    }
    proof {
        assert(a@ =~= b@);
    }
    true
}

/// The bytewise exclusive-or of two sequences of equal length.
pub open spec fn xor_of(a: Seq<u8>, b: Seq<u8>) -> Seq<u8> {
    Seq::new(a.len(), |i: int| a[i] ^ b[i])
}

/// Applying the same mask twice restores the original bytes.
pub proof fn lemma_xor_involutive(a: Seq<u8>, b: Seq<u8>)
    requires
        a.len() == b.len(),
    ensures
        xor_of(xor_of(a, b), b) == a,
{
    assert forall|i: int| 0 <= i < a.len() implies xor_of(xor_of(a, b), b)[i] == a[i] by {
        let x = a[i];
        let y = b[i];
        assert((x ^ y) ^ y == x) by (bit_vector);
    }
    assert(xor_of(xor_of(a, b), b) =~= a);
}

/// Masks `a` with `b`, byte by byte.
pub fn xor_bytes(a: &Vec<u8>, b: &Vec<u8>) -> (r: Vec<u8>)
    requires
        a@.len() == b@.len(),
    ensures
        r@ == xor_of(a@, b@),
{
    let mut v: Vec<u8> = Vec::new();
    let mut i: usize = 0;
    while i < a.len()
        invariant
            i <= a@.len(),
            a@.len() == b@.len(),
            v@.len() == i as int,
            forall|j: int| 0 <= j < i ==> v@[j] == (a@[j] ^ b@[j]),
        decreases a.len() - i,
    {
        v.push(a[i] ^ b[i]);
        i += 1;
    }
    proof {
        assert(v@ =~= xor_of(a@, b@));
    }
    v
}

/// The big-endian 8-byte encoding of a 64-bit value.
pub open spec fn be_bytes_of_u64(v: u64) -> Seq<u8> {
    seq![
        (v >> 56) as u8,
        (v >> 48) as u8,
        (v >> 40) as u8,
        (v >> 32) as u8,
        (v >> 24) as u8,
        (v >> 16) as u8,
        (v >> 8) as u8,
        v as u8,
    ]
}

/// Writes `v` as 8 big-endian bytes.
pub fn u64_to_be_bytes(v: u64) -> (r: Vec<u8>)
    ensures
        r@ == be_bytes_of_u64(v),
        r@.len() == 8,
{
    let mut out: Vec<u8> = Vec::new();
    out.push((v >> 56) as u8);
    out.push((v >> 48) as u8);
    out.push((v >> 40) as u8);
    out.push((v >> 32) as u8);
    out.push((v >> 24) as u8);
    out.push((v >> 16) as u8);
    out.push((v >> 8) as u8);
    out.push(v as u8);
    proof {
        assert(out@ =~= be_bytes_of_u64(v));
    }
    out
}

/// The value read back from 8 big-endian bytes.
pub fn u64_from_be_bytes(b: &Vec<u8>, start: usize) -> (r: u64)
    requires
        start + 8 <= b@.len(),
        b@.len() <= usize::MAX,
    ensures
        be_bytes_of_u64(r) == b@.subrange(start as int, start + 8),
{
    let r: u64 = ((b[start] as u64) << 56) | ((b[start + 1] as u64) << 48) | ((b[start + 2]
        as u64) << 40) | ((b[start + 3] as u64) << 32) | ((b[start + 4] as u64) << 24) | ((b[start
        + 5] as u64) << 16) | ((b[start + 6] as u64) << 8) | (b[start + 7] as u64);
    proof {
        let b0 = b@[start as int];
        let b1 = b@[start + 1];
        let b2 = b@[start + 2];
        let b3 = b@[start + 3];
        let b4 = b@[start + 4];
        let b5 = b@[start + 5];
        let b6 = b@[start + 6];
        let b7 = b@[start + 7];
        assert(r == ((b0 as u64) << 56) | ((b1 as u64) << 48) | ((b2 as u64) << 40) | ((b3
            as u64) << 32) | ((b4 as u64) << 24) | ((b5 as u64) << 16) | ((b6 as u64) << 8) | (b7
            as u64) ==> ((r >> 56) as u8 == b0 && (r >> 48) as u8 == b1 && (r >> 40) as u8 == b2
            && (r >> 32) as u8 == b3 && (r >> 24) as u8 == b4 && (r >> 16) as u8 == b5 && (r >> 8)
            as u8 == b6 && r as u8 == b7)) by (bit_vector);
        assert(be_bytes_of_u64(r) =~= b@.subrange(start as int, start + 8));
    }
    r
}

/// The big-endian encoding determines the value: equal encodings mean
/// equal values.
pub proof fn lemma_be_bytes_of_u64_injective(a: u64, b: u64)
    requires
        be_bytes_of_u64(a) == be_bytes_of_u64(b),
    ensures
        a == b,
{
    assert(be_bytes_of_u64(a)[0] == be_bytes_of_u64(b)[0]);
    assert(be_bytes_of_u64(a)[1] == be_bytes_of_u64(b)[1]);
    assert(be_bytes_of_u64(a)[2] == be_bytes_of_u64(b)[2]);
    assert(be_bytes_of_u64(a)[3] == be_bytes_of_u64(b)[3]);
    assert(be_bytes_of_u64(a)[4] == be_bytes_of_u64(b)[4]);
    assert(be_bytes_of_u64(a)[5] == be_bytes_of_u64(b)[5]);
    assert(be_bytes_of_u64(a)[6] == be_bytes_of_u64(b)[6]);
    assert(be_bytes_of_u64(a)[7] == be_bytes_of_u64(b)[7]);
    assert(((a >> 56) as u8 == (b >> 56) as u8 && (a >> 48) as u8 == (b >> 48) as u8 && (a
        >> 40) as u8 == (b >> 40) as u8 && (a >> 32) as u8 == (b >> 32) as u8 && (a >> 24) as u8
        == (b >> 24) as u8 && (a >> 16) as u8 == (b >> 16) as u8 && (a >> 8) as u8 == (b >> 8)
        as u8 && a as u8 == b as u8) ==> a == b) by (bit_vector);
}

/// The big-endian 4-byte encoding of a 32-bit value.
pub open spec fn be_bytes_of_u32(v: u32) -> Seq<u8> {
    seq![(v >> 24) as u8, (v >> 16) as u8, (v >> 8) as u8, v as u8]
}

/// Writes `v` as 4 big-endian bytes.
pub fn u32_to_be_bytes(v: u32) -> (r: Vec<u8>)
    ensures
        r@ == be_bytes_of_u32(v),
        r@.len() == 4,
{
    let mut out: Vec<u8> = Vec::new();
    out.push((v >> 24) as u8);
    out.push((v >> 16) as u8);
    out.push((v >> 8) as u8);
    out.push(v as u8);
    proof {
        assert(out@ =~= be_bytes_of_u32(v));
    }
    out
}

/// The value read back from 4 big-endian bytes.
pub fn u32_from_be_bytes(b: &Vec<u8>, start: usize) -> (r: u32)
    requires
        start + 4 <= b@.len(),
        b@.len() <= usize::MAX,
    ensures
        be_bytes_of_u32(r) == b@.subrange(start as int, start + 4),
{
    let r: u32 = ((b[start] as u32) << 24) | ((b[start + 1] as u32) << 16) | ((b[start + 2]
        as u32) << 8) | (b[start + 3] as u32);
    proof {
        let b0 = b@[start as int];
        let b1 = b@[start + 1];
        let b2 = b@[start + 2];
        let b3 = b@[start + 3];
        assert(r == ((b0 as u32) << 24) | ((b1 as u32) << 16) | ((b2 as u32) << 8) | (b3
            as u32) ==> ((r >> 24) as u8 == b0 && (r >> 16) as u8 == b1 && (r >> 8) as u8 == b2
            && r as u8 == b3)) by (bit_vector);
        assert(be_bytes_of_u32(r) =~= b@.subrange(start as int, start + 4));
    }
    r
}

/// The decimal digit characters of `n`, most significant first.
pub open spec fn dec_str_of(n: int) -> Seq<u8>
    decreases n,
{
    if n < 10 {
        seq![(48 + if n < 0 { 0int } else { n }) as u8]
    } else {
        dec_str_of(n / 10).push((48 + n % 10) as u8)
    }
}

/// Writes `n` in decimal ASCII.
pub fn dec_str(n: u64) -> (r: Vec<u8>)
    ensures
        r@ == dec_str_of(n as int),
    decreases n,
{
    if n < 10 {
        let mut v: Vec<u8> = Vec::new();
        v.push(48 + n as u8);
        proof {
            assert(v@ =~= dec_str_of(n as int));
        }
        v
    } else {
        let mut v = dec_str(n / 10);
        v.push(48 + (n % 10) as u8);
        v
    }
}

/// `a` followed by `b`.
pub fn concat_bytes(a: &Vec<u8>, b: &Vec<u8>) -> (r: Vec<u8>)
    ensures
        r@ == a@ + b@,
{
    let mut v: Vec<u8> = Vec::new();
    let mut i: usize = 0;
    while i < a.len()
        invariant
            i <= a@.len(),
            v@ == a@.subrange(0, i as int),
        decreases a.len() - i,
    {
        v.push(a[i]);
        i += 1;
        proof {
            assert(v@ =~= a@.subrange(0, i as int));
        }
    }
    let mut j: usize = 0;
    while j < b.len()
        invariant
            j <= b@.len(),
            v@ == a@ + b@.subrange(0, j as int),
        decreases b.len() - j,
    {
        v.push(b[j]);
        j += 1;
        proof {
            assert(v@ =~= a@ + b@.subrange(0, j as int));
        }
    }
    proof {
        assert(a@.subrange(0, a@.len() as int) =~= a@);
        assert(b@.subrange(0, b@.len() as int) =~= b@);
        assert(v@ =~= a@ + b@);
    }
    v
}

/// The bytes of `b` from `start` up to `end`.
pub fn sub_bytes(b: &Vec<u8>, start: usize, end: usize) -> (r: Vec<u8>)
    requires
        start <= end,
        end <= b@.len(),
    ensures
        r@ == b@.subrange(start as int, end as int),
{
    let mut v: Vec<u8> = Vec::new();
    let mut i: usize = start;
    while i < end
        invariant
            start <= i <= end,
            end <= b@.len(),
            v@ == b@.subrange(start as int, i as int),
        decreases end - i,
    {
        v.push(b[i]);
        i += 1;
        proof {
            assert(v@ =~= b@.subrange(start as int, i as int));
        }
    }
    v
}

} // verus!
