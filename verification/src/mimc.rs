//! MiMC: a keyed algebraic permutation over field scalars, used as the
//! collision-resistant hash of the Merkle accumulator.
//!
//! Each key level derives its own round constants, so a digest taken at one
//! level can never be confused with a digest taken at another: the leaf level
//! and every internal level of the tree are domain-separated.

use vstd::prelude::*;

verus! {

use crate::bytes::{dec_str, dec_str_of, make_zero32, sub_bytes, views_of, zero32};
use crate::curve::{
    chacha_stream, chacha_stream_of, fe_add, fe_add_of, fe_from_u64, fe_from_u64_of, fe_mul,
    fe_mul_of, fe_reduce_wide, fe_reduce_wide_of, sha256, sha256_of, wf32,
};

/// Number of Feistel rounds of the permutation.
pub const MIMC_ROUNDS: usize = 159;

/// Every element of the sequence is a 32-byte scalar encoding.
pub open spec fn wf_fe_seq(cs: Seq<Seq<u8>>) -> bool {
    forall|i: int| 0 <= i < cs.len() ==> #[trigger] wf32(cs[i])
}

/// The round function: `(s + c)^5` in the scalar field.
pub open spec fn mimc_f_of(s: Seq<u8>, c: Seq<u8>) -> Seq<u8> {
    let x = fe_add_of(s, c);
    let x2 = fe_mul_of(x, x);
    fe_mul_of(fe_mul_of(x2, x2), x)
}

/// The Feistel network over the round constants `cs`.
pub open spec fn feistel_of(l: Seq<u8>, r: Seq<u8>, cs: Seq<Seq<u8>>) -> (Seq<u8>, Seq<u8>)
    decreases cs.len(),
{
    if cs.len() == 0 {
        (l, r)
    } else {
        feistel_of(fe_add_of(r, mimc_f_of(l, cs[0])), l, cs.skip(1))
    }
}

/// The sponge: each value is absorbed by a Feistel pass over the carried
/// state, and the first state half is the digest.
pub open spec fn digest_rounds_of(
    vals: Seq<Seq<u8>>,
    cs: Seq<Seq<u8>>,
    sa: Seq<u8>,
    sc: Seq<u8>,
) -> Seq<u8>
    decreases vals.len(),
{
    if vals.len() == 0 {
        sa
    } else {
        let p = feistel_of(fe_add_of(vals[0], sa), sc, cs);
        digest_rounds_of(vals.skip(1), cs, p.0, p.1)
    }
}

/// The digest of a value sequence under round constants `cs`.
pub open spec fn digest_of(vals: Seq<Seq<u8>>, cs: Seq<Seq<u8>>) -> Seq<u8> {
    digest_rounds_of(vals, cs, zero32(), zero32())
}

/// The round constants of a key level: all but the first and last are drawn
/// from a ChaCha20 stream seeded with the SHA-256 digest of the level's
/// decimal representation.
#[verifier::opaque]
pub open spec fn mimc_constants_of(level: int) -> Seq<Seq<u8>> {
    let stream = chacha_stream_of(sha256_of(dec_str_of(level)), (64 * 157) as int);
    Seq::new(
        159,
        |i: int|
            if i == 0 || i == 158 {
                zero32()
            } else {
                fe_reduce_wide_of(stream.subrange(64 * (i - 1), 64 * i))
            },
    )
}

/// The digest of a value sequence at a key level.
#[verifier::opaque]
pub open spec fn digest_at_of(level: int, vals: Seq<Seq<u8>>) -> Seq<u8> {
    digest_of(vals, mimc_constants_of(level))
}

/// The round function: `(s + c)^5`.
pub fn mimc_f(s: &Vec<u8>, c: &Vec<u8>) -> (r: Vec<u8>)
    requires
        wf32(s@),
        wf32(c@),
    ensures
        r@ == mimc_f_of(s@, c@),
        wf32(r@),
{
    let x = fe_add(s, c);
    let x2 = fe_mul(&x, &x);
    let x4 = fe_mul(&x2, &x2);
    fe_mul(&x4, &x)
}

/// One full Feistel pass of `left` and `right` over the constants `c`.
pub fn mimc_feistel(left: &Vec<u8>, right: &Vec<u8>, c: &Vec<Vec<u8>>) -> (r: (Vec<u8>, Vec<u8>))
    requires
        wf32(left@),
        wf32(right@),
        wf_fe_seq(views_of(c@)),
    ensures
        (r.0@, r.1@) == feistel_of(left@, right@, views_of(c@)),
        wf32(r.0@),
        wf32(r.1@),
{
    let ghost cs = views_of(c@);
    let mut xl = left.clone();
    let mut xr = right.clone();
    let mut i: usize = 0;
    proof {
        assert(cs.skip(0) =~= cs);
    }
    while i < c.len()
        invariant
            i <= c@.len(),
            cs == views_of(c@),
            cs.len() == c@.len(),
            wf_fe_seq(cs),
            wf32(xl@),
            wf32(xr@),
            feistel_of(left@, right@, cs) == feistel_of(xl@, xr@, cs.skip(i as int)),
        decreases c.len() - i,
    {
        proof {
            assert(wf32(cs[i as int]));
            assert(cs[i as int] == c@[i as int]@);
        }
        let f = mimc_f(&xl, &c[i]);
        let aux = xl;
        xl = fe_add(&xr, &f);
        xr = aux;
        proof {
            assert(cs.skip(i as int).skip(1) =~= cs.skip(i + 1));
            assert(cs.skip(i as int)[0] == cs[i as int]);
        }
        i += 1;
    }
    proof {
        assert(cs.skip(c@.len() as int) =~= Seq::<Seq<u8>>::empty());
    }
    (xl, xr)
}

/// Derives the round constants of a key level.
pub fn compute_mimc_constants(level: u64) -> (r: Vec<Vec<u8>>)
    ensures
        views_of(r@) == mimc_constants_of(level as int),
        wf_fe_seq(views_of(r@)),
        r@.len() == 159,
{
    let ds = dec_str(level);
    let seed = sha256(&ds);
    let stream = chacha_stream(&seed, 64 * 157);
    proof {
        reveal(mimc_constants_of);
    }
    let ghost spec_c = mimc_constants_of(level as int);
    let mut c: Vec<Vec<u8>> = Vec::new();
    c.push(make_zero32());
    let mut i: usize = 1;
    while i < 158
        invariant
            1 <= i <= 158,
            c@.len() == i as int,
            stream@ == chacha_stream_of(sha256_of(dec_str_of(level as int)), (64 * 157) as int),
            stream@.len() == 64 * 157,
            spec_c == mimc_constants_of(level as int),
            forall|j: int| 0 <= j < i ==> #[trigger] views_of(c@)[j] == spec_c[j],
            forall|j: int| 0 <= j < i ==> wf32(#[trigger] views_of(c@)[j]),
        decreases 158 - i,
    {
        let piece = sub_bytes(&stream, 64 * (i - 1), 64 * i);
        let k = fe_reduce_wide(&piece);
        let ghost kv = k@;
        let ghost prev = c@;
        c.push(k);
        proof {
            reveal(mimc_constants_of);
            let ii = i as int;
            assert(spec_c[ii] == fe_reduce_wide_of(stream@.subrange(64 * (ii - 1), 64 * ii)));
            assert forall|j: int| 0 <= j <= ii implies #[trigger] views_of(c@)[j] == spec_c[j]
                && wf32(views_of(c@)[j]) by {
                if j < ii {
                    assert(views_of(prev)[j] == spec_c[j]);
                    assert(wf32(views_of(prev)[j]));
                    assert(c@[j] == prev[j]);
                } else {
                    assert(c@[j]@ == kv);
                }
            }
        }
        i += 1;
    }
    let ghost before_last = c@;
    c.push(make_zero32());
    proof {
        reveal(mimc_constants_of);
        assert forall|j: int| 0 <= j < 159 implies #[trigger] views_of(c@)[j] == spec_c[j]
            && wf32(views_of(c@)[j]) by {
            if j < 158 {
                assert(views_of(before_last)[j] == spec_c[j]);
                assert(wf32(views_of(before_last)[j]));
                assert(c@[j] == before_last[j]);
            } else {
                assert(c@[j]@ == zero32());
            }
        }
        assert(views_of(c@) =~~= spec_c);
    }
    c
}

/// A per-level keyed MiMC hash.
pub struct MiMCHash {
    level: u64,
    c: Vec<Vec<u8>>,
}

impl MiMCHash {
    /// The key level this hash was instantiated for.
    pub closed spec fn level_of(&self) -> int {
        self.level as int
    }

    /// The held constants are exactly the level's round constants.
    pub closed spec fn wf(&self) -> bool {
        &&& views_of(self.c@) == mimc_constants_of(self.level as int)
        &&& wf_fe_seq(views_of(self.c@))
    }

    /// A hash keyed for `level`.
    pub fn new(level: u64) -> (r: MiMCHash)
        ensures
            r.wf(),
            r.level_of() == level as int,
    {
        MiMCHash { level, c: compute_mimc_constants(level) }
    }

    /// Absorbs `values` and returns the digest.
    pub fn digest(&self, values: &Vec<Vec<u8>>) -> (r: Vec<u8>)
        requires
            self.wf(),
            wf_fe_seq(views_of(values@)),
        ensures
            r@ == digest_at_of(self.level_of(), views_of(values@)),
            wf32(r@),
    {
        let ghost vals = views_of(values@);
        let ghost cs = views_of(self.c@);
        let mut sa = make_zero32();
        let mut sc = make_zero32();
        let mut i: usize = 0;
        proof {
            assert(vals.skip(0) =~= vals);
        }
        while i < values.len()
            invariant
                i <= values@.len(),
                vals == views_of(values@),
                cs == views_of(self.c@),
                vals.len() == values@.len(),
                self.wf(),
                wf_fe_seq(vals),
                wf32(sa@),
                wf32(sc@),
                digest_rounds_of(vals, cs, zero32(), zero32()) == digest_rounds_of(
                    vals.skip(i as int),
                    cs,
                    sa@,
                    sc@,
                ),
            decreases values.len() - i,
        {
            proof {
                assert(vals.skip(i as int)[0] == vals[i as int]);
                assert(wf32(vals[i as int]));
                assert(vals[i as int] == values@[i as int]@);
            }
            let acc = fe_add(&values[i], &sa);
            let x = mimc_feistel(&acc, &sc, &self.c);
            sa = x.0;
            sc = x.1;
            proof {
                assert(vals.skip(i as int).skip(1) =~= vals.skip(i + 1));
            }
            i += 1;
        }
        proof {
            reveal(digest_at_of);
            assert(vals.skip(values@.len() as int) =~= Seq::<Seq<u8>>::empty());
        }
        sa
    }

    /// Absorbs the record count followed by `values`: the root digest form.
    pub fn digest_root(&self, size: u64, values: &Vec<Vec<u8>>) -> (r: Vec<u8>)
        requires
            self.wf(),
            wf_fe_seq(views_of(values@)),
        ensures
            r@ == digest_at_of(
                self.level_of(),
                seq![fe_from_u64_of(size as int)] + views_of(values@),
            ),
            wf32(r@),
    {
        let x = fe_from_u64(size);
        let mut vec: Vec<Vec<u8>> = Vec::new();
        vec.push(x);
        let mut i: usize = 0;
        while i < values.len()
            invariant
                i <= values@.len(),
                vec@.len() == i + 1,
                views_of(vec@)[0] == fe_from_u64_of(size as int),
                forall|j: int| 1 <= j <= i ==> #[trigger] views_of(vec@)[j] == views_of(
                    values@,
                )[j - 1],
            decreases values.len() - i,
        {
            let entry = values[i].clone();
            let ghost ev = entry@;
            let ghost prev = vec@;
            vec.push(entry);
            proof {
                assert(ev == values@[i as int]@);
                assert forall|j: int| 1 <= j <= i + 1 implies #[trigger] views_of(vec@)[j]
                    == views_of(values@)[j - 1] by {
                    if j <= i {
                        assert(views_of(prev)[j] == views_of(values@)[j - 1]);
                        assert(vec@[j] == prev[j]);
                    } else {
                        assert(vec@[j]@ == ev);
                    }
                }
                assert(views_of(vec@)[0] == views_of(prev)[0]);
            }
            i += 1;
        }
        proof {
            assert(views_of(vec@) =~~= seq![fe_from_u64_of(size as int)] + views_of(values@));
        }
        self.digest(&vec)
    }
}

} // verus!
