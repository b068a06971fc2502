//! The append-only, versioned Merkle accumulator.
//!
//! Leaves are anonymous-record commitments tagged with the slot id (`uid`)
//! they were assigned at append time; the stored leaf value is the keyed
//! digest of `(uid, commitment)`, so equal commitments at different slots
//! never collide.  Appends stay pending until `commit` seals them under a new
//! versioned root; `generate_proof` certifies only sealed leaves.

use vstd::prelude::*;

verus! {

use crate::bytes::{make_zero32, views_of, zero32};
use crate::curve::{fe_from_u64, fe_from_u64_of, wf32};
use crate::errors::Error;
use crate::mimc::{digest_at_of, wf_fe_seq, MiMCHash};

broadcast use crate::bytes::lemma_views_of_push;

/// The fixed depth of the tree: a protocol-wide constant.
pub const TREE_DEPTH: usize = 32;

/// `2^e`.
pub open spec fn pow2_of(e: int) -> int
    decreases e,
{
    if e <= 0 {
        1
    } else {
        2 * pow2_of(e - 1)
    }
}

/// `2^e` is positive.
pub proof fn lemma_pow2_pos(e: int)
    ensures
        pow2_of(e) >= 1,
    decreases e,
{
    if e > 0 {
        lemma_pow2_pos(e - 1);
    }
}

/// The hash of a stored leaf: the level-0 keyed digest of the slot id and
/// the record commitment.
pub open spec fn leaf_hash_of(uid: int, com: Seq<u8>) -> Seq<u8> {
    digest_at_of(0, seq![fe_from_u64_of(uid), com])
}

/// The value of the tree node at `level` and `index`, over a sealed leaf
/// sequence; absent subtrees hold the zero scalar.
pub open spec fn node_of(level: int, index: int, leaves: Seq<Seq<u8>>) -> Seq<u8>
    decreases level,
{
    if level <= 0 {
        if 0 <= index < leaves.len() {
            leaves[index]
        } else {
            zero32()
        }
    } else {
        digest_at_of(
            level,
            seq![
                node_of(level - 1, 2 * index, leaves),
                node_of(level - 1, 2 * index + 1, leaves),
            ],
        )
    }
}

/// The node value of a fully absent subtree at `level`.
pub open spec fn empty_node_of(level: int) -> Seq<u8>
    decreases level,
{
    if level <= 0 {
        zero32()
    } else {
        digest_at_of(level, seq![empty_node_of(level - 1), empty_node_of(level - 1)])
    }
}

/// The sealed root over a leaf sequence.
pub open spec fn root_of(leaves: Seq<Seq<u8>>) -> Seq<u8> {
    node_of(TREE_DEPTH as int, 0, leaves)
}

/// In a tree with no leaves, every node is the empty node of its level.
pub proof fn lemma_empty_tree(level: int, index: int, leaves: Seq<Seq<u8>>)
    requires
        leaves.len() == 0,
        level >= 0,
    ensures
        node_of(level, index, leaves) == empty_node_of(level),
    decreases level,
{
    if level > 0 {
        lemma_empty_tree(level - 1, 2 * index, leaves);
        lemma_empty_tree(level - 1, 2 * index + 1, leaves);
    }
}

/// One step of a membership path: the sibling hash beside the current node,
/// and on which side the current node stands.
pub struct PathNode {
    pub sibling: Vec<u8>,
    pub is_left_child: bool,
}

/// A membership path from a leaf to a sealed root.
pub struct MerklePath {
    pub nodes: Vec<PathNode>,
    pub root: Vec<u8>,
    pub root_version: u64,
    pub uid: u64,
}

/// The sibling hashes of a path, leaf level first.
pub open spec fn siblings_of(nodes: Seq<PathNode>) -> Seq<Seq<u8>> {
    Seq::new(nodes.len(), |i: int| nodes[i].sibling@)
}

/// The child directions of a path, leaf level first.
pub open spec fn dirs_of(nodes: Seq<PathNode>) -> Seq<bool> {
    Seq::new(nodes.len(), |i: int| nodes[i].is_left_child)
}

/// Folding a hash up a path: at each step the running hash is combined with
/// the sibling under the next level's keyed digest.
pub open spec fn fold_path_of(h: Seq<u8>, sibs: Seq<Seq<u8>>, dirs: Seq<bool>, level: int) -> Seq<
    u8,
>
    decreases sibs.len(),
{
    if sibs.len() == 0 {
        h
    } else {
        let combined = if dirs[0] {
            digest_at_of(level + 1, seq![h, sibs[0]])
        } else {
            digest_at_of(level + 1, seq![sibs[0], h])
        };
        fold_path_of(combined, sibs.skip(1), dirs.skip(1), level + 1)
    }
}

/// Extending a path by one node folds the extension on top of the fold of
/// the prefix.
pub proof fn lemma_fold_path_push(
    h: Seq<u8>,
    sibs: Seq<Seq<u8>>,
    dirs: Seq<bool>,
    level: int,
    s: Seq<u8>,
    d: bool,
)
    requires
        sibs.len() == dirs.len(),
    ensures
        fold_path_of(h, sibs.push(s), dirs.push(d), level) == (if d {
            digest_at_of(
                level + sibs.len() + 1,
                seq![fold_path_of(h, sibs, dirs, level), s],
            )
        } else {
            digest_at_of(
                level + sibs.len() + 1,
                seq![s, fold_path_of(h, sibs, dirs, level)],
            )
        }),
    decreases sibs.len(),
{
    if sibs.len() == 0 {
        let sibs1 = sibs.push(s);
        let dirs1 = dirs.push(d);
        assert(sibs1[0] == s);
        assert(dirs1[0] == d);
        assert(sibs1.skip(1) =~= Seq::<Seq<u8>>::empty());
        assert(dirs1.skip(1) =~= Seq::<bool>::empty());
        let combined = if d {
            digest_at_of(level + 1, seq![h, s])
        } else {
            digest_at_of(level + 1, seq![s, h])
        };
        assert(fold_path_of(h, sibs1, dirs1, level) == fold_path_of(
            combined,
            sibs1.skip(1),
            dirs1.skip(1),
            level + 1,
        ));
        assert(fold_path_of(combined, sibs1.skip(1), dirs1.skip(1), level + 1) == combined);
        assert(fold_path_of(h, sibs, dirs, level) == h);
    } else {
        let combined = if dirs[0] {
            digest_at_of(level + 1, seq![h, sibs[0]])
        } else {
            digest_at_of(level + 1, seq![sibs[0], h])
        };
        assert(sibs.push(s).skip(1) =~= sibs.skip(1).push(s));
        assert(dirs.push(d).skip(1) =~= dirs.skip(1).push(d));
        assert(sibs.push(s)[0] == sibs[0]);
        assert(dirs.push(d)[0] == dirs[0]);
        lemma_fold_path_push(combined, sibs.skip(1), dirs.skip(1), level + 1, s, d);
    }
}

/// One step up a membership path: combining the running node value with
/// its sibling under the next level's digest reaches the parent node.
proof fn lemma_path_step(
    leaf: Seq<u8>,
    leaves: Seq<Seq<u8>>,
    l: int,
    cur: int,
    sibs: Seq<Seq<u8>>,
    dirs: Seq<bool>,
    sv: Seq<u8>,
    is_left: bool,
)
    requires
        sibs.len() == l,
        dirs.len() == l,
        l >= 0,
        cur >= 0,
        is_left == (cur % 2 == 0),
        sv == node_of(
            l,
            if is_left {
                cur + 1
            } else {
                cur - 1
            },
            leaves,
        ),
        fold_path_of(leaf, sibs, dirs, 0) == node_of(l, cur, leaves),
    ensures
        fold_path_of(leaf, sibs.push(sv), dirs.push(is_left), 0) == node_of(
            l + 1,
            cur / 2,
            leaves,
        ),
{
    lemma_fold_path_push(leaf, sibs, dirs, 0, sv, is_left);
    let half = cur / 2;
    assert(cur == 2 * half + (if is_left {
        0int
    } else {
        1int
    }));
    assert(node_of(l + 1, half, leaves) == digest_at_of(
        l + 1,
        seq![node_of(l, 2 * half, leaves), node_of(l, 2 * half + 1, leaves)],
    ));
    if is_left {
        assert(2 * half == cur);
        assert(2 * half + 1 == cur + 1);
    } else {
        assert(2 * half == cur - 1);
        assert(2 * half + 1 == cur);
    }
}

/// The digest of two child hashes at a level.
fn hash2(h: &MiMCHash, a: &Vec<u8>, b: &Vec<u8>) -> (r: Vec<u8>)
    requires
        h.wf(),
        wf32(a@),
        wf32(b@),
    ensures
        r@ == digest_at_of(h.level_of(), seq![a@, b@]),
        wf32(r@),
{
    let mut pair: Vec<Vec<u8>> = Vec::new();
    pair.push(a.clone());
    pair.push(b.clone());
    proof {
        assert(views_of(pair@) =~~= seq![a@, b@]);
        assert(wf_fe_seq(views_of(pair@)));
    }
    h.digest(&pair)
}

/// The append-only, versioned Merkle accumulator.
pub struct Accumulator {
    levels: Vec<Vec<Vec<u8>>>,
    pending: Vec<Vec<u8>>,
    roots: Vec<Vec<u8>>,
    hashes: Vec<MiMCHash>,
    empties: Vec<Vec<u8>>,
}

impl Accumulator {
    /// The sealed leaf hashes, in slot order.
    pub closed spec fn committed(&self) -> Seq<Seq<u8>> {
        views_of(self.levels@[0]@)
    }

    /// The appended but not yet sealed leaf hashes, in slot order.
    pub closed spec fn pending_view(&self) -> Seq<Seq<u8>> {
        views_of(self.pending@)
    }

    /// The sealed roots, version order.
    pub closed spec fn roots_view(&self) -> Seq<Seq<u8>> {
        views_of(self.roots@)
    }

    /// The next slot id: sealed plus pending leaves.
    pub open spec fn total(&self) -> int {
        self.committed().len() + self.pending_view().len() as int
    }

    spec fn level_len(&self, l: int) -> int {
        self.levels@[l]@.len() as int
    }

    spec fn level_val(&self, l: int, i: int) -> Seq<u8> {
        self.levels@[l]@[i]@
    }

    /// Internal consistency: every stored node is the digest of its children
    /// over the sealed leaves, absent subtrees are empty nodes, the cached
    /// keyed hashes and empty-node values are correct, and the latest root
    /// seals the current leaf sequence.
    pub closed spec fn wf(&self) -> bool {
        &&& self.levels@.len() == TREE_DEPTH + 1
        &&& self.hashes@.len() == TREE_DEPTH + 1
        &&& self.empties@.len() == TREE_DEPTH + 1
        &&& forall|l: int|
            0 <= l <= TREE_DEPTH ==> (#[trigger] self.hashes@[l]).wf() && self.hashes@[l].level_of()
                == l
        &&& forall|l: int|
            0 <= l <= TREE_DEPTH ==> #[trigger] self.empties@[l]@ == empty_node_of(l) && wf32(
                self.empties@[l]@,
            )
        &&& wf_fe_seq(self.committed())
        &&& wf_fe_seq(self.pending_view())
        &&& wf_fe_seq(self.roots_view())
        &&& forall|l: int|
            0 <= l <= TREE_DEPTH ==> #[trigger] self.level_len(l) <= pow2_of(TREE_DEPTH - l)
        &&& forall|l: int|
            1 <= l <= TREE_DEPTH ==> #[trigger] self.level_len(l) == (self.level_len(l - 1) + 1)
                / 2
        &&& self.total() <= pow2_of(TREE_DEPTH as int)
        &&& forall|l: int, i: int|
            0 <= l <= TREE_DEPTH && 0 <= i < self.level_len(l) ==> #[trigger] self.level_val(l, i)
                == node_of(l, i, self.committed()) && wf32(self.level_val(l, i))
        &&& forall|l: int, i: int|
            0 <= l <= TREE_DEPTH && i >= self.level_len(l) ==> #[trigger] node_of(
                l,
                i,
                self.committed(),
            ) == empty_node_of(l)
        &&& self.roots_view().len() > 0 ==> self.roots_view().last() == root_of(self.committed())
        &&& self.roots_view().len() == 0 ==> self.committed().len() == 0
    }

    /// An empty accumulator of the protocol depth.
    pub fn new() -> (r: Accumulator)
        ensures
            r.wf(),
            r.committed().len() == 0,
            r.pending_view().len() == 0,
            r.roots_view().len() == 0,
    {
        let mut hashes: Vec<MiMCHash> = Vec::new();
        let mut l: usize = 0;
        while l <= TREE_DEPTH
            invariant
                l <= TREE_DEPTH + 1,
                hashes@.len() == l as int,
                forall|k: int|
                    0 <= k < l ==> (#[trigger] hashes@[k]).wf() && hashes@[k].level_of() == k,
            decreases TREE_DEPTH + 1 - l,
        {
            hashes.push(MiMCHash::new(l as u64));
            l += 1;
        }
        let mut empties: Vec<Vec<u8>> = Vec::new();
        empties.push(make_zero32());
        let mut l: usize = 1;
        while l <= TREE_DEPTH
            invariant
                1 <= l <= TREE_DEPTH + 1,
                empties@.len() == l as int,
                hashes@.len() == TREE_DEPTH + 1,
                forall|k: int|
                    0 <= k <= TREE_DEPTH ==> (#[trigger] hashes@[k]).wf() && hashes@[k].level_of()
                        == k,
                forall|k: int|
                    0 <= k < l ==> #[trigger] empties@[k]@ == empty_node_of(k) && wf32(
                        empties@[k]@,
                    ),
            decreases TREE_DEPTH + 1 - l,
        {
            let prev = empties[l - 1].clone();
            let e = hash2(&hashes[l], &prev, &prev);
            empties.push(e);
            l += 1;
        }
        let mut levels: Vec<Vec<Vec<u8>>> = Vec::new();
        let mut l: usize = 0;
        while l <= TREE_DEPTH
            invariant
                l <= TREE_DEPTH + 1,
                levels@.len() == l as int,
                forall|k: int| 0 <= k < l ==> (#[trigger] levels@[k]@).len() == 0,
            decreases TREE_DEPTH + 1 - l,
        {
            levels.push(Vec::new());
            l += 1;
        }
        let r = Accumulator { levels, pending: Vec::new(), roots: Vec::new(), hashes, empties };
        proof {
            lemma_pow2_pos(TREE_DEPTH as int);
            assert(r.committed() =~= Seq::<Seq<u8>>::empty());
            assert(r.pending_view() =~= Seq::<Seq<u8>>::empty());
            assert(r.roots_view() =~= Seq::<Seq<u8>>::empty());
            assert forall|l: int, i: int|
                0 <= l <= TREE_DEPTH && i >= r.level_len(l) implies #[trigger] node_of(
                l,
                i,
                r.committed(),
            ) == empty_node_of(l) by {
                lemma_empty_tree(l, i, r.committed());
            }
            assert forall|l: int| 0 <= l <= TREE_DEPTH implies #[trigger] r.level_len(l)
                <= pow2_of(TREE_DEPTH - l) by {
                lemma_pow2_pos(TREE_DEPTH - l);
            }
        }
        r
    }

    /// Appends a record commitment, assigning it the next slot id.  The new
    /// leaf stays pending until the next `commit`; the tree refuses appends
    /// once `2^depth` slots are taken.
    #[verifier::rlimit(60)]
    pub fn append(&mut self, commitment: &Vec<u8>) -> (r: Result<u64, Error>)
        requires
            old(self).wf(),
            wf32(commitment@),
        ensures
            final(self).wf(),
            final(self).committed() == old(self).committed(),
            final(self).roots_view() == old(self).roots_view(),
            r is Ok <==> old(self).total() < pow2_of(TREE_DEPTH as int),
            r is Err ==> (r->Err_0 == Error::CapacityExceeded && *final(self) == *old(self)),
            r is Ok ==> (r->Ok_0 as int == old(self).total() && final(self).pending_view() == old(
                self,
            ).pending_view().push(leaf_hash_of(old(self).total(), commitment@))),
    {
        let cap: u64 = 4294967296u64;
        proof {
            assert(cap == pow2_of(TREE_DEPTH as int)) by {
                reveal_with_fuel(pow2_of, 34);
            }
        }
        let sealed_len: u64 = self.levels[0].len() as u64;
        let pending_len: u64 = self.pending.len() as u64;
        let total: u64 = sealed_len + pending_len;
        if total >= cap {
            return Err(Error::CapacityExceeded);
        }
        let uid: u64 = total;
        let mut vals: Vec<Vec<u8>> = Vec::new();
        vals.push(fe_from_u64(uid));
        vals.push(commitment.clone());
        proof {
            assert(views_of(vals@) =~~= seq![fe_from_u64_of(uid as int), commitment@]);
            assert(wf_fe_seq(views_of(vals@)));
        }
        let leaf = self.hashes[0].digest(&vals);
        let ghost leafv = leaf@;
        self.pending.push(leaf);
        proof {
            assert(self.committed() =~= old(self).committed());
            assert(self.roots_view() =~= old(self).roots_view());
            assert(self.pending_view() =~= old(self).pending_view().push(leafv));
            assert forall|i: int| 0 <= i < self.pending_view().len() implies wf32(
                #[trigger] self.pending_view()[i],
            ) by {
                if i < old(self).pending_view().len() {
                    assert(wf32(old(self).pending_view()[i]));
                }
            }
            assert(wf_fe_seq(self.pending_view()));
            assert(self.total() == old(self).total() + 1);
            assert(self.levels@.len() == TREE_DEPTH + 1);
            assert(forall|l: int|
                0 <= l <= TREE_DEPTH ==> (#[trigger] self.hashes@[l]).wf()
                    && self.hashes@[l].level_of() == l);
            assert(forall|l: int|
                0 <= l <= TREE_DEPTH ==> #[trigger] self.empties@[l]@ == empty_node_of(l) && wf32(
                    self.empties@[l]@,
                ));
            assert(wf_fe_seq(self.committed()));
            assert(wf_fe_seq(self.roots_view()));
            assert(forall|l: int|
                0 <= l <= TREE_DEPTH ==> #[trigger] self.level_len(l) <= pow2_of(TREE_DEPTH - l));
            assert(self.total() <= pow2_of(TREE_DEPTH as int));
            assert forall|l: int, i: int|
                0 <= l <= TREE_DEPTH && 0 <= i < self.level_len(l) implies #[trigger] self
                .level_val(l, i) == node_of(l, i, self.committed()) && wf32(
                self.level_val(l, i),
            ) by {
                assert(self.level_len(l) == old(self).level_len(l));
                assert(self.level_val(l, i) == old(self).level_val(l, i));
                assert(old(self).level_val(l, i) == node_of(l, i, old(self).committed()));
            }
            assert(forall|l: int, i: int|
                0 <= l <= TREE_DEPTH && i >= self.level_len(l) ==> #[trigger] node_of(
                    l,
                    i,
                    self.committed(),
                ) == empty_node_of(l));
            assert(self.roots_view().len() > 0 ==> self.roots_view().last() == root_of(
                self.committed(),
            ));
            assert(self.roots_view().len() == 0 ==> self.committed().len() == 0);
            assert(self.wf());
        }
        Ok(uid)
    }

    /// Seals all pending leaves: recomputes the internal levels bottom-up
    /// and publishes a new versioned root over the extended leaf sequence.
    #[verifier::rlimit(60)]
    pub fn commit(&mut self) -> (version: u64)
        requires
            old(self).wf(),
        ensures
            final(self).wf(),
            final(self).committed() == old(self).committed() + old(self).pending_view(),
            final(self).pending_view().len() == 0,
            final(self).roots_view() == old(self).roots_view().push(
                root_of(final(self).committed()),
            ),
            version as int == final(self).roots_view().len() - 1,
    {
        let ghost new_leaves = old(self).committed() + old(self).pending_view();
        // level 0: sealed leaves followed by the pending ones
        let mut base: Vec<Vec<u8>> = Vec::new();
        let mut i: usize = 0;
        while i < self.levels[0].len()
            invariant
                old(self).wf(),
                *self == *old(self),
                i <= old(self).committed().len(),
                views_of(base@) == old(self).committed().subrange(0, i as int),
            decreases self.levels[0].len() - i,
        {
            proof {
                assert(self.level_val(0, i as int) == node_of(0, i as int, old(self).committed()));
            }
            base.push(self.levels[0][i].clone());
            proof {
                assert(views_of(base@) =~= old(self).committed().subrange(0, i + 1));
            }
            i += 1;
        }
        let mut i: usize = 0;
        while i < self.pending.len()
            invariant
                old(self).wf(),
                *self == *old(self),
                i <= old(self).pending_view().len(),
                views_of(base@) == old(self).committed() + old(self).pending_view().subrange(
                    0,
                    i as int,
                ),
            decreases self.pending.len() - i,
        {
            base.push(self.pending[i].clone());
            proof {
                assert(views_of(base@) =~= old(self).committed() + old(
                    self,
                ).pending_view().subrange(0, i + 1));
            }
            i += 1;
        }
        proof {
            assert(old(self).committed().subrange(0, old(self).committed().len() as int) =~= old(
                self,
            ).committed());
            assert(old(self).pending_view().subrange(0, old(self).pending_view().len() as int)
                =~= old(self).pending_view());
            assert(views_of(base@) =~= new_leaves);
            assert(wf_fe_seq(new_leaves));
        }
        // rebuild the internal levels bottom-up
        let mut new_levels: Vec<Vec<Vec<u8>>> = Vec::new();
        new_levels.push(base);
        proof {
            assert(views_of(new_levels@[0]@) == new_leaves);
            assert forall|i: int| 0 <= i < new_levels@[0]@.len() implies #[trigger] new_levels@[0]@[i]@
                == node_of(0, i, new_leaves) && wf32(new_levels@[0]@[i]@) by {
                assert(views_of(new_levels@[0]@)[i] == new_leaves[i]);
                assert(wf32(new_leaves[i]));
            }
        }
        let mut l: usize = 1;
        while l <= TREE_DEPTH
            invariant
                old(self).wf(),
                *self == *old(self),
                1 <= l <= TREE_DEPTH + 1,
                new_levels@.len() == l as int,
                views_of(new_levels@[0]@) == new_leaves,
                new_leaves.len() <= pow2_of(TREE_DEPTH as int),
                wf_fe_seq(new_leaves),
                forall|k: int|
                    0 <= k < l ==> (#[trigger] new_levels@[k]@).len() <= pow2_of(TREE_DEPTH - k),
                forall|k: int|
                    1 <= k < l ==> (#[trigger] new_levels@[k]@).len() == (new_levels@[k
                        - 1]@.len() + 1) / 2,
                forall|k: int, i: int|
                    0 <= k < l && 0 <= i < new_levels@[k]@.len() ==> #[trigger] new_levels@[k]@[i]@
                        == node_of(k, i, new_leaves) && wf32(new_levels@[k]@[i]@),
                forall|k: int, i: int|
                    0 <= k < l && i >= new_levels@[k]@.len() ==> #[trigger] node_of(
                        k,
                        i,
                        new_leaves,
                    ) == empty_node_of(k),
            decreases TREE_DEPTH + 1 - l,
        {
            let prev_len = new_levels[l - 1].len();
            let m = prev_len / 2 + prev_len % 2;
            proof {
                assert(m as int == (prev_len as int + 1) / 2);
                assert(prev_len as int <= pow2_of(TREE_DEPTH - (l - 1)));
                assert(pow2_of(TREE_DEPTH - (l - 1)) == 2 * pow2_of(TREE_DEPTH - l));
            }
            let mut next: Vec<Vec<u8>> = Vec::new();
            let mut i: usize = 0;
            while i < m
                invariant
                    old(self).wf(),
                    *self == *old(self),
                    1 <= l <= TREE_DEPTH,
                    new_levels@.len() == l as int,
                    prev_len == new_levels@[l - 1]@.len(),
                    m as int == (prev_len as int + 1) / 2,
                    i <= m,
                    next@.len() == i as int,
                    forall|j: int|
                        0 <= j < prev_len ==> #[trigger] new_levels@[l - 1]@[j]@ == node_of(
                            l - 1,
                            j,
                            new_leaves,
                        ) && wf32(new_levels@[l - 1]@[j]@),
                    forall|j: int|
                        j >= prev_len ==> #[trigger] node_of(l - 1, j, new_leaves)
                            == empty_node_of(l - 1),
                    forall|j: int|
                        0 <= j < i ==> #[trigger] next@[j]@ == node_of(l as int, j, new_leaves)
                            && wf32(next@[j]@),
                decreases m - i,
            {
                let a = new_levels[l - 1][2 * i].clone();
                let b = if 2 * i + 1 < prev_len {
                    new_levels[l - 1][2 * i + 1].clone()
                } else {
                    proof {
                        assert(node_of(l - 1, 2 * (i as int) + 1, new_leaves) == empty_node_of(
                            l - 1,
                        ));
                        assert(self.empties@[l - 1]@ == empty_node_of(l - 1));
                    }
                    self.empties[l - 1].clone()
                };
                let h = hash2(&self.hashes[l], &a, &b);
                next.push(h);
                i += 1;
            }
            proof {
                assert forall|j: int| j >= m implies #[trigger] node_of(l as int, j, new_leaves)
                    == empty_node_of(l as int) by {
                    assert(2 * j >= prev_len);
                    assert(2 * j + 1 >= prev_len);
                    assert(node_of(l - 1, 2 * j, new_leaves) == empty_node_of(l - 1));
                    assert(node_of(l - 1, 2 * j + 1, new_leaves) == empty_node_of(l - 1));
                }
            }
            new_levels.push(next);
            l += 1;
        }
        let root = if new_levels[TREE_DEPTH].len() > 0 {
            new_levels[TREE_DEPTH][0].clone()
        } else {
            proof {
                assert(node_of(TREE_DEPTH as int, 0, new_leaves) == empty_node_of(
                    TREE_DEPTH as int,
                ));
                assert(self.empties@[TREE_DEPTH as int]@ == empty_node_of(TREE_DEPTH as int));
            }
            self.empties[TREE_DEPTH].clone()
        };
        let ghost rootv = root@;
        proof {
            assert(rootv == root_of(new_leaves));
            assert(wf32(rootv));
        }
        self.levels = new_levels;
        self.pending = Vec::new();
        self.roots.push(root);
        proof {
            assert(self.committed() =~= new_leaves);
            assert(self.pending_view() =~= Seq::<Seq<u8>>::empty());
            assert(self.roots_view() =~= old(self).roots_view().push(rootv));
            assert(self.roots_view().last() == rootv);
        }
        (self.roots.len() - 1) as u64
    }

    /// The number of sealed roots: one per `commit`.
    pub fn version_count(&self) -> (r: u64)
        requires
            self.wf(),
        ensures
            r as int == self.roots_view().len(),
    {
        self.roots.len() as u64
    }

    /// The sealed root of a version, if that version exists.
    pub fn root_at(&self, version: u64) -> (r: Option<Vec<u8>>)
        requires
            self.wf(),
        ensures
            r is Some <==> (version as int) < self.roots_view().len(),
            r is Some ==> r->0@ == self.roots_view()[version as int],
    {
        if version < self.roots.len() as u64 {
            Some(self.roots[version as usize].clone())
        } else {
            None
        }
    }

    /// The value of the node at `level` and `index`, read from the sealed
    /// store or, beyond it, the empty node of the level.
    fn node_at(&self, level: usize, index: u64) -> (r: Vec<u8>)
        requires
            self.wf(),
            level <= TREE_DEPTH,
        ensures
            r@ == node_of(level as int, index as int, self.committed()),
            wf32(r@),
    {
        if index < (self.levels[level].len() as u64) {
            proof {
                assert(self.level_val(level as int, index as int) == node_of(
                    level as int,
                    index as int,
                    self.committed(),
                ));
            }
            self.levels[level][index as usize].clone()
        } else {
            proof {
                assert(node_of(level as int, index as int, self.committed()) == empty_node_of(
                    level as int,
                ));
                assert(self.empties@[level as int]@ == empty_node_of(level as int));
            }
            self.empties[level].clone()
        }
    }

    /// A membership path for the sealed leaf at `uid`, against the latest
    /// sealed root.  Fails with `NotFound` when `uid` was never appended or
    /// was appended but never sealed by a `commit`.
    #[verifier::rlimit(100)]
    pub fn generate_proof(&self, uid: u64) -> (r: Result<MerklePath, Error>)
        requires
            self.wf(),
        ensures
            r is Ok <==> (uid as int) < self.committed().len(),
            r is Err ==> r->Err_0 == Error::NotFound,
            r is Ok ==> ({
                let p = r->Ok_0;
                &&& p.uid == uid
                &&& p.nodes@.len() == TREE_DEPTH
                &&& p.root@ == root_of(self.committed())
                &&& p.root@ == self.roots_view().last()
                &&& p.root_version as int == self.roots_view().len() - 1
                &&& wf_fe_seq(siblings_of(p.nodes@))
                &&& wf32(p.root@)
                &&& fold_path_of(
                    node_of(0, uid as int, self.committed()),
                    siblings_of(p.nodes@),
                    dirs_of(p.nodes@),
                    0,
                ) == p.root@
            }),
    {
        if uid >= (self.levels[0].len() as u64) {
            return Err(Error::NotFound);
        }
        let ghost leaves = self.committed();
        proof {
            assert(self.roots_view().len() > 0);
        }
        let mut nodes: Vec<PathNode> = Vec::new();
        let mut cur: u64 = uid;
        let mut l: usize = 0;
        proof {
            assert(siblings_of(nodes@) =~= Seq::<Seq<u8>>::empty());
            assert(dirs_of(nodes@) =~= Seq::<bool>::empty());
        }
        while l < TREE_DEPTH
            invariant
                self.wf(),
                l <= TREE_DEPTH,
                leaves == self.committed(),
                nodes@.len() == l as int,
                wf_fe_seq(siblings_of(nodes@)),
                (cur as int) < self.level_len(l as int) || cur == 0,
                fold_path_of(
                    node_of(0, uid as int, leaves),
                    siblings_of(nodes@),
                    dirs_of(nodes@),
                    0,
                ) == node_of(l as int, cur as int, leaves),
            decreases TREE_DEPTH - l,
        {
            let is_left = cur % 2 == 0;
            let sib: u64 = if is_left {
                cur + 1
            } else {
                cur - 1
            };
            let sv = self.node_at(l, sib);
            let ghost old_sibs = siblings_of(nodes@);
            let ghost old_dirs = dirs_of(nodes@);
            let ghost svv = sv@;
            nodes.push(PathNode { sibling: sv, is_left_child: is_left });
            proof {
                assert(siblings_of(nodes@) =~= old_sibs.push(svv));
                assert(dirs_of(nodes@) =~= old_dirs.push(is_left));
                lemma_path_step(
                    node_of(0, uid as int, leaves),
                    leaves,
                    l as int,
                    cur as int,
                    old_sibs,
                    old_dirs,
                    svv,
                    is_left,
                );
                assert(self.level_len(l + 1) == (self.level_len(l as int) + 1) / 2);
            }
            cur = cur / 2;
            l += 1;
        }
        proof {
            assert(self.level_len(TREE_DEPTH as int) <= pow2_of(0));
            assert(cur == 0);
        }
        let root = if self.levels[TREE_DEPTH].len() > 0 {
            proof {
                assert(self.level_val(TREE_DEPTH as int, 0) == node_of(
                    TREE_DEPTH as int,
                    0,
                    leaves,
                ));
            }
            self.levels[TREE_DEPTH][0].clone()
        } else {
            proof {
                assert(node_of(TREE_DEPTH as int, 0, leaves) == empty_node_of(TREE_DEPTH as int));
                assert(self.empties@[TREE_DEPTH as int]@ == empty_node_of(TREE_DEPTH as int));
            }
            self.empties[TREE_DEPTH].clone()
        };
        let version = (self.roots.len() - 1) as u64;
        Ok(MerklePath { nodes, root, root_version: version, uid })
    }

    /// The stored leaf hash of slot `uid` and commitment `com`.
    pub fn leaf_hash(&self, uid: u64, com: &Vec<u8>) -> (r: Vec<u8>)
        requires
            self.wf(),
            wf32(com@),
        ensures
            r@ == leaf_hash_of(uid as int, com@),
            wf32(r@),
    {
        let mut vals: Vec<Vec<u8>> = Vec::new();
        vals.push(fe_from_u64(uid));
        vals.push(com.clone());
        proof {
            assert(views_of(vals@) =~~= seq![fe_from_u64_of(uid as int), com@]);
            assert(wf_fe_seq(views_of(vals@)));
        }
        self.hashes[0].digest(&vals)
    }
}

/// Computes the stored leaf hash of slot `uid` and commitment `com`,
/// without an accumulator at hand.
pub fn compute_leaf_hash(uid: u64, com: &Vec<u8>) -> (r: Vec<u8>)
    requires
        wf32(com@),
    ensures
        r@ == leaf_hash_of(uid as int, com@),
        wf32(r@),
{
    let hasher = MiMCHash::new(0);
    let mut vals: Vec<Vec<u8>> = Vec::new();
    vals.push(fe_from_u64(uid));
    vals.push(com.clone());
    proof {
        assert(views_of(vals@) =~~= seq![fe_from_u64_of(uid as int), com@]);
        assert(wf_fe_seq(views_of(vals@)));
    }
    hasher.digest(&vals)
}

/// Recomputes the root that a membership path leads to from a leaf hash, and
/// compares it with the path's stated root.  This is the check a verifier
/// runs against a sealed root it trusts.
pub fn verify_path(leaf_hash: &Vec<u8>, path: &MerklePath) -> (r: bool)
    requires
        wf32(leaf_hash@),
        wf_fe_seq(siblings_of(path.nodes@)),
    ensures
        r == (path.nodes@.len() == TREE_DEPTH && fold_path_of(
            leaf_hash@,
            siblings_of(path.nodes@),
            dirs_of(path.nodes@),
            0,
        ) == path.root@),
{
    if path.nodes.len() != TREE_DEPTH {
        return false;
    }
    let mut h = leaf_hash.clone();
    let mut l: usize = 0;
    let ghost sibs = siblings_of(path.nodes@);
    let ghost dirs = dirs_of(path.nodes@);
    proof {
        assert(sibs.skip(0) =~= sibs);
        assert(dirs.skip(0) =~= dirs);
    }
    while l < TREE_DEPTH
        invariant
            l <= TREE_DEPTH,
            path.nodes@.len() == TREE_DEPTH,
            sibs == siblings_of(path.nodes@),
            dirs == dirs_of(path.nodes@),
            wf_fe_seq(sibs),
            wf32(h@),
            fold_path_of(leaf_hash@, sibs, dirs, 0) == fold_path_of(
                h@,
                sibs.skip(l as int),
                dirs.skip(l as int),
                l as int,
            ),
        decreases TREE_DEPTH - l,
    {
        let hasher = MiMCHash::new((l + 1) as u64);
        proof {
            assert(wf32(sibs[l as int]));
            assert(sibs[l as int] == path.nodes@[l as int].sibling@);
        }
        let sib = path.nodes[l].sibling.clone();
        h = if path.nodes[l].is_left_child {
            hash2(&hasher, &h, &sib)
        } else {
            hash2(&hasher, &sib, &h)
        };
        proof {
            assert(sibs.skip(l as int)[0] == sibs[l as int]);
            assert(dirs.skip(l as int)[0] == dirs[l as int]);
            assert(sibs.skip(l as int).skip(1) =~= sibs.skip(l + 1));
            assert(dirs.skip(l as int).skip(1) =~= dirs.skip(l + 1));
        }
        l += 1;
    }
    proof {
        assert(sibs.skip(TREE_DEPTH as int) =~= Seq::<Seq<u8>>::empty());
        assert(dirs.skip(TREE_DEPTH as int) =~= Seq::<bool>::empty());
    }
    crate::bytes::bytes_eq(&h, &path.root)
}

} // verus!
