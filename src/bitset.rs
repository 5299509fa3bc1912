//! Crossover of binary-encoded genomes held in `fixedbitset::FixedBitSet`s.
//!
//! The operators read each parent's bits into a vector, recombine the
//! vectors as value-encoded genomes, and write each child back into a bit set
//! of the parents' length.
use crate::crossover::{
    all_of_length, are_offspring, genome_views, is_multi_point_child, loci_of, multi_point_crossover,
    multi_point_input, uniform_crossover, CrossoverError, MultiPointCrossover, UniformCrossover,
};
use fixedbitset::FixedBitSet;
use vstd::prelude::*;

verus! {

/// A fixed-length set of bits (`fixedbitset::FixedBitSet`).
#[verifier::external_type_specification]
#[verifier::external_body]
pub struct ExFixedBitSet(FixedBitSet);

/// The bits of a bit set, in order; its length is the set's length.
pub uninterp spec fn bits_of(b: FixedBitSet) -> Seq<bool>;

/// Relies on `FixedBitSet::with_capacity`: a set of `len` bits, all clear.
#[verifier::external_body]
fn bitset_with_len(len: usize) -> (b: FixedBitSet)
    ensures
        bits_of(b) == Seq::new(len as nat, |i: int| false),
{
    FixedBitSet::with_capacity(len)
}

/// Relies on `FixedBitSet::len`: the number of bits of the set.
#[verifier::external_body]
fn bitset_len(b: &FixedBitSet) -> (n: usize)
    ensures
        n == bits_of(*b).len(),
{
    b.len()
}

/// Relies on `FixedBitSet::set`: sets one bit to `enabled`, leaving the
/// others; it panics on a bit past the length.
#[verifier::external_body]
fn bitset_set(b: &mut FixedBitSet, bit: usize, enabled: bool)
    requires
        bit < bits_of(*old(b)).len(),
    ensures
        bits_of(*final(b)) == bits_of(*old(b)).update(bit as int, enabled),
{
    b.set(bit, enabled)
}

/// Relies on `FixedBitSet`'s `Index<usize>` (`contains`): the value of a bit
/// within the length.
#[verifier::external_body]
fn bitset_get(b: &FixedBitSet, bit: usize) -> (v: bool)
    requires
        bit < bits_of(*b).len(),
    ensures
        v == bits_of(*b)[bit as int],
{
    b[bit]
}

/// The bits of each set of `sets`.
pub open spec fn bit_views(sets: Seq<FixedBitSet>) -> Seq<Seq<bool>> {
    sets.map_values(|b: FixedBitSet| bits_of(b))
}

/// The bits of `b`, in a vector.
pub fn bits_to_vec(b: &FixedBitSet) -> (v: Vec<bool>)
    ensures
        v@ == bits_of(*b),
{
    let len: usize = bitset_len(b);
    let mut v: Vec<bool> = Vec::new();
    while v.len() < len
        invariant
            len == bits_of(*b).len(),
            v.len() <= len,
            v@ == bits_of(*b).take(v.len() as int),
        decreases len - v.len(),
    {
        let bit: bool = bitset_get(b, v.len());
        v.push(bit);
        assert(v@ =~= bits_of(*b).take(v.len() as int));
    }
    assert(v@ =~= bits_of(*b));
    v
}

/// A bit set holding the bits of `v`.
pub fn vec_to_bits(v: &Vec<bool>) -> (b: FixedBitSet)
    ensures
        bits_of(b) == v@,
{
    let mut b: FixedBitSet = bitset_with_len(v.len());
    let mut i: usize = 0;
    while i < v.len()
        invariant
            i <= v.len(),
            bits_of(b).len() == v.len(),
            forall|k: int| 0 <= k < i ==> bits_of(b)[k] == v@[k],
        decreases v.len() - i,
    {
        bitset_set(&mut b, i, v[i]);
        i = i + 1;
    }
    assert(bits_of(b) =~= v@);
    b
}

/// The bits of every set of `sets`, as vectors.
fn bitsets_to_vecs(sets: &Vec<FixedBitSet>) -> (vs: Vec<Vec<bool>>)
    ensures
        vs.len() == sets.len(),
        genome_views(vs@) == bit_views(sets@),
{
    let mut vs: Vec<Vec<bool>> = Vec::new();
    while vs.len() < sets.len()
        invariant
            vs.len() <= sets.len(),
            sets.len() == bit_views(sets@).len(),
            genome_views(vs@) == bit_views(sets@).take(vs.len() as int),
        decreases sets.len() - vs.len(),
    {
        let v: Vec<bool> = bits_to_vec(&sets[vs.len()]);
        let ghost before = vs@;
        vs.push(v);
        assert(genome_views(vs@) =~= genome_views(before).push(v@));
        assert(genome_views(vs@) =~= bit_views(sets@).take(vs.len() as int));
    }
    assert(genome_views(vs@) =~= bit_views(sets@));
    vs
}

/// A FixedBitSet for each vector of `vs`, holding its loci.
fn vecs_to_bitsets(vs: &Vec<Vec<bool>>) -> (out: Vec<FixedBitSet>)
    ensures
        bit_views(out@) == genome_views(vs@),
{
    let mut out: Vec<FixedBitSet> = Vec::new();
    while out.len() < vs.len()
        invariant
            out.len() <= vs.len(),
            bit_views(out@) == genome_views(vs@).take(out.len() as int),
        decreases vs.len() - out.len(),
    {
        let g: FixedBitSet = vec_to_bits(&vs[out.len()]);
        let ghost before = out@;
        out.push(g);
        assert(bit_views(out@) =~= bit_views(before).push(bits_of(g)));
        assert(bit_views(out@) =~= genome_views(vs@).take(out.len() as int));
    }
    assert(genome_views(vs@).take(vs.len() as int) =~= genome_views(vs@));
    out
}

/// Uniform crossover of bit sets: for each parent, one child whose every
/// bit is copied from a parent drawn anew for that bit; the
/// children are those of `uniform_crossover` on the parents' loci.
pub fn uniform_crossover_bits(parents: &Vec<FixedBitSet>, rng: &mut rand::rngs::StdRng) -> (children: Vec<FixedBitSet>)
    requires
        parents.len() > 0,
        all_of_length(bit_views(parents@), bits_of(parents[0]).len()),
    ensures
        are_offspring(bit_views(parents@), bits_of(parents[0]).len(), bit_views(children@)),
{
    let loci: Vec<Vec<bool>> = bitsets_to_vecs(parents);
    proof {
        assert(bit_views(parents@)[0] == bits_of(parents[0]));
        assert(genome_views(loci@)[0] == loci[0]@);
    }
    let offspring: Vec<Vec<bool>> = uniform_crossover(&loci, rng);
    vecs_to_bitsets(&offspring)
}

/// Multi-point crossover of bit sets: for each parent, one child made of
/// `num_cut_points + 1` segments between random distinct cut points, each
/// copied from a randomly drawn parent other than that of the segment before;
/// the children are those of `multi_point_crossover` on the parents' loci.
pub fn multi_point_crossover_bits(
    parents: Vec<FixedBitSet>,
    num_cut_points: usize,
    rng: &mut rand::rngs::StdRng,
) -> (r: Result<Vec<FixedBitSet>, CrossoverError>)
    requires
        multi_point_input(bit_views(parents@), num_cut_points as nat),
    ensures
        r is Err <==> parents.len() < 2,
        r matches Err(e) ==> e == CrossoverError::TooFewParents,
        r matches Ok(children) ==> {
            &&& are_offspring(bit_views(parents@), bits_of(parents[0]).len(), bit_views(children@))
            &&& forall|c: int|
                0 <= c < children.len() ==> is_multi_point_child(
                    bit_views(parents@),
                    num_cut_points as nat,
                    #[trigger] bits_of(children[c]),
                )
        },
{
    let loci: Vec<Vec<bool>> = bitsets_to_vecs(&parents);
    proof {
        if parents.len() > 0 {
            assert(bit_views(parents@)[0] == bits_of(parents[0]));
            assert(genome_views(loci@)[0] == loci[0]@);
        }
    }
    match multi_point_crossover(loci, num_cut_points, rng) {
        Ok(offspring) => {
            let children: Vec<FixedBitSet> = vecs_to_bitsets(&offspring);
            proof {
                let ps = bit_views(parents@);
                assert forall|c: int|
                    0 <= c < children.len() implies is_multi_point_child(
                    ps,
                    num_cut_points as nat,
                    #[trigger] bits_of(children[c]),
                ) by {
                    assert(bit_views(children@)[c] == bits_of(children[c]));
                    assert(genome_views(offspring@)[c] == offspring[c]@);
                }
            }
            Ok(children)
        },
        Err(e) => Err(e),
    }
}

impl MultiPointCrossover for FixedBitSet {
    type Dna = bool;

    open spec fn loci(&self) -> Seq<bool> {
        bits_of(*self)
    }

    fn crossover(parents: Vec<FixedBitSet>, num_cut_points: usize, rng: &mut rand::rngs::StdRng) -> (r: Result<Vec<FixedBitSet>, CrossoverError>) {
        assert(parents@.map_values(|g: FixedBitSet| g.loci()) =~= bit_views(parents@));
        let r = multi_point_crossover_bits(parents, num_cut_points, rng);
        proof {
            if r is Ok {
                let children = r->Ok_0;
                let cs = bit_views(children@);
                assert(children@.map_values(|g: FixedBitSet| g.loci()) =~= cs);
                assert forall|c: int| 0 <= c < cs.len() implies is_multi_point_child(
                    bit_views(parents@),
                    num_cut_points as nat,
                    #[trigger] cs[c],
                ) by {
                    assert(cs[c] == bits_of(children[c]));
                }
            }
        }
        r
    }
}

impl UniformCrossover for FixedBitSet {
    fn uniform_crossover(parents: &Vec<FixedBitSet>, rng: &mut rand::rngs::StdRng) -> (children: Vec<FixedBitSet>) {
        assert(loci_of(parents@) =~= bit_views(parents@));
        let children = uniform_crossover_bits(parents, rng);
        assert(loci_of(children@) =~= bit_views(children@));
        children
    }
}

} // verus!
