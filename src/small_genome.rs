//! Crossover of value-encoded genomes of bytes held in `smallvec::SmallVec`s
//! with room for sixteen loci inline.
//!
//! The operators read each parent's loci into a vector, recombine the
//! vectors, and collect each child back into a small vector.
use crate::crossover::{
    all_of_length, are_offspring, genome_views, is_multi_point_child, loci_of, multi_point_crossover,
    multi_point_input, uniform_crossover, CrossoverError, MultiPointCrossover, UniformCrossover,
};
use smallvec::SmallVec;
use vstd::prelude::*;

verus! {

/// A genome of bytes that keeps its first sixteen loci inline, held in a
/// `smallvec::SmallVec`.
#[verifier::external_body]
pub struct SmallGenome {
    loci: SmallVec<[u8; 16]>,
}

/// The loci of a small genome, in order.
pub uninterp spec fn items_of(v: SmallGenome) -> Seq<u8>;

/// Relies on `SmallVec::new`: an empty vector.
#[verifier::external_body]
fn small_new() -> (v: SmallGenome)
    ensures
        items_of(v) == Seq::<u8>::empty(),
{
    SmallGenome { loci: SmallVec::new() }
}

/// Relies on `SmallVec::len`: the number of items.
#[verifier::external_body]
fn small_len(v: &SmallGenome) -> (n: usize)
    ensures
        n == items_of(*v).len(),
{
    v.loci.len()
}

/// Relies on `SmallVec::push`: appends one item; it panics only when the
/// length would pass `usize::MAX`.
#[verifier::external_body]
fn small_push(v: &mut SmallGenome, value: u8)
    requires
        items_of(*old(v)).len() < usize::MAX,
    ensures
        items_of(*final(v)) == items_of(*old(v)).push(value),
{
    v.loci.push(value)
}

/// Relies on `SmallVec`'s indexing (through its slice): the item at `i`; it
/// panics past the length.
#[verifier::external_body]
fn small_get(v: &SmallGenome, i: usize) -> (x: u8)
    requires
        i < items_of(*v).len(),
    ensures
        x == items_of(*v)[i as int],
{
    v.loci[i]
}

impl SmallGenome {
    /// A small genome holding the loci of `loci`.
    pub fn from_vec(loci: &Vec<u8>) -> (g: SmallGenome)
        ensures
            items_of(g) == loci@,
    {
        vec_to_small(loci)
    }

    /// The loci of this genome.
    pub fn to_vec(&self) -> (loci: Vec<u8>)
        ensures
            loci@ == items_of(*self),
    {
        small_to_vec(self)
    }
}

/// The loci of each genome of `vs`.
pub open spec fn item_views(vs: Seq<SmallGenome>) -> Seq<Seq<u8>> {
    vs.map_values(|v: SmallGenome| items_of(v))
}

/// The loci of `v`, in a `Vec`.
fn small_to_vec(v: &SmallGenome) -> (r: Vec<u8>)
    ensures
        r@ == items_of(*v),
{
    let len: usize = small_len(v);
    let mut r: Vec<u8> = Vec::new();
    while r.len() < len
        invariant
            len == items_of(*v).len(),
            r.len() <= len,
            r@ == items_of(*v).take(r.len() as int),
        decreases len - r.len(),
    {
        let x: u8 = small_get(v, r.len());
        r.push(x);
        assert(r@ =~= items_of(*v).take(r.len() as int));
    }
    assert(r@ =~= items_of(*v));
    r
}

/// A small genome holding the loci of `v`.
fn vec_to_small(v: &Vec<u8>) -> (r: SmallGenome)
    ensures
        items_of(r) == v@,
{
    let mut r: SmallGenome = small_new();
    let mut i: usize = 0;
    while i < v.len()
        invariant
            i <= v.len(),
            items_of(r) == v@.take(i as int),
        decreases v.len() - i,
    {
        small_push(&mut r, v[i]);
        i = i + 1;
        assert(items_of(r) =~= v@.take(i as int));
    }
    assert(v@.take(v.len() as int) =~= v@);
    r
}

/// The loci of every genome of `genomes`, as `Vec`s.
fn smalls_to_vecs(genomes: &Vec<SmallGenome>) -> (vs: Vec<Vec<u8>>)
    ensures
        vs.len() == genomes.len(),
        genome_views(vs@) == item_views(genomes@),
{
    let mut vs: Vec<Vec<u8>> = Vec::new();
    while vs.len() < genomes.len()
        invariant
            vs.len() <= genomes.len(),
            genomes.len() == item_views(genomes@).len(),
            genome_views(vs@) == item_views(genomes@).take(vs.len() as int),
        decreases genomes.len() - vs.len(),
    {
        let v: Vec<u8> = small_to_vec(&genomes[vs.len()]);
        let ghost before = vs@;
        vs.push(v);
        assert(genome_views(vs@) =~= genome_views(before).push(v@));
        assert(genome_views(vs@) =~= item_views(genomes@).take(vs.len() as int));
    }
    assert(genome_views(vs@) =~= item_views(genomes@));
    vs
}

/// A SmallGenome for each vector of `vs`, holding its loci.
fn vecs_to_smalls(vs: &Vec<Vec<u8>>) -> (out: Vec<SmallGenome>)
    ensures
        item_views(out@) == genome_views(vs@),
{
    let mut out: Vec<SmallGenome> = Vec::new();
    while out.len() < vs.len()
        invariant
            out.len() <= vs.len(),
            item_views(out@) == genome_views(vs@).take(out.len() as int),
        decreases vs.len() - out.len(),
    {
        let g: SmallGenome = vec_to_small(&vs[out.len()]);
        let ghost before = out@;
        out.push(g);
        assert(item_views(out@) =~= item_views(before).push(items_of(g)));
        assert(item_views(out@) =~= genome_views(vs@).take(out.len() as int));
    }
    assert(genome_views(vs@).take(vs.len() as int) =~= genome_views(vs@));
    out
}

/// Uniform crossover of small genomes: for each parent, one child whose every
/// locus is copied from a parent drawn anew for that locus; the
/// children are those of `uniform_crossover` on the parents' loci.
pub fn uniform_crossover_small(parents: &Vec<SmallGenome>, rng: &mut rand::rngs::StdRng) -> (children: Vec<SmallGenome>)
    requires
        parents.len() > 0,
        all_of_length(item_views(parents@), items_of(parents[0]).len()),
    ensures
        are_offspring(item_views(parents@), items_of(parents[0]).len(), item_views(children@)),
{
    let loci: Vec<Vec<u8>> = smalls_to_vecs(parents);
    proof {
        assert(item_views(parents@)[0] == items_of(parents[0]));
        assert(genome_views(loci@)[0] == loci[0]@);
    }
    let offspring: Vec<Vec<u8>> = uniform_crossover(&loci, rng);
    vecs_to_smalls(&offspring)
}

/// Multi-point crossover of small genomes: for each parent, one child made of
/// `num_cut_points + 1` segments between random distinct cut points, each
/// copied from a randomly drawn parent other than that of the segment before;
/// the children are those of `multi_point_crossover` on the parents' loci.
pub fn multi_point_crossover_small(
    parents: Vec<SmallGenome>,
    num_cut_points: usize,
    rng: &mut rand::rngs::StdRng,
) -> (r: Result<Vec<SmallGenome>, CrossoverError>)
    requires
        multi_point_input(item_views(parents@), num_cut_points as nat),
    ensures
        r is Err <==> parents.len() < 2,
        r matches Err(e) ==> e == CrossoverError::TooFewParents,
        r matches Ok(children) ==> {
            &&& are_offspring(item_views(parents@), items_of(parents[0]).len(), item_views(children@))
            &&& forall|c: int|
                0 <= c < children.len() ==> is_multi_point_child(
                    item_views(parents@),
                    num_cut_points as nat,
                    #[trigger] items_of(children[c]),
                )
        },
{
    let loci: Vec<Vec<u8>> = smalls_to_vecs(&parents);
    proof {
        if parents.len() > 0 {
            assert(item_views(parents@)[0] == items_of(parents[0]));
            assert(genome_views(loci@)[0] == loci[0]@);
        }
    }
    match multi_point_crossover(loci, num_cut_points, rng) {
        Ok(offspring) => {
            let children: Vec<SmallGenome> = vecs_to_smalls(&offspring);
            proof {
                let ps = item_views(parents@);
                assert forall|c: int|
                    0 <= c < children.len() implies is_multi_point_child(
                    ps,
                    num_cut_points as nat,
                    #[trigger] items_of(children[c]),
                ) by {
                    assert(item_views(children@)[c] == items_of(children[c]));
                    assert(genome_views(offspring@)[c] == offspring[c]@);
                }
            }
            Ok(children)
        },
        Err(e) => Err(e),
    }
}

impl MultiPointCrossover for SmallGenome {
    type Dna = u8;

    open spec fn loci(&self) -> Seq<u8> {
        items_of(*self)
    }

    fn crossover(parents: Vec<SmallGenome>, num_cut_points: usize, rng: &mut rand::rngs::StdRng) -> (r: Result<Vec<SmallGenome>, CrossoverError>) {
        assert(parents@.map_values(|g: SmallGenome| g.loci()) =~= item_views(parents@));
        let r = multi_point_crossover_small(parents, num_cut_points, rng);
        proof {
            if r is Ok {
                let children = r->Ok_0;
                let cs = item_views(children@);
                assert(children@.map_values(|g: SmallGenome| g.loci()) =~= cs);
                assert forall|c: int| 0 <= c < cs.len() implies is_multi_point_child(
                    item_views(parents@),
                    num_cut_points as nat,
                    #[trigger] cs[c],
                ) by {
                    assert(cs[c] == items_of(children[c]));
                }
            }
        }
        r
    }
}

impl UniformCrossover for SmallGenome {
    fn uniform_crossover(parents: &Vec<SmallGenome>, rng: &mut rand::rngs::StdRng) -> (children: Vec<SmallGenome>) {
        assert(loci_of(parents@) =~= item_views(parents@));
        let children = uniform_crossover_small(parents, rng);
        assert(loci_of(children@) =~= item_views(children@));
        children
    }
}

} // verus!
