//! Discrete recombination of genomes: uniform, single-point and multi-point
//! crossover, written over `Vec`s and, through the `MultiPointCrossover`
//! trait, offered for every genome type that implements it.
//!
//! Every operator turns `p` parents of a common length `L` into `p` children
//! of length `L`, each of whose loci holds the value that one of the parents
//! has at that locus.
use crate::random::random_below;
use vstd::prelude::*;
use vstd::string::StringExecFns;

verus! {

/// The loci of each genome of `genomes`.
pub open spec fn genome_views<V>(genomes: Seq<Vec<V>>) -> Seq<Seq<V>> {
    genomes.map_values(|g: Vec<V>| g@)
}

/// Every genome of `parents` has `len` loci.
pub open spec fn all_of_length<V>(parents: Seq<Seq<V>>, len: nat) -> bool {
    forall|j: int| 0 <= j < parents.len() ==> (#[trigger] parents[j]).len() == len
}

/// Locus `i` of `child` holds the value that some parent has at that locus.
pub open spec fn locus_from_parent<V>(parents: Seq<Seq<V>>, child: Seq<V>, i: int) -> bool {
    exists|j: int| 0 <= j < parents.len() && #[trigger] parents[j][i] == child[i]
}

/// Each locus of `child` holds the value that some parent has at that locus.
pub open spec fn inherits_each_locus<V>(parents: Seq<Seq<V>>, child: Seq<V>) -> bool {
    forall|i: int| 0 <= i < child.len() ==> #[trigger] locus_from_parent(parents, child, i)
}

/// Segment `s` of a partition given by its closing `bounds` starts where
/// segment `s - 1` ends; segment `0` starts at locus `0`.
pub open spec fn segment_start(bounds: Seq<usize>, s: int) -> int {
    if s <= 0 {
        0
    } else {
        bounds[s - 1] as int
    }
}

/// `bounds` splits the loci `0..len` into `bounds.len()` contiguous, non-empty
/// segments, the last of which closes at `len`.
pub open spec fn valid_bounds(bounds: Seq<usize>, len: nat) -> bool {
    &&& bounds.len() > 0
    &&& bounds.last() == len
    &&& forall|s: int| 0 <= s < bounds.len() ==> #[trigger] segment_start(bounds, s) < bounds[s]
}

/// Each segment names a parent, and adjacent segments name different ones.
pub open spec fn alternating_picks(picks: Seq<usize>, num_parents: nat) -> bool {
    &&& forall|s: int| 0 <= s < picks.len() ==> #[trigger] picks[s] < num_parents
    &&& forall|s: int| 0 < s < picks.len() ==> #[trigger] picks[s] != picks[s - 1]
}

/// `child` copies every segment of `bounds` from the parent that `picks`
/// names for that segment.
pub open spec fn is_segmented_child<V>(
    parents: Seq<Seq<V>>,
    bounds: Seq<usize>,
    picks: Seq<usize>,
    child: Seq<V>,
) -> bool {
    &&& bounds.len() > 0
    &&& child.len() == bounds.last()
    &&& forall|s: int, i: int|
        #![trigger bounds[s], child[i]]
        0 <= s < bounds.len() && segment_start(bounds, s) <= i < bounds[s] ==> child[i]
            == parents[picks[s] as int][i]
}

/// Builds the child that takes each segment of `bounds` from the parent that
/// `picks` names for it.
pub fn splice_segments<V: Copy>(parents: &Vec<Vec<V>>, bounds: &Vec<usize>, picks: &Vec<usize>) -> (child: Vec<V>)
    requires
        valid_bounds(bounds@, bounds@.last() as nat),
        all_of_length(genome_views(parents@), bounds@.last() as nat),
        picks.len() == bounds.len(),
        forall|s: int| 0 <= s < picks.len() ==> #[trigger] picks[s] < parents.len(),
    ensures
        is_segmented_child(genome_views(parents@), bounds@, picks@, child@),
        inherits_each_locus(genome_views(parents@), child@),
{
    let ghost ps = genome_views(parents@);
    assert(forall|k: int| 0 <= k < parents.len() ==> #[trigger] ps[k] == parents[k]@);
    let mut child: Vec<V> = Vec::new();
    let mut s: usize = 0;
    while s < bounds.len()
        invariant
            ps.len() == parents.len(),
            forall|k: int| 0 <= k < parents.len() ==> #[trigger] ps[k] == parents[k]@,
            valid_bounds(bounds@, bounds@.last() as nat),
            all_of_length(ps, bounds@.last() as nat),
            picks.len() == bounds.len(),
            forall|t: int| 0 <= t < picks.len() ==> #[trigger] picks[t] < parents.len(),
            s <= bounds.len(),
            child.len() == segment_start(bounds@, s as int),
            forall|t: int, i: int|
                #![trigger bounds[t], child[i]]
                0 <= t < s && segment_start(bounds@, t) <= i < bounds[t] ==> child[i]
                    == ps[picks[t] as int][i],
        decreases bounds.len() - s,
    {
        let start: usize = if s == 0 {
            0
        } else {
            bounds[s - 1]
        };
        let end: usize = bounds[s];
        let pick: usize = picks[s];
        proof {
            assert(segment_start(bounds@, s as int) < bounds[s as int]);
            assert(bounds[bounds.len() - 1] == bounds@.last());
            lemma_bounds_increase(bounds@, s as int, bounds.len() - 1);
            assert(ps[pick as int] == parents[pick as int]@);
            assert(ps[pick as int].len() == bounds@.last());
        }
        let ghost prev = child@;
        copy_segment(&mut child, &parents[pick], start, end);
        proof {
            lemma_extend_segments(bounds@, ps, picks@, prev, child@, s as int);
        }
        s = s + 1;
    }
    proof {
        lemma_segmented_child_inherits(ps, bounds@, picks@, child@);
    }
    child
}

/// Appending segment `s`, taken from its parent, to a child that holds the
/// segments before it yields a child that holds the segments up to `s`.
proof fn lemma_extend_segments<V>(
    bounds: Seq<usize>,
    ps: Seq<Seq<V>>,
    picks: Seq<usize>,
    prev: Seq<V>,
    child: Seq<V>,
    s: int,
)
    requires
        valid_bounds(bounds, bounds.last() as nat),
        0 <= s < bounds.len(),
        prev.len() == segment_start(bounds, s),
        child.len() == bounds[s],
        forall|k: int| 0 <= k < prev.len() ==> #[trigger] child[k] == prev[k],
        forall|k: int| prev.len() <= k < bounds[s] ==> #[trigger] child[k] == ps[picks[s] as int][k],
        forall|t: int, i: int|
            #![trigger bounds[t], prev[i]]
            0 <= t < s && segment_start(bounds, t) <= i < bounds[t] ==> prev[i]
                == ps[picks[t] as int][i],
    ensures
        forall|t: int, i: int|
            #![trigger bounds[t], child[i]]
            0 <= t < s + 1 && segment_start(bounds, t) <= i < bounds[t] ==> child[i]
                == ps[picks[t] as int][i],
{
    assert forall|t: int, i: int|
        #![trigger bounds[t], child[i]]
        0 <= t < s + 1 && segment_start(bounds, t) <= i < bounds[t] implies child[i]
            == ps[picks[t] as int][i] by {
        if t < s {
            lemma_bounds_increase(bounds, t, s - 1);
            assert(i < prev.len());
            assert(child[i] == prev[i]);
            assert(prev[i] == ps[picks[t] as int][i]);
        } else {
            assert(prev.len() <= i < bounds[s]);
        }
    }
}

/// Appends the loci `start..end` of `parent` to `child`, which holds `start` loci.
fn copy_segment<V: Copy>(child: &mut Vec<V>, parent: &Vec<V>, start: usize, end: usize)
    requires
        old(child).len() == start,
        start <= end <= parent.len(),
    ensures
        final(child).len() == end,
        forall|k: int| 0 <= k < start ==> final(child)[k] == old(child)[k],
        forall|k: int| start <= k < end ==> final(child)[k] == parent[k],
{
    let mut i: usize = start;
    while i < end
        invariant
            start <= i <= end <= parent.len(),
            child.len() == i,
            forall|k: int| 0 <= k < start ==> child[k] == old(child)[k],
            forall|k: int| start <= k < i ==> child[k] == parent[k],
        decreases end - i,
    {
        child.push(parent[i]);
        i = i + 1;
    }
}

/// The segment of valid `bounds` that holds locus `i`.
pub proof fn lemma_segment_of(bounds: Seq<usize>, i: int) -> (s: int)
    requires
        valid_bounds(bounds, bounds.last() as nat),
        0 <= i < bounds.last(),
    ensures
        0 <= s < bounds.len(),
        segment_start(bounds, s) <= i < bounds[s],
    decreases bounds.len(),
{
    let n = bounds.len() - 1;
    if n == 0 || i >= bounds[n - 1] {
        assert(segment_start(bounds, n) < bounds[n]);
        n
    } else {
        let shorter = bounds.drop_last();
        assert forall|t: int| 0 <= t < shorter.len() implies #[trigger] segment_start(shorter, t) < shorter[t] by {
            assert(segment_start(bounds, t) < bounds[t]);
        }
        lemma_segment_of(shorter, i)
    }
}

/// A child spliced from segments takes each locus from one of the parents.
pub proof fn lemma_segmented_child_inherits<V>(
    parents: Seq<Seq<V>>,
    bounds: Seq<usize>,
    picks: Seq<usize>,
    child: Seq<V>,
)
    requires
        valid_bounds(bounds, bounds.last() as nat),
        is_segmented_child(parents, bounds, picks, child),
        picks.len() == bounds.len(),
        forall|s: int| 0 <= s < picks.len() ==> #[trigger] picks[s] < parents.len(),
    ensures
        inherits_each_locus(parents, child),
{
    assert forall|i: int| 0 <= i < child.len() implies #[trigger] locus_from_parent(
        parents,
        child,
        i,
    ) by {
        let s = lemma_segment_of(bounds, i);
        assert(bounds[s] > i);
        let j = picks[s] as int;
        assert(child[i] == parents[j][i]);
        assert(0 <= j < parents.len());
    }
}

/// `child` is spliced from `num_cut_points + 1` segments covering all its
/// loci, adjacent segments taken from different parents.
pub open spec fn is_multi_point_child<V>(parents: Seq<Seq<V>>, num_cut_points: nat, child: Seq<V>) -> bool {
    exists|bounds: Seq<usize>, picks: Seq<usize>|
        #[trigger] is_segmented_child(parents, bounds, picks, child) && valid_bounds(
            bounds,
            child.len(),
        ) && bounds.len() == num_cut_points + 1 && picks.len() == num_cut_points + 1
            && alternating_picks(picks, parents.len())
}

/// What a crossover operator hands back for `parents`, all of length `len`:
/// one child per parent, each of length `len`, each locus from some parent.
pub open spec fn are_offspring<V>(parents: Seq<Seq<V>>, len: nat, children: Seq<Seq<V>>) -> bool {
    &&& children.len() == parents.len()
    &&& forall|c: int| 0 <= c < children.len() ==> (#[trigger] children[c]).len() == len
    &&& forall|c: int| 0 <= c < children.len() ==> inherits_each_locus(parents, #[trigger] children[c])
}

/// Why a crossover could not be carried out.
#[derive(Clone, Copy, Debug, PartialEq, Eq, Structural)]
pub enum CrossoverError {
    /// Adjacent segments must come from different parents, which takes at
    /// least two of them.
    TooFewParents,
}

/// What multi-point crossover asks of its input: parents of one common
/// length `L`, and `0 < num_cut_points < L` where there is a parent.
pub open spec fn multi_point_input<V>(parents: Seq<Seq<V>>, num_cut_points: nat) -> bool {
    parents.len() > 0 ==> {
        &&& all_of_length(parents, parents[0].len())
        &&& 0 < num_cut_points < parents[0].len()
    }
}

/// Multi-point crossover: for each parent, one child made of
/// `num_cut_points + 1` segments between random distinct cut points, each
/// segment copied from a randomly drawn parent other than the one of the
/// segment before it.
pub fn multi_point_crossover<V: Copy>(
    parents: Vec<Vec<V>>,
    num_cut_points: usize,
    rng: &mut rand::rngs::StdRng,
) -> (r: Result<Vec<Vec<V>>, CrossoverError>)
    requires
        multi_point_input(genome_views(parents@), num_cut_points as nat),
    ensures
        r is Err <==> parents.len() < 2,
        r matches Err(e) ==> e == CrossoverError::TooFewParents,
        r matches Ok(children) ==> {
            &&& are_offspring(genome_views(parents@), parents[0]@.len(), genome_views(children@))
            &&& forall|c: int|
                0 <= c < children.len() ==> is_multi_point_child(
                    genome_views(parents@),
                    num_cut_points as nat,
                    #[trigger] children[c]@,
                )
        },
{
    if parents.len() < 2 {
        return Err(CrossoverError::TooFewParents);
    }
    let genome_length: usize = parents[0].len();
    let num_parents: usize = parents.len();
    let mut offspring: Vec<Vec<V>> = Vec::new();
    while offspring.len() < num_parents
        invariant
            num_parents == parents.len() >= 2,
            genome_length == parents[0]@.len(),
            all_of_length(genome_views(parents@), genome_length as nat),
            0 < num_cut_points < genome_length,
            offspring.len() <= num_parents,
            forall|c: int| 0 <= c < offspring.len() ==> (#[trigger] offspring[c]@).len() == genome_length,
            forall|c: int| 0 <= c < offspring.len() ==> inherits_each_locus(genome_views(parents@), #[trigger] offspring[c]@),
            forall|c: int|
                0 <= c < offspring.len() ==> is_multi_point_child(
                    genome_views(parents@),
                    num_cut_points as nat,
                    #[trigger] offspring[c]@,
                ),
        decreases num_parents - offspring.len(),
    {
        let mut bounds: Vec<usize> = random_cut_points(rng, num_cut_points, genome_length);
        bounds.push(genome_length);
        proof {
            assert forall|s: int| 0 <= s < bounds.len() implies #[trigger] segment_start(bounds@, s) < bounds[s] by {
                if s > 0 && s < num_cut_points {
                    assert(bounds[s - 1] < bounds[s]);
                }
            }
        }
        let picks: Vec<usize> = random_alternating_picks(rng, bounds.len(), num_parents);
        let genome: Vec<V> = splice_segments(&parents, &bounds, &picks);
        assert(is_segmented_child(genome_views(parents@), bounds@, picks@, genome@));
        offspring.push(genome);
        proof {
            assert(offspring[offspring.len() - 1]@ == genome@);
        }
    }
    Ok(offspring)
}

/// Uniform crossover: for each parent, one child whose every locus is copied
/// from a parent drawn anew for that locus.
pub fn uniform_crossover<V: Copy>(parents: &Vec<Vec<V>>, rng: &mut rand::rngs::StdRng) -> (children: Vec<Vec<V>>)
    requires
        parents.len() > 0,
        all_of_length(genome_views(parents@), parents[0]@.len()),
    ensures
        are_offspring(genome_views(parents@), parents[0]@.len(), genome_views(children@)),
{
    let genome_length: usize = parents[0].len();
    let num_parents: usize = parents.len();
    let mut offspring: Vec<Vec<V>> = Vec::new();
    while offspring.len() < num_parents
        invariant
            num_parents == parents.len() > 0,
            genome_length == parents[0]@.len(),
            all_of_length(genome_views(parents@), genome_length as nat),
            offspring.len() <= num_parents,
            forall|c: int| 0 <= c < offspring.len() ==> (#[trigger] offspring[c]@).len() == genome_length,
            forall|c: int| 0 <= c < offspring.len() ==> inherits_each_locus(genome_views(parents@), #[trigger] offspring[c]@),
        decreases num_parents - offspring.len(),
    {
        let mut picks: Vec<usize> = Vec::new();
        let mut locus: usize = 0;
        while locus < genome_length
            invariant
                num_parents == parents.len() > 0,
                locus <= genome_length,
                picks.len() == locus,
                forall|i: int| 0 <= i < picks.len() ==> #[trigger] picks[i] < parents.len(),
            decreases genome_length - locus,
        {
            picks.push(random_below(rng, num_parents));
            locus = locus + 1;
        }
        let genome: Vec<V> = compose_uniform(parents, &picks);
        offspring.push(genome);
        proof {
            assert(offspring[offspring.len() - 1]@ == genome@);
        }
    }
    offspring
}

/// What multi-point crossover hands back for `parents`: the error exactly
/// when there are fewer than two parents, else one child per parent, each of
/// the parents' length and spliced from `num_cut_points + 1` segments.
pub open spec fn multi_point_result<V>(
    parents: Seq<Seq<V>>,
    num_cut_points: nat,
    r: Result<Seq<Seq<V>>, CrossoverError>,
) -> bool {
    match r {
        Err(e) => parents.len() < 2 && e == CrossoverError::TooFewParents,
        Ok(children) => {
            &&& parents.len() >= 2
            &&& are_offspring(parents, parents[0].len(), children)
            &&& forall|c: int|
                0 <= c < children.len() ==> is_multi_point_child(parents, num_cut_points, #[trigger] children[c])
        },
    }
}

/// A genome that multi-point crossover can recombine.
pub trait MultiPointCrossover: Sized {
    /// The value held at one locus.
    type Dna;

    /// The loci of this genome, in order.
    spec fn loci(&self) -> Seq<Self::Dna>;

    /// For each parent, one child made of `num_cut_points + 1` segments
    /// between random distinct cut points, each segment copied from a
    /// randomly drawn parent other than the one of the segment before it.
    fn crossover(parents: Vec<Self>, num_cut_points: usize, rng: &mut rand::rngs::StdRng) -> (r: Result<Vec<Self>, CrossoverError>)
        requires
            multi_point_input(parents@.map_values(|g: Self| g.loci()), num_cut_points as nat),
        ensures
            multi_point_result(
                parents@.map_values(|g: Self| g.loci()),
                num_cut_points as nat,
                match r {
                    Ok(children) => Ok(children@.map_values(|g: Self| g.loci())),
                    Err(e) => Err(e),
                },
            ),
    ;
}

/// The loci of each genome of `genomes`.
pub open spec fn loci_of<G: MultiPointCrossover>(genomes: Seq<G>) -> Seq<Seq<G::Dna>> {
    genomes.map_values(|g: G| g.loci())
}

/// The loci of the children of a crossover, or its error.
pub open spec fn result_loci<G: MultiPointCrossover>(r: Result<Vec<G>, CrossoverError>) -> Result<Seq<Seq<G::Dna>>, CrossoverError> {
    match r {
        Ok(children) => Ok(loci_of(children@)),
        Err(e) => Err(e),
    }
}

impl<V: Copy> MultiPointCrossover for Vec<V> {
    type Dna = V;

    open spec fn loci(&self) -> Seq<V> {
        self@
    }

    fn crossover(parents: Vec<Vec<V>>, num_cut_points: usize, rng: &mut rand::rngs::StdRng) -> (r: Result<Vec<Vec<V>>, CrossoverError>) {
        assert(parents@.map_values(|g: Vec<V>| g.loci()) =~= genome_views(parents@));
        let r = multi_point_crossover(parents, num_cut_points, rng);
        proof {
            if r is Ok {
                let children = r->Ok_0;
                assert(children@.map_values(|g: Vec<V>| g.loci()) =~= genome_views(children@));
                let cs = genome_views(children@);
                assert forall|c: int| 0 <= c < cs.len() implies is_multi_point_child(
                    genome_views(parents@),
                    num_cut_points as nat,
                    #[trigger] cs[c],
                ) by {
                    assert(cs[c] == children[c]@);
                }
            }
        }
        r
    }
}

/// A genome that uniform crossover can recombine.
pub trait UniformCrossover: MultiPointCrossover {
    /// For each parent, one child whose every locus is copied from a parent
    /// drawn anew for that locus.
    fn uniform_crossover(parents: &Vec<Self>, rng: &mut rand::rngs::StdRng) -> (children: Vec<Self>)
        requires
            parents.len() > 0,
            all_of_length(loci_of(parents@), parents[0].loci().len()),
        ensures
            are_offspring(loci_of(parents@), parents[0].loci().len(), loci_of(children@)),
    ;
}

impl<V: Copy> UniformCrossover for Vec<V> {
    fn uniform_crossover(parents: &Vec<Vec<V>>, rng: &mut rand::rngs::StdRng) -> (children: Vec<Vec<V>>) {
        assert(loci_of(parents@) =~= genome_views(parents@));
        let children = uniform_crossover(parents, rng);
        assert(loci_of(children@) =~= genome_views(children@));
        children
    }
}

/// Combines genomes by copying each locus from a parent drawn at random.
#[derive(Clone, Copy, Debug, PartialEq, Eq, Structural)]
pub struct UniformCrossBreeder {}

impl Default for UniformCrossBreeder {
    fn default() -> (r: Self)
        ensures
            r == (UniformCrossBreeder {  }),
    {
        UniformCrossBreeder {  }
    }
}

impl UniformCrossBreeder {
    pub fn new() -> Self {
        UniformCrossBreeder {  }
    }

    /// The name of this operator.
    pub fn name() -> (n: String)
        ensures
            n@ == "Uniform-Cross-Breeder"@,
    {
        String::from_str("Uniform-Cross-Breeder")
    }

    /// One child per parent, each locus from a parent drawn for that locus.
    pub fn crossover<G: UniformCrossover>(&self, parents: Vec<G>, rng: &mut rand::rngs::StdRng) -> (children: Vec<G>)
        requires
            parents.len() > 0,
            all_of_length(loci_of(parents@), parents[0].loci().len()),
        ensures
            are_offspring(loci_of(parents@), parents[0].loci().len(), loci_of(children@)),
    {
        G::uniform_crossover(&parents, rng)
    }
}

/// Combines genomes by splitting them at one random cut point.
#[derive(Clone, Copy, Debug, PartialEq, Eq, Structural)]
pub struct SinglePointCrossBreeder {}

impl Default for SinglePointCrossBreeder {
    fn default() -> (r: Self)
        ensures
            r == (SinglePointCrossBreeder {  }),
    {
        SinglePointCrossBreeder {  }
    }
}

impl SinglePointCrossBreeder {
    pub fn new() -> Self {
        SinglePointCrossBreeder {  }
    }

    /// The name of this operator.
    pub fn name() -> (n: String)
        ensures
            n@ == "Single-Point-Cross-Breeder"@,
    {
        String::from_str("Single-Point-Cross-Breeder")
    }

    /// Multi-point crossover with exactly one cut point.
    pub fn crossover<G: MultiPointCrossover>(&self, parents: Vec<G>, rng: &mut rand::rngs::StdRng) -> (r: Result<Vec<G>, CrossoverError>)
        requires
            multi_point_input(loci_of(parents@), 1),
        ensures
            multi_point_result(loci_of(parents@), 1, result_loci(r)),
    {
        G::crossover(parents, 1, rng)
    }
}

/// Combines genomes by splitting them at a fixed number of random cut points.
#[derive(Clone, Copy, Debug, PartialEq, Eq, Structural)]
pub struct MultiPointCrossBreeder {
    /// The number of cut points used by this operator.
    num_cut_points: usize,
}

impl MultiPointCrossBreeder {
    /// The number of cut points, in specifications.
    pub closed spec fn spec_num_cut_points(&self) -> usize {
        self.num_cut_points
    }

    pub fn new(num_cut_points: usize) -> (r: Self)
        ensures
            r.spec_num_cut_points() == num_cut_points,
    {
        MultiPointCrossBreeder { num_cut_points }
    }

    /// The name of this operator.
    pub fn name() -> (n: String)
        ensures
            n@ == "Multi-Point-Cross-Breeder"@,
    {
        String::from_str("Multi-Point-Cross-Breeder")
    }

    /// Returns the number of cut points used by this operator.
    pub fn num_cut_points(&self) -> (r: usize)
        ensures
            r == self.spec_num_cut_points(),
    {
        self.num_cut_points
    }

    /// Sets the number of cut points used by this operator to the given value.
    pub fn set_num_cut_points(&mut self, value: usize)
        ensures
            final(self).spec_num_cut_points() == value,
    {
        self.num_cut_points = value;
    }

    /// Multi-point crossover with this operator's number of cut points.
    pub fn crossover<G: MultiPointCrossover>(&self, parents: Vec<G>, rng: &mut rand::rngs::StdRng) -> (r: Result<Vec<G>, CrossoverError>)
        requires
            multi_point_input(loci_of(parents@), self.spec_num_cut_points() as nat),
        ensures
            multi_point_result(loci_of(parents@), self.spec_num_cut_points() as nat, result_loci(r)),
    {
        G::crossover(parents, self.num_cut_points, rng)
    }
}

/// `child` copies its loci before `cut` from parent `a` and the rest from a
/// different parent `b`, with `0 < cut < child.len()`.
pub open spec fn two_segment_child<V>(parents: Seq<Seq<V>>, child: Seq<V>, cut: int, a: int, b: int) -> bool {
    &&& 0 < cut < child.len()
    &&& 0 <= a < parents.len()
    &&& 0 <= b < parents.len()
    &&& a != b
    &&& forall|i: int| 0 <= i < cut ==> #[trigger] child[i] == parents[a][i]
    &&& forall|i: int| cut <= i < child.len() ==> #[trigger] child[i] == parents[b][i]
}

/// A child of multi-point crossover with one cut point is two segments: the
/// loci before some cut point `0 < cut < L` copied from one parent, the rest
/// from another.
pub proof fn single_cut_child_has_two_segments<V>(parents: Seq<Seq<V>>, child: Seq<V>)
    requires
        is_multi_point_child(parents, 1, child),
    ensures
        exists|cut: int, a: int, b: int| #[trigger] two_segment_child(parents, child, cut, a, b),
{
    let (bounds, picks) = choose|bounds: Seq<usize>, picks: Seq<usize>|
        #[trigger] is_segmented_child(parents, bounds, picks, child) && valid_bounds(
            bounds,
            child.len(),
        ) && bounds.len() == 2 && picks.len() == 2 && alternating_picks(picks, parents.len());
    let cut = bounds[0] as int;
    let a = picks[0] as int;
    let b = picks[1] as int;
    assert(segment_start(bounds, 0) < bounds[0]);
    assert(segment_start(bounds, 1) < bounds[1]);
    assert(picks[1] != picks[0]);
    assert(picks[0] < parents.len());
    assert(picks[1] < parents.len());
    assert forall|i: int| 0 <= i < cut implies #[trigger] child[i] == parents[a][i] by {
        assert(bounds[0] > i);
    }
    assert forall|i: int| cut <= i < child.len() implies #[trigger] child[i] == parents[b][i] by {
        assert(bounds[1] > i);
    }
    assert(two_segment_child(parents, child, cut, a, b));
}

/// The child whose locus `i` comes from parent `picks[i]`.
pub open spec fn uniform_child<V>(parents: Seq<Seq<V>>, picks: Seq<usize>) -> Seq<V> {
    Seq::new(picks.len(), |i: int| parents[picks[i] as int][i])
}

/// Builds the child that takes locus `i` from parent `picks[i]`.
pub fn compose_uniform<V: Copy>(parents: &Vec<Vec<V>>, picks: &Vec<usize>) -> (child: Vec<V>)
    requires
        all_of_length(genome_views(parents@), picks.len() as nat),
        forall|i: int| 0 <= i < picks.len() ==> #[trigger] picks[i] < parents.len(),
    ensures
        child@ == uniform_child(genome_views(parents@), picks@),
        inherits_each_locus(genome_views(parents@), child@),
{
    let mut child: Vec<V> = Vec::new();
    let mut i: usize = 0;
    while i < picks.len()
        invariant
            all_of_length(genome_views(parents@), picks.len() as nat),
            forall|k: int| 0 <= k < picks.len() ==> #[trigger] picks[k] < parents.len(),
            i <= picks.len(),
            child@ == uniform_child(genome_views(parents@), picks@).take(i as int),
        decreases picks.len() - i,
    {
        let pick: usize = picks[i];
        assert(genome_views(parents@)[pick as int] == parents[pick as int]@);
        assert(parents[pick as int]@.len() == picks.len());
        child.push(parents[pick][i]);
        i = i + 1;
        assert(child@ =~= uniform_child(genome_views(parents@), picks@).take(i as int));
    }
    assert(child@ =~= uniform_child(genome_views(parents@), picks@));
    assert forall|i: int| 0 <= i < child.len() implies #[trigger] locus_from_parent(
        genome_views(parents@),
        child@,
        i,
    ) by {
        assert(parents@[picks[i] as int]@[i] == child@[i]);
    }
    child
}

/// Draws `n` distinct cut points strictly between `0` and `length`, in
/// ascending order.
pub fn random_cut_points(rng: &mut rand::rngs::StdRng, n: usize, length: usize) -> (cuts: Vec<usize>)
    requires
        0 < n < length,
    ensures
        cuts.len() == n,
        forall|c: int| 0 <= c < cuts.len() ==> 0 < #[trigger] cuts[c] < length,
        forall|c: int| 0 < c < cuts.len() ==> cuts[c - 1] < #[trigger] cuts[c],
{
    let mut candidates: Vec<usize> = Vec::new();
    let mut x: usize = 1;
    while x < length
        invariant
            1 <= x <= length,
            candidates.len() == x - 1,
            forall|c: int| 0 <= c < candidates.len() ==> #[trigger] candidates[c] == c + 1,
        decreases length - x,
    {
        candidates.push(x);
        x = x + 1;
    }
    let mut cuts: Vec<usize> = Vec::new();
    while cuts.len() < n
        invariant
            n < length,
            cuts.len() <= n,
            candidates.len() + cuts.len() == length - 1,
            candidates@.no_duplicates(),
            forall|c: int| 0 <= c < candidates.len() ==> 0 < #[trigger] candidates[c] < length,
            forall|c: int| 0 <= c < cuts.len() ==> 0 < #[trigger] cuts[c] < length,
            forall|c: int| 0 < c < cuts.len() ==> cuts[c - 1] < #[trigger] cuts[c],
            forall|c: int| 0 <= c < candidates.len() ==> !cuts@.contains(#[trigger] candidates[c]),
        decreases n - cuts.len(),
    {
        let j: usize = random_below(rng, candidates.len());
        let cut: usize = candidates.remove(j);
        let ghost before = cuts@;
        assert(!before.contains(cut));
        let mut pos: usize = 0;
        while pos < cuts.len() && cuts[pos] < cut
            invariant
                pos <= cuts.len(),
                forall|c: int| 0 <= c < pos ==> #[trigger] cuts[c] < cut,
            decreases cuts.len() - pos,
        {
            pos = pos + 1;
        }
        proof {
            if pos < cuts.len() {
                assert(cuts[pos as int] != cut);
                assert(cuts[pos as int] > cut);
                assert forall|c: int| pos <= c < cuts.len() implies #[trigger] cuts[c] > cut by {
                    lemma_increasing(cuts@, pos as int, c);
                }
            }
        }
        cuts.insert(pos, cut);
        proof {
            assert forall|c: int| 0 <= c < candidates.len() implies !cuts@.contains(
                #[trigger] candidates[c],
            ) by {
                let v = candidates[c];
                assert(v != cut);
                if cuts@.contains(v) {
                    let w = choose|w: int| 0 <= w < cuts.len() && cuts@[w] == v;
                    if w < pos {
                        assert(before[w] == v);
                    } else if w > pos {
                        assert(before[w - 1] == v);
                    }
                }
            }
        }
    }
    cuts
}

/// A strictly increasing sequence keeps its order between any two positions.
proof fn lemma_increasing(s: Seq<usize>, a: int, b: int)
    requires
        forall|c: int| 0 < c < s.len() ==> s[c - 1] < #[trigger] s[c],
        0 <= a <= b < s.len(),
    ensures
        s[a] <= s[b],
    decreases b - a,
{
    if a < b {
        lemma_increasing(s, a, b - 1);
    }
}

/// Draws a parent for each of `segments` segments, never the same parent for
/// two adjacent segments.
pub fn random_alternating_picks(rng: &mut rand::rngs::StdRng, segments: usize, num_parents: usize) -> (picks: Vec<usize>)
    requires
        num_parents >= 2,
    ensures
        picks.len() == segments,
        alternating_picks(picks@, num_parents as nat),
{
    let mut picks: Vec<usize> = Vec::new();
    while picks.len() < segments
        invariant
            num_parents >= 2,
            picks.len() <= segments,
            alternating_picks(picks@, num_parents as nat),
        decreases segments - picks.len(),
    {
        let pick: usize = if picks.len() == 0 {
            random_below(rng, num_parents)
        } else {
            let previous: usize = picks[picks.len() - 1];
            let r: usize = random_below(rng, num_parents - 1);
            if r >= previous {
                r + 1
            } else {
                r
            }
        };
        picks.push(pick);
    }
    picks
}

/// Within valid bounds, a segment never closes after a later one.
pub proof fn lemma_bounds_increase(bounds: Seq<usize>, a: int, b: int)
    requires
        valid_bounds(bounds, bounds.last() as nat),
        0 <= a <= b < bounds.len(),
    ensures
        bounds[a] <= bounds[b],
    decreases b - a,
{
    if a < b {
        lemma_bounds_increase(bounds, a, b - 1);
        assert(segment_start(bounds, b) < bounds[b]);
    }
}

} // verus!
