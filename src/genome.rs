//! DNA-strand genomes: nucleotides, their letters, random strands and the
//! clusters-of-4 fitness.
use crate::random::random_below;
use vstd::prelude::*;
use vstd::string::StringExecFns;

verus! {

/// The number of nucleotides in a strand.
pub const STRAND_SIZE: usize = 100;

/// One locus of a strand.
#[derive(Clone, Copy, Debug, PartialEq, Eq, Structural)]
pub enum Nucleotide {
    A,
    C,
    T,
    G,
}

/// The letter that shows a nucleotide.
pub open spec fn letter_of(n: Nucleotide) -> char {
    match n {
        Nucleotide::A => 'A',
        Nucleotide::C => 'C',
        Nucleotide::T => 'T',
        Nucleotide::G => 'G',
    }
}

/// The nucleotide drawn as `k` from `0..4`.
pub open spec fn nucleotide_of_draw(k: usize) -> Nucleotide {
    if k == 0 {
        Nucleotide::A
    } else if k == 1 {
        Nucleotide::C
    } else if k == 2 {
        Nucleotide::G
    } else {
        Nucleotide::T
    }
}

/// The phenome of a strand: its letters, in order.
pub open spec fn phenome_of(genome: Seq<Nucleotide>) -> Seq<char> {
    genome.map_values(|n: Nucleotide| letter_of(n))
}

impl Nucleotide {
    /// The nucleotide for the draw `k` from `0..4`: A, C, G, then T for
    /// every other value.
    pub fn from_draw(k: usize) -> (n: Nucleotide)
        ensures
            n == nucleotide_of_draw(k),
    {
        match k {
            0 => Nucleotide::A,
            1 => Nucleotide::C,
            2 => Nucleotide::G,
            _ => Nucleotide::T,
        }
    }

    /// A nucleotide drawn uniformly.
    pub fn random(rng: &mut rand::rngs::StdRng) -> (n: Nucleotide) {
        Nucleotide::from_draw(random_below(rng, 4))
    }

    /// The one-letter text of this nucleotide.
    pub fn letter(&self) -> (s: &'static str)
        ensures
            s@ == seq![letter_of(*self)],
    {
        proof {
            reveal_strlit("A");
            reveal_strlit("C");
            reveal_strlit("T");
            reveal_strlit("G");
        }
        match self {
            Nucleotide::A => "A",
            Nucleotide::C => "C",
            Nucleotide::T => "T",
            Nucleotide::G => "G",
        }
    }
}

/// The phenome of `genome`: the letters of its nucleotides.
pub fn as_phenome(genome: &Vec<Nucleotide>) -> (p: String)
    ensures
        p@ == phenome_of(genome@),
{
    let mut p: String = String::new();
    let mut i: usize = 0;
    while i < genome.len()
        invariant
            i <= genome.len(),
            p@ == phenome_of(genome@.take(i as int)),
        decreases genome.len() - i,
    {
        let text: &str = genome[i].letter();
        p.append(text);
        i = i + 1;
        assert(phenome_of(genome@.take(i as int)) =~= phenome_of(genome@.take(i - 1)).push(
            letter_of(genome@[i - 1]),
        ));
    }
    assert(genome@.take(genome.len() as int) =~= genome@);
    p
}

/// A strand of `len` nucleotides, each drawn uniformly.
pub fn random_strand(rng: &mut rand::rngs::StdRng, len: usize) -> (genome: Vec<Nucleotide>)
    ensures
        genome.len() == len,
{
    let mut genome: Vec<Nucleotide> = Vec::new();
    while genome.len() < len
        invariant
            genome.len() <= len,
        decreases len - genome.len(),
    {
        genome.push(Nucleotide::random(rng));
    }
    genome
}

/// Chunk `c` of a strand: loci `4c .. 4c + 4`, cut short at the end.
pub open spec fn chunk_of(genome: Seq<Nucleotide>, c: int) -> Seq<Nucleotide> {
    let start = 4 * c;
    let end = if start + 4 < genome.len() {
        start + 4
    } else {
        genome.len() as int
    };
    genome.subrange(start, end)
}

/// The number of chunks of four that a strand of `len` loci splits into.
pub open spec fn chunk_count(len: nat) -> nat {
    (len + 3) / 4
}

/// A chunk all of whose nucleotides are equal.
pub open spec fn is_cluster(chunk: Seq<Nucleotide>) -> bool {
    forall|i: int| 0 <= i < chunk.len() ==> #[trigger] chunk[i] == chunk[0]
}

/// How many of the first `n` chunks of `genome` are clusters.
pub open spec fn clusters_among(genome: Seq<Nucleotide>, n: int) -> nat
    decreases n,
{
    if n <= 0 {
        0
    } else {
        clusters_among(genome, n - 1) + if is_cluster(chunk_of(genome, n - 1)) {
            1nat
        } else {
            0nat
        }
    }
}

/// The clusters-of-4 fitness: how many chunks of four are clusters.
pub open spec fn clusters_of_4(genome: Seq<Nucleotide>) -> nat {
    clusters_among(genome, chunk_count(genome.len()) as int)
}

/// The sum of `values`.
pub open spec fn sum_of(values: Seq<usize>) -> int
    decreases values.len(),
{
    if values.len() == 0 {
        0
    } else {
        sum_of(values.drop_last()) + values.last()
    }
}

/// Rates strands by their chunks of four equal nucleotides.
#[derive(Clone, Copy, Debug, PartialEq, Eq, Structural)]
pub struct ClustersOf4FitnessCalculator;

impl ClustersOf4FitnessCalculator {
    /// The number of chunks of four loci (the last one possibly shorter)
    /// whose nucleotides are all equal.
    pub fn fitness_of(&self, genome: &Vec<Nucleotide>) -> (f: usize)
        ensures
            f == clusters_of_4(genome@),
    {
        let mut count: usize = 0;
        let mut start: usize = 0;
        let ghost mut c: int = 0;
        while start < genome.len()
            invariant
                start == (if 4 * c < genome.len() {
                    4 * c
                } else {
                    genome.len() as int
                }),
                0 <= c <= chunk_count(genome.len() as nat),
                start < genome.len() ==> c < chunk_count(genome.len() as nat),
                start >= genome.len() ==> c == chunk_count(genome.len() as nat),
                count == clusters_among(genome@, c),
                count <= c,
            decreases genome.len() - start,
        {
            let end: usize = if genome.len() - start > 4 {
                start + 4
            } else {
                genome.len()
            };
            let first: Nucleotide = genome[start];
            let mut all_equal: bool = true;
            let mut i: usize = start;
            while i < end
                invariant
                    start <= i <= end <= genome.len(),
                    start < end,
                    first == genome@[start as int],
                    all_equal <==> forall|k: int| start <= k < i ==> #[trigger] genome@[k] == first,
                decreases end - i,
            {
                if genome[i] != first {
                    all_equal = false;
                }
                i = i + 1;
            }
            proof {
                let ch = chunk_of(genome@, c);
                assert(ch =~= genome@.subrange(start as int, end as int));
                if all_equal {
                    assert forall|k: int| 0 <= k < ch.len() implies #[trigger] ch[k] == ch[0] by {
                        assert(ch[k] == genome@[start + k]);
                    }
                } else {
                    let k = choose|k: int| start <= k < end && genome@[k] != first;
                    assert(ch[k - start] != ch[0]);
                }
            }
            if all_equal {
                count = count + 1;
            }
            start = end;
            proof {
                c = c + 1;
            }
        }
        count
    }

    /// The mean of `values`, rounded down.
    pub fn average(&self, values: &[usize]) -> (m: usize)
        requires
            values.len() > 0,
            sum_of(values@) <= usize::MAX,
        ensures
            m == sum_of(values@) / values.len() as int,
    {
        let mut total: usize = 0;
        let mut i: usize = 0;
        while i < values.len()
            invariant
                i <= values.len(),
                total == sum_of(values@.take(i as int)),
                sum_of(values@) <= usize::MAX,
            decreases values.len() - i,
        {
            assert(values@.take(i + 1).drop_last() =~= values@.take(i as int));
            proof {
                lemma_sum_prefix_bounded(values@, i + 1);
            }
            total = total + values[i];
            i = i + 1;
        }
        assert(values@.take(values.len() as int) =~= values@);
        total / values.len()
    }

    /// The fitness of a strand of which every chunk is a cluster.
    pub fn highest_possible_fitness(&self) -> (f: usize)
        ensures
            f == STRAND_SIZE / 4,
    {
        STRAND_SIZE / 4
    }

    /// The fitness of a strand without a single cluster.
    pub fn lowest_possible_fitness(&self) -> (f: usize)
        ensures
            f == 0,
    {
        0
    }
}

/// The sum of a prefix of values never exceeds the sum of all of them.
proof fn lemma_sum_prefix_bounded(values: Seq<usize>, n: int)
    requires
        0 <= n <= values.len(),
    ensures
        sum_of(values.take(n)) <= sum_of(values),
    decreases values.len() - n,
{
    if n < values.len() {
        lemma_sum_prefix_bounded(values, n + 1);
        assert(values.take(n + 1).drop_last() =~= values.take(n));
    } else {
        assert(values.take(n) =~= values);
    }
}

} // verus!
