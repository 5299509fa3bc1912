//! An individual of the small standalone simulation: a strand and the number
//! of thymines it holds.
use crate::genome::Nucleotide;
use vstd::prelude::*;

verus! {

/// The number of thymines in `genome`.
pub open spec fn count_t(genome: Seq<Nucleotide>) -> nat
    decreases genome.len(),
{
    if genome.len() == 0 {
        0
    } else {
        count_t(genome.drop_last()) + if genome.last() == Nucleotide::T {
            1nat
        } else {
            0nat
        }
    }
}

/// A strand with its fitness.
#[derive(Clone, Debug)]
pub struct Individual {
    genome: Vec<Nucleotide>,
    fitness: u32,
}

impl Individual {
    /// The strand, in specifications.
    pub closed spec fn spec_genome(&self) -> Seq<Nucleotide> {
        self.genome@
    }

    /// The fitness last computed, in specifications.
    pub closed spec fn spec_fitness(&self) -> u32 {
        self.fitness
    }

    /// An individual with an empty strand and fitness 0.
    pub fn new() -> (r: Self)
        ensures
            r.spec_genome() == Seq::<Nucleotide>::empty(),
            r.spec_fitness() == 0,
    {
        Individual { genome: Vec::new(), fitness: 0 }
    }

    /// Appends `genome_size` nucleotides drawn uniformly to the strand.
    pub fn init(&mut self, genome_size: u32, rng: &mut rand::rngs::StdRng)
        ensures
            final(self).spec_genome().len() == old(self).spec_genome().len() + genome_size,
            final(self).spec_genome().take(old(self).spec_genome().len() as int) == old(self).spec_genome(),
            final(self).spec_fitness() == old(self).spec_fitness(),
    {
        let mut i: u32 = 0;
        while i < genome_size
            invariant
                i <= genome_size,
                self.genome@.len() == old(self).genome@.len() + i,
                self.genome@.take(old(self).genome@.len() as int) == old(self).genome@,
                self.fitness == old(self).fitness,
            decreases genome_size - i,
        {
            let ghost before = self.genome@;
            self.genome.push(Nucleotide::random(rng));
            assert(self.genome@.take(old(self).genome@.len() as int) =~= before.take(
                old(self).genome@.len() as int,
            ));
            i = i + 1;
        }
    }

    /// Recomputes the fitness: the number of thymines in the strand.
    pub fn update_fitness(&mut self)
        requires
            old(self).spec_genome().len() <= u32::MAX,
        ensures
            final(self).spec_genome() == old(self).spec_genome(),
            final(self).spec_fitness() == count_t(old(self).spec_genome()),
    {
        let mut count: u32 = 0;
        let mut i: usize = 0;
        while i < self.genome.len()
            invariant
                self.genome@ == old(self).genome@,
                self.genome@.len() <= u32::MAX,
                i <= self.genome.len(),
                count == count_t(self.genome@.take(i as int)),
                count <= i,
            decreases self.genome.len() - i,
        {
            assert(self.genome@.take(i + 1).drop_last() =~= self.genome@.take(i as int));
            if self.genome[i] == Nucleotide::T {
                count = count + 1;
            }
            i = i + 1;
        }
        assert(self.genome@.take(self.genome.len() as int) =~= self.genome@);
        self.fitness = count;
    }

    /// The strand.
    pub fn genome(&self) -> (g: &Vec<Nucleotide>)
        ensures
            g@ == self.spec_genome(),
    {
        &self.genome
    }

    /// The fitness last computed.
    pub fn fitness(&self) -> (f: u32)
        ensures
            f == self.spec_fitness(),
    {
        self.fitness
    }
}

} // verus!
