use genetic_sim::genome::{as_phenome, random_strand, ClustersOf4FitnessCalculator, Nucleotide, STRAND_SIZE};
use genetic_sim::individual::Individual;
use rand::rngs::StdRng;
use rand::SeedableRng;
use Nucleotide::{A, C, G, T};

#[test]
fn clusters_of_four_are_counted() {
    let f = ClustersOf4FitnessCalculator;
    assert_eq!(f.fitness_of(&vec![A, A, A, A, T, T, T, T]), 2);
    assert_eq!(f.fitness_of(&vec![A, A, A, C, G, G, G, G]), 1);
    assert_eq!(f.fitness_of(&vec![A, A, A, A, C]), 2);
    assert_eq!(f.fitness_of(&vec![A, C, A, A, C, G]), 0);
    assert_eq!(f.fitness_of(&vec![]), 0);
}

#[test]
fn fitness_bounds_and_average() {
    let f = ClustersOf4FitnessCalculator;
    assert_eq!(f.highest_possible_fitness(), 25);
    assert_eq!(f.lowest_possible_fitness(), 0);
    assert_eq!(f.average(&[1, 2, 4]), 2);
    assert_eq!(f.average(&[7]), 7);
    assert_eq!(f.fitness_of(&vec![G; STRAND_SIZE]), f.highest_possible_fitness());
}

#[test]
fn phenome_spells_the_strand() {
    assert_eq!(as_phenome(&vec![A, C, T, G, G]), "ACTGG");
    assert_eq!(as_phenome(&vec![]), "");
}

#[test]
fn draws_map_to_nucleotides() {
    assert_eq!(Nucleotide::from_draw(0), A);
    assert_eq!(Nucleotide::from_draw(1), C);
    assert_eq!(Nucleotide::from_draw(2), G);
    assert_eq!(Nucleotide::from_draw(3), T);
    assert_eq!(T.letter(), "T");
}

#[test]
fn random_strands_have_the_asked_length() {
    let mut rng = StdRng::seed_from_u64(8);
    assert_eq!(random_strand(&mut rng, STRAND_SIZE).len(), 100);
    assert_eq!(random_strand(&mut rng, 0).len(), 0);
}

#[test]
fn individual_counts_thymines() {
    let mut rng = StdRng::seed_from_u64(12);
    let mut ind = Individual::new();
    assert_eq!(ind.genome().len(), 0);
    assert_eq!(ind.fitness(), 0);
    ind.init(40, &mut rng);
    assert_eq!(ind.genome().len(), 40);
    ind.update_fitness();
    let ts = ind.genome().iter().filter(|n| **n == T).count() as u32;
    assert_eq!(ind.fitness(), ts);
    assert!(ts > 0);
}
