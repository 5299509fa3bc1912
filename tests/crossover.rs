use fixedbitset::FixedBitSet;
use genetic_sim::bitset::{bits_to_vec, multi_point_crossover_bits, uniform_crossover_bits, vec_to_bits};
use genetic_sim::crossover::{
    compose_uniform, multi_point_crossover, random_alternating_picks, MultiPointCrossover, random_cut_points,
    splice_segments, uniform_crossover, CrossoverError, MultiPointCrossBreeder,
    SinglePointCrossBreeder, UniformCrossBreeder,
};
use genetic_sim::small_genome::{multi_point_crossover_small, uniform_crossover_small, SmallGenome};
use rand::rngs::StdRng;
use rand::SeedableRng;

/// Parent `j` holds `100 * j + i` at locus `i`, so every value names its parent and locus.
fn tagged_parents(p: usize, len: usize) -> Vec<Vec<u32>> {
    (0..p).map(|j| (0..len).map(|i| (100 * j + i) as u32).collect()).collect()
}

/// The parent each locus of a child of `tagged_parents` came from.
fn origins(child: &[u32]) -> Vec<u32> {
    child.iter().map(|v| v / 100).collect()
}

fn runs(origins: &[u32]) -> usize {
    if origins.is_empty() {
        return 0;
    }
    1 + origins.windows(2).filter(|w| w[0] != w[1]).count()
}

#[test]
fn multi_point_children_keep_shape_and_loci() {
    for seed in 0..20u64 {
        let mut rng = StdRng::seed_from_u64(seed);
        let parents = tagged_parents(3, 12);
        let children = multi_point_crossover(parents.clone(), 4, &mut rng).unwrap();
        assert_eq!(children.len(), 3);
        for child in &children {
            assert_eq!(child.len(), 12);
            for (i, v) in child.iter().enumerate() {
                assert_eq!(*v as usize % 100, i);
                assert!(((*v / 100) as usize) < 3);
            }
            // adjacent segments come from different parents: k cuts give k + 1 runs
            assert_eq!(runs(&origins(child)), 5);
        }
    }
}

#[test]
fn multi_point_with_two_loci_and_one_cut() {
    let mut rng = StdRng::seed_from_u64(7);
    let parents = vec![vec![1u8, 1], vec![2u8, 2]];
    let children = multi_point_crossover(parents, 1, &mut rng).unwrap();
    assert_eq!(children.len(), 2);
    for child in children {
        assert!(child == vec![1, 2] || child == vec![2, 1]);
    }
}

#[test]
fn multi_point_refuses_a_single_parent() {
    let mut rng = StdRng::seed_from_u64(1);
    let r = multi_point_crossover(vec![vec![1u8, 2, 3]], 1, &mut rng);
    assert_eq!(r, Err(CrossoverError::TooFewParents));
    let r = multi_point_crossover(Vec::<Vec<u8>>::new(), 1, &mut rng);
    assert_eq!(r, Err(CrossoverError::TooFewParents));
}

#[test]
fn single_point_gives_two_segments() {
    let breeder = SinglePointCrossBreeder::new();
    for seed in 0..20u64 {
        let mut rng = StdRng::seed_from_u64(seed);
        let children = breeder.crossover(tagged_parents(4, 9), &mut rng).unwrap();
        assert_eq!(children.len(), 4);
        for child in &children {
            assert_eq!(child.len(), 9);
            assert_eq!(runs(&origins(child)), 2);
        }
    }
}

#[test]
fn multi_point_breeder_uses_its_cut_points() {
    let mut breeder = MultiPointCrossBreeder::new(2);
    assert_eq!(breeder.num_cut_points(), 2);
    breeder.set_num_cut_points(3);
    assert_eq!(breeder.num_cut_points(), 3);
    let mut rng = StdRng::seed_from_u64(3);
    let children = breeder.crossover(tagged_parents(2, 8), &mut rng).unwrap();
    for child in &children {
        assert_eq!(runs(&origins(child)), 4);
    }
}

#[test]
fn uniform_of_empty_genomes_gives_empty_children() {
    let mut rng = StdRng::seed_from_u64(5);
    let parents: Vec<Vec<u8>> = vec![vec![], vec![], vec![]];
    let children = uniform_crossover(&parents, &mut rng);
    assert_eq!(children, vec![Vec::<u8>::new(), vec![], vec![]]);
    let children = UniformCrossBreeder::new().crossover(parents, &mut rng);
    assert_eq!(children.len(), 3);
}

#[test]
fn uniform_children_take_each_locus_from_a_parent() {
    let mut rng = StdRng::seed_from_u64(11);
    let parents = tagged_parents(3, 30);
    let children = uniform_crossover(&parents, &mut rng);
    assert_eq!(children.len(), 3);
    let mut seen = [false; 3];
    for child in &children {
        assert_eq!(child.len(), 30);
        for (i, v) in child.iter().enumerate() {
            assert_eq!(*v as usize % 100, i);
            seen[(*v / 100) as usize] = true;
        }
    }
    assert!(seen.iter().filter(|s| **s).count() >= 2);
}

#[test]
fn splice_follows_bounds_and_picks() {
    let parents = vec![vec![1u8, 1, 1, 1], vec![2u8, 2, 2, 2]];
    let child = splice_segments(&parents, &vec![1, 3, 4], &vec![0, 1, 0]);
    assert_eq!(child, vec![1, 2, 2, 1]);
}

#[test]
fn compose_uniform_follows_picks() {
    let parents = vec![vec![1u8, 2, 3], vec![4u8, 5, 6]];
    assert_eq!(compose_uniform(&parents, &vec![1, 0, 1]), vec![4, 2, 6]);
}

#[test]
fn cut_points_are_sorted_distinct_and_inside() {
    for seed in 0..20u64 {
        let mut rng = StdRng::seed_from_u64(seed);
        let cuts = random_cut_points(&mut rng, 5, 7);
        assert_eq!(cuts.len(), 5);
        assert!(cuts.windows(2).all(|w| w[0] < w[1]));
        assert!(cuts.iter().all(|c| *c > 0 && *c < 7));
    }
    let mut rng = StdRng::seed_from_u64(2);
    assert_eq!(random_cut_points(&mut rng, 3, 4), vec![1, 2, 3]);
}

#[test]
fn picks_alternate() {
    let mut rng = StdRng::seed_from_u64(9);
    let picks = random_alternating_picks(&mut rng, 50, 2);
    assert_eq!(picks.len(), 50);
    assert!(picks.windows(2).all(|w| w[0] != w[1]));
    assert!(picks.iter().all(|p| *p < 2));
}

#[test]
fn operator_names() {
    assert_eq!(UniformCrossBreeder::name(), "Uniform-Cross-Breeder");
    assert_eq!(SinglePointCrossBreeder::name(), "Single-Point-Cross-Breeder");
    assert_eq!(MultiPointCrossBreeder::name(), "Multi-Point-Cross-Breeder");
}

fn bits(pattern: &[bool]) -> FixedBitSet {
    let mut b = FixedBitSet::with_capacity(pattern.len());
    for (i, v) in pattern.iter().enumerate() {
        b.set(i, *v);
    }
    b
}

#[test]
fn bitset_multi_point_alternates_between_parents() {
    let ones = bits(&[true; 8]);
    let zeros = bits(&[false; 8]);
    for seed in 0..10u64 {
        let mut rng = StdRng::seed_from_u64(seed);
        let children = multi_point_crossover_bits(vec![ones.clone(), zeros.clone()], 2, &mut rng).unwrap();
        assert_eq!(children.len(), 2);
        for child in &children {
            assert_eq!(child.len(), 8);
            let values: Vec<u32> = (0..8).map(|i| child[i] as u32).collect();
            assert_eq!(runs(&values), 3);
        }
    }
    let mut rng = StdRng::seed_from_u64(0);
    assert_eq!(
        multi_point_crossover_bits(vec![ones], 1, &mut rng),
        Err(CrossoverError::TooFewParents)
    );
}

#[test]
fn bitset_uniform_keeps_common_bits() {
    let a = bits(&[true, false, true, true, false]);
    let b = bits(&[true, true, false, true, false]);
    let mut rng = StdRng::seed_from_u64(4);
    let children = uniform_crossover_bits(&vec![a, b], &mut rng);
    assert_eq!(children.len(), 2);
    for child in &children {
        assert_eq!(child.len(), 5);
        assert!(child[0] && child[3] && !child[4]);
    }
}

#[test]
fn small_genome_round_trip() {
    let g = SmallGenome::from_vec(&vec![3, 1, 4, 1, 5]);
    assert_eq!(g.to_vec(), vec![3, 1, 4, 1, 5]);
}

#[test]
fn small_genome_multi_point_and_uniform() {
    let a = SmallGenome::from_vec(&(0..20).collect());
    let b = SmallGenome::from_vec(&(100..120).collect());
    let mut rng = StdRng::seed_from_u64(6);
    let children = multi_point_crossover_small(vec![a, b], 3, &mut rng).unwrap();
    assert_eq!(children.len(), 2);
    for child in &children {
        let v = child.to_vec();
        assert_eq!(v.len(), 20);
        for (i, x) in v.iter().enumerate() {
            assert_eq!(*x as usize % 100, i);
        }
        let origin: Vec<u32> = v.iter().map(|x| (*x / 100) as u32).collect();
        assert_eq!(runs(&origin), 4);
    }
    let a = SmallGenome::from_vec(&vec![7, 7, 7]);
    let b = SmallGenome::from_vec(&vec![7, 8, 7]);
    let children = uniform_crossover_small(&vec![a, b], &mut rng);
    for child in &children {
        let v = child.to_vec();
        assert_eq!(v[0], 7);
        assert_eq!(v[2], 7);
        assert!(v[1] == 7 || v[1] == 8);
    }
}

#[test]
fn breeders_recombine_bitsets_and_small_genomes() {
    let ones = bits(&[true; 10]);
    let zeros = bits(&[false; 10]);
    let mut rng = StdRng::seed_from_u64(21);
    let children = SinglePointCrossBreeder::new().crossover(vec![ones.clone(), zeros.clone()], &mut rng).unwrap();
    for child in &children {
        let values: Vec<u32> = (0..10).map(|i| child[i] as u32).collect();
        assert_eq!(runs(&values), 2);
    }
    let children = MultiPointCrossBreeder::new(4).crossover(vec![ones, zeros], &mut rng).unwrap();
    for child in &children {
        let values: Vec<u32> = (0..10).map(|i| child[i] as u32).collect();
        assert_eq!(runs(&values), 5);
    }
    let a = SmallGenome::from_vec(&vec![1; 6]);
    let b = SmallGenome::from_vec(&vec![2; 6]);
    let children = SinglePointCrossBreeder::new().crossover(vec![a, b], &mut rng).unwrap();
    for child in &children {
        let origin: Vec<u32> = child.to_vec().iter().map(|x| *x as u32).collect();
        assert_eq!(runs(&origin), 2);
    }
    let children = <Vec<u32> as MultiPointCrossover>::crossover(tagged_parents(2, 6), 5, &mut rng).unwrap();
    for child in &children {
        assert_eq!(runs(&origins(child)), 6);
    }
}

#[test]
fn uniform_breeder_recombines_bitsets_and_small_genomes() {
    let mut rng = StdRng::seed_from_u64(31);
    let a = bits(&[true, true, false, false]);
    let b = bits(&[true, false, true, false]);
    let children = UniformCrossBreeder::new().crossover(vec![a, b], &mut rng);
    assert_eq!(children.len(), 2);
    for child in &children {
        assert_eq!(child.len(), 4);
        assert!(child[0] && !child[3]);
    }
    let a = SmallGenome::from_vec(&vec![5, 6, 7]);
    let b = SmallGenome::from_vec(&vec![5, 9, 7]);
    let c = SmallGenome::from_vec(&vec![5, 6, 7]);
    let children = UniformCrossBreeder::new().crossover(vec![a, b, c], &mut rng);
    assert_eq!(children.len(), 3);
    for child in &children {
        let v = child.to_vec();
        assert!(v == vec![5, 6, 7] || v == vec![5, 9, 7]);
    }
}

#[test]
fn bit_converters_round_trip() {
    let pattern = vec![true, false, false, true, true];
    let b = vec_to_bits(&pattern);
    assert_eq!(b.len(), 5);
    assert!(b[0] && !b[1] && b[4]);
    assert_eq!(bits_to_vec(&b), pattern);
    assert_eq!(bits_to_vec(&bits(&[false, true])), vec![false, true]);
}

#[test]
fn breeders_have_defaults() {
    assert_eq!(UniformCrossBreeder::default(), UniformCrossBreeder::new());
    assert_eq!(SinglePointCrossBreeder::default(), SinglePointCrossBreeder::new());
}
