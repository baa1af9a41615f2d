use multimizer::codon::Codon;
use multimizer::error::CoreError;
use multimizer::optimizer::{optimize_for_single_organism, OptimizationOptions, Optimizer};
use multimizer::rca::{compute_rca_terms, compute_rca_xyz_table, RcaTable};
use multimizer::sampler::{
    build_intervals, sample_codon, sample_sequence, select_random_codon_from_usage_table,
};
use multimizer::sequence::{spell_codons, translate_dna_sequence};
use multimizer::table::{PreferenceTable, SCALE};
use multimizer::usage::CodonUsage;

fn table_of(entries: &[(Codon, u64)]) -> PreferenceTable {
    let mut t = PreferenceTable::new_empty();
    for (c, p) in entries {
        t.set(*c, Some(*p));
    }
    t
}

fn alanine_table() -> PreferenceTable {
    table_of(&[
        (Codon::GCA, SCALE / 10),
        (Codon::GCC, SCALE / 5),
        (Codon::GCG, 3 * SCALE / 10),
        (Codon::GCT, 2 * SCALE / 5),
        (Codon::ATG, SCALE),
    ])
}

fn geometric_mean(factors: &[u128], n: usize) -> f64 {
    if factors.is_empty() || n == 0 {
        return 0.0;
    }
    let logs: f64 = factors.iter().map(|f| ((*f as f64) / (SCALE as f64)).ln()).sum();
    (logs / n as f64).exp()
}

fn usage_of(counts: &[(Codon, i32)]) -> CodonUsage {
    let mut v = vec![0i32; 64];
    for (c, n) in counts {
        v[c.ordinal() as usize] = *n;
    }
    CodonUsage::from_counts(v)
}

fn host_usages() -> Vec<CodonUsage> {
    vec![
        usage_of(&[(Codon::ATG, 10), (Codon::GCT, 1), (Codon::GCC, 2), (Codon::GCA, 3), (Codon::GCG, 4)]),
        usage_of(&[(Codon::ATG, 5), (Codon::GCT, 2), (Codon::GCC, 3), (Codon::GCA, 4), (Codon::GCG, 1)]),
    ]
}

#[test]
fn draws_fall_into_cumulative_intervals() {
    let t = alanine_table();
    // lexicographic intervals: GCA [0, .1), GCC [.1, .3), GCG [.3, .6), GCT [.6, 1)
    assert_eq!(sample_codon(&t, 'A', 0), Ok(Codon::GCA));
    assert_eq!(sample_codon(&t, 'A', SCALE / 10 - 1), Ok(Codon::GCA));
    assert_eq!(sample_codon(&t, 'A', SCALE / 10), Ok(Codon::GCC));
    assert_eq!(sample_codon(&t, 'A', SCALE / 2), Ok(Codon::GCG));
    assert_eq!(sample_codon(&t, 'A', SCALE - 1), Ok(Codon::GCT));
    assert_eq!(sample_codon(&t, 'M', 12345), Ok(Codon::ATG));
}

#[test]
fn cumulative_intervals_cover_the_unit() {
    let t = alanine_table();
    assert_eq!(
        build_intervals(&t, 'A'),
        vec![
            (Codon::GCA, 0, SCALE / 10),
            (Codon::GCC, SCALE / 10, 3 * SCALE / 10),
            (Codon::GCG, 3 * SCALE / 10, 6 * SCALE / 10),
            (Codon::GCT, 6 * SCALE / 10, SCALE),
        ]
    );
    let short = table_of(&[(Codon::AAA, SCALE / 2), (Codon::AAG, SCALE / 2 - 3), (Codon::TGG, 0)]);
    assert_eq!(
        build_intervals(&short, 'K'),
        vec![(Codon::AAA, 0, SCALE / 2), (Codon::AAG, SCALE / 2, SCALE)]
    );
    assert!(build_intervals(&short, 'W').is_empty());
}

#[test]
fn last_interval_absorbs_rounding() {
    let t = table_of(&[(Codon::AAA, SCALE / 2), (Codon::AAG, SCALE / 2 - 3)]);
    assert_eq!(sample_codon(&t, 'K', SCALE - 2), Ok(Codon::AAG));
}

#[test]
fn unavailable_residue_is_reported() {
    let t = alanine_table();
    assert_eq!(sample_codon(&t, 'W', 0), Err(CoreError::UnavailableResidue('W')));
    let zero = table_of(&[(Codon::TGG, 0)]);
    assert_eq!(sample_codon(&zero, 'W', 0), Err(CoreError::UnavailableResidue('W')));
    assert_eq!(
        sample_sequence(&vec!['M', 'W', 'A'], &t, 1),
        Err(CoreError::UnavailableResidue('W'))
    );
}

#[test]
fn seeded_selection_is_reproducible() {
    let t = alanine_table();
    let a = select_random_codon_from_usage_table('A', &t, 42).unwrap();
    let b = select_random_codon_from_usage_table('A', &t, 42).unwrap();
    assert_eq!(a, b);
    assert_eq!(a.translate(), 'A');
    let s1 = sample_sequence(&vec!['M', 'A', 'A', 'A', 'A', 'A', 'A', 'A'], &t, 7).unwrap();
    let s2 = sample_sequence(&vec!['M', 'A', 'A', 'A', 'A', 'A', 'A', 'A'], &t, 7).unwrap();
    assert_eq!(s1, s2);
    let protein: String = s1.iter().map(|c| c.translate()).collect();
    assert_eq!(protein, "MAAAAAAA");
}

#[test]
fn seeded_draws_depend_on_the_seed() {
    let t = alanine_table();
    let protein: Vec<char> = std::iter::repeat('A').take(40).collect();
    let s1 = sample_sequence(&protein, &t, 1).unwrap();
    let s2 = sample_sequence(&protein, &t, 2).unwrap();
    assert_ne!(s1, s2);
    // a draw is not always the first interval's codon
    assert!(s1.iter().any(|c| *c != Codon::GCA));
}

#[test]
fn rca_of_single_codon_table() {
    let mut values = vec![None; 64];
    values[Codon::ATG.ordinal() as usize] = Some(SCALE as u128);
    let table = RcaTable::from_values(values);
    let (factors, n) = compute_rca_terms("ATG", &table).unwrap();
    assert_eq!(factors, vec![SCALE as u128]);
    assert_eq!(n, 1);
    assert!((geometric_mean(&factors, n) - 1.0).abs() < 1e-12);
}

#[test]
fn rca_with_empty_table_is_zero() {
    let table = RcaTable::from_values(vec![None; 64]);
    let (factors, n) = compute_rca_terms("ATGGCC", &table).unwrap();
    assert!(factors.is_empty());
    assert_eq!(n, 2);
    assert_eq!(geometric_mean(&factors, n), 0.0);
}

#[test]
fn rca_terms_reject_bad_dna() {
    let table = RcaTable::from_values(vec![None; 64]);
    assert_eq!(compute_rca_terms("ATGG", &table), Err(CoreError::NotDivisibleByThree));
    assert_eq!(compute_rca_terms("ATGXXX", &table), Err(CoreError::InvalidCodon));
}

#[test]
fn rca_xyz_of_one_codon_is_one() {
    let t = table_of(&[(Codon::ATG, SCALE)]);
    let rca = compute_rca_xyz_table(&t);
    assert_eq!(rca.get(Codon::ATG), Some(SCALE as u128));
    assert_eq!(rca.get(Codon::GCC), None);
}

#[test]
fn rca_xyz_follows_positional_frequencies() {
    // f(GCA) = f(GCC) = 1/2; position 3 splits A and C evenly
    let t = table_of(&[(Codon::GCA, SCALE / 2), (Codon::GCC, SCALE / 2), (Codon::ATG, 0)]);
    let rca = compute_rca_xyz_table(&t);
    // (1/2) / (1 * 1 * 1/2) = 1
    assert_eq!(rca.get(Codon::GCA), Some(SCALE as u128));
    // ATG's bases never occur at their positions
    assert_eq!(rca.get(Codon::ATG), Some(0));
    let factors = compute_rca_terms("GCAGCC", &rca).unwrap();
    assert!((geometric_mean(&factors.0, factors.1) - 1.0).abs() < 1e-9);
}

fn run(query: &str, seed: u64) -> (String, u32) {
    let mut options = OptimizationOptions::default();
    options.seed = seed;
    options.max_iterations = 20;
    let mut opt = Optimizer::new(query, &host_usages(), &vec![], &options).unwrap();
    loop {
        let candidate = opt.propose().unwrap();
        let predicted: Vec<u64> = (0..opt.host_count()).map(|o| SCALE + o as u64).collect();
        if opt.record(candidate, &predicted) {
            break;
        }
    }
    let (_, best) = opt.best_candidate().unwrap();
    (spell_codons(&best), opt.iterations())
}

#[test]
fn optimize_twice_gives_the_same_dna() {
    let (a, ia) = run("MA", 42);
    let (b, ib) = run("MA", 42);
    assert_eq!(a, b);
    assert_eq!(ia, ib);
    assert_eq!(a.len(), 6);
    assert_eq!(translate_dna_sequence(&a), Ok("MA".to_string()));
}

#[test]
fn optimizer_accepts_dna_queries() {
    let (dna, _) = run("ATGGCC", 3);
    assert_eq!(translate_dna_sequence(&dna), Ok("MA".to_string()));
}

#[test]
fn optimizer_stops_when_error_is_small() {
    let options = OptimizationOptions::default();
    let mut opt = Optimizer::new("MA", &host_usages(), &vec![], &options).unwrap();
    let candidate = opt.propose().unwrap();
    // predicted expression equal to the targets: no error at all
    assert!(opt.record(candidate, &vec![SCALE, SCALE]));
    assert_eq!(opt.iterations(), 1);
    assert_eq!(opt.best_candidate().map(|b| b.0), Some(0));
}

#[test]
fn optimizer_reports_bad_inputs() {
    let options = OptimizationOptions::default();
    assert!(matches!(
        Optimizer::new("MAZ", &host_usages(), &vec![], &options),
        Err(CoreError::InvalidSequence { position: 2, residue: 'Z' })
    ));
    assert!(matches!(
        Optimizer::new("ATGG", &host_usages(), &vec![], &options),
        Err(CoreError::NotDivisibleByThree)
    ));
    assert!(matches!(
        Optimizer::new("MW", &host_usages(), &vec![], &options),
        Err(CoreError::UnavailableResidue('W'))
    ));
    let mut weighted = OptimizationOptions::default();
    weighted.equal_species = false;
    assert!(matches!(
        Optimizer::new("MA", &host_usages(), &vec![1], &weighted),
        Err(CoreError::InvalidWeights)
    ));
    assert!(Optimizer::new("MA", &host_usages(), &vec![1, 3], &weighted).is_ok());
    let mut bad_threshold = OptimizationOptions::default();
    bad_threshold.prohibited_preference_threshold = 0;
    assert!(matches!(
        Optimizer::new("MA", &host_usages(), &vec![], &bad_threshold),
        Err(CoreError::InvalidThreshold)
    ));
}

#[test]
fn single_organism_optimisation() {
    let t = alanine_table();
    let res = optimize_for_single_organism("MA", &t, 42).unwrap();
    assert_eq!(res.seq.len(), 6);
    assert_eq!(res.translated_seq, "MA");
    assert_eq!(res.iterations, 1);
    assert_eq!(res.rca_codons, 2);
    assert_eq!(res.rca_factors.len(), 2);
    let again = optimize_for_single_organism("MA", &t, 42).unwrap();
    assert_eq!(res.seq, again.seq);
}

#[test]
fn single_organism_reports_bad_inputs() {
    let t = alanine_table();
    assert!(matches!(
        optimize_for_single_organism("MXA", &t, 1),
        Err(CoreError::InvalidSequence { position: 1, residue: 'X' })
    ));
    assert!(matches!(
        optimize_for_single_organism("ATGGC", &t, 1),
        Err(CoreError::NotDivisibleByThree)
    ));
    assert!(matches!(
        optimize_for_single_organism("MAWK", &t, 1),
        Err(CoreError::UnavailableResidue('W'))
    ));
}
