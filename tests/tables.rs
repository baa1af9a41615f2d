use multimizer::average::{build_averaged_table, equal_weights, weights_from_expression};
use multimizer::codon::Codon;
use multimizer::error::CoreError;
use multimizer::refine::{find_prohibited_codons, remove_prohibited_codons};
use multimizer::table::{PreferenceTable, SCALE};
use multimizer::usage::CodonUsage;

fn frac(x: f64) -> u64 {
    (x * SCALE as f64).round() as u64
}

fn approx(value: Option<u64>, expected: f64, tolerance: f64) -> bool {
    match value {
        Some(v) => ((v as f64) / (SCALE as f64) - expected).abs() < tolerance,
        None => false,
    }
}

fn table_of(entries: &[(Codon, f64)]) -> PreferenceTable {
    let mut t = PreferenceTable::new_empty();
    for (c, p) in entries {
        t.set(*c, Some(frac(*p)));
    }
    t
}

fn org_usage1() -> PreferenceTable {
    table_of(&[
        (Codon::GCT, 0.1),
        (Codon::GCC, 0.2),
        (Codon::GCA, 0.3),
        (Codon::GCG, 0.4),
        (Codon::CGT, 0.1),
        (Codon::CGC, 0.2),
        (Codon::CGA, 0.3),
        (Codon::CGG, 0.4),
    ])
}

fn org_usage2() -> PreferenceTable {
    table_of(&[
        (Codon::GCT, 0.2),
        (Codon::GCC, 0.3),
        (Codon::GCA, 0.4),
        (Codon::GCG, 0.1),
        (Codon::CGT, 0.2),
        (Codon::CGC, 0.3),
        (Codon::CGA, 0.4),
        (Codon::CGG, 0.1),
    ])
}

fn row_total(t: &PreferenceTable, aa: char) -> u64 {
    (0u8..64)
        .map(Codon::from_ordinal)
        .filter(|c| c.translate() == aa)
        .map(|c| t.get(c).unwrap_or(0))
        .sum()
}

fn usage_with(counts: &[(Codon, i32)]) -> CodonUsage {
    let mut v = vec![0i32; 64];
    for (c, n) in counts {
        v[c.ordinal() as usize] = *n;
    }
    CodonUsage::from_counts(v)
}

#[test]
fn codon_usage_new_keeps_every_count() {
    let args: Vec<i32> = (1..=64).collect();
    let u = CodonUsage::new(
        args[0], args[1], args[2], args[3], args[4], args[5], args[6], args[7], args[8], args[9],
        args[10], args[11], args[12], args[13], args[14], args[15], args[16], args[17], args[18],
        args[19], args[20], args[21], args[22], args[23], args[24], args[25], args[26], args[27],
        args[28], args[29], args[30], args[31], args[32], args[33], args[34], args[35], args[36],
        args[37], args[38], args[39], args[40], args[41], args[42], args[43], args[44], args[45],
        args[46], args[47], args[48], args[49], args[50], args[51], args[52], args[53], args[54],
        args[55], args[56], args[57], args[58], args[59], args[60], args[61], args[62], args[63],
    );
    // arguments run ttt, ttc, tta, ttg, ctt, ...
    assert_eq!(u.get(&Codon::TTT), Some(1));
    assert_eq!(u.get(&Codon::TTC), Some(2));
    assert_eq!(u.get(&Codon::CTT), Some(5));
    assert_eq!(u.get(&Codon::GGG), Some(64));
    assert!(u.is_valid());
}

#[test]
fn negative_counts_are_not_valid() {
    let u = usage_with(&[(Codon::ATG, -1)]);
    assert!(!u.is_valid());
    assert!(!CodonUsage::from_counts(vec![1; 10]).is_valid());
}

#[test]
fn counts_become_fractions_per_residue() {
    let u = usage_with(&[(Codon::GCT, 1), (Codon::GCC, 1), (Codon::GCA, 2), (Codon::ATG, 7)]);
    let t = u.into_fracs();
    assert_eq!(t.get(Codon::GCT), Some(SCALE / 4));
    assert_eq!(t.get(Codon::GCC), Some(SCALE / 4));
    assert_eq!(t.get(Codon::GCA), Some(SCALE / 2));
    assert_eq!(t.get(Codon::GCG), Some(0));
    assert_eq!(t.get(Codon::ATG), Some(SCALE));
    // a residue with no counts at all is unavailable
    assert_eq!(t.get(Codon::TGG), None);
    assert_eq!(t.get(Codon::AAA), None);
}

#[test]
fn fraction_rows_sum_to_one() {
    let u = usage_with(&[(Codon::CTA, 1), (Codon::CTC, 1), (Codon::CTG, 1), (Codon::TTA, 3)]);
    let t = u.into_fracs();
    let total = row_total(&t, 'L');
    assert!(total <= SCALE);
    assert!(SCALE - total < 6);
    assert!(((total as f64) / (SCALE as f64) - 1.0).abs() < 1e-6);
}

#[test]
fn remove_prohibited_codons_single_organism() {
    let refined = remove_prohibited_codons(&vec![org_usage1()], frac(0.2), 0).unwrap();
    assert_eq!(refined.len(), 1);
    let t = &refined[0];
    assert_eq!(t.get(Codon::GCT), None);
    assert!(approx(t.get(Codon::GCC), 0.22222222, 1e-6));
    assert!(approx(t.get(Codon::GCA), 0.33333333, 1e-6));
    assert!(approx(t.get(Codon::GCG), 0.44444444, 1e-6));
    assert_eq!(t.get(Codon::CGT), None);
    assert!(approx(t.get(Codon::CGC), 0.22222222, 1e-6));
    assert!(approx(t.get(Codon::CGA), 0.33333333, 1e-6));
    assert!(approx(t.get(Codon::CGG), 0.44444444, 1e-6));
}

#[test]
fn prohibited_codons_are_a_union_over_organisms() {
    let found = find_prohibited_codons(&vec![org_usage1(), org_usage2()], frac(0.15));
    assert_eq!(found, vec![Codon::CGG, Codon::CGT, Codon::GCG, Codon::GCT]);
}

#[test]
fn inaccessible_residue_keeps_a_rescued_codon() {
    let a = table_of(&[(Codon::GCT, 0.05), (Codon::GCC, 0.05), (Codon::GCA, 0.45), (Codon::GCG, 0.45)]);
    let b = table_of(&[(Codon::GCT, 0.45), (Codon::GCC, 0.45), (Codon::GCA, 0.06), (Codon::GCG, 0.04)]);
    let refined = remove_prohibited_codons(&vec![a, b], frac(0.1), 0).unwrap();
    for t in &refined {
        let kept: Vec<Codon> = [Codon::GCA, Codon::GCC, Codon::GCG, Codon::GCT]
            .into_iter()
            .filter(|c| t.get(*c).is_some())
            .collect();
        assert!(!kept.is_empty());
        let total = row_total(t, 'A');
        assert!(SCALE - total < 6);
    }
    // GCA has the least spread across the two organisms
    assert!(refined[0].get(Codon::GCA).is_some());
    assert_eq!(refined[0].get(Codon::GCG), None);
}

#[test]
fn threshold_must_lie_strictly_between_zero_and_one() {
    assert!(matches!(remove_prohibited_codons(&vec![org_usage1()], 0, 0), Err(CoreError::InvalidThreshold)));
    assert!(matches!(remove_prohibited_codons(&vec![org_usage1()], SCALE, 0), Err(CoreError::InvalidThreshold)));
}

#[test]
fn average_codon_table() {
    let tables = vec![org_usage1(), org_usage2()];
    let weights = vec![frac(0.33), frac(0.67)];
    let avg = build_averaged_table(&tables, &weights).unwrap();
    assert!(approx(avg.get(Codon::GCT), 0.167, 1e-3));
    assert!(approx(avg.get(Codon::GCC), 0.267, 1e-3));
    assert!(approx(avg.get(Codon::GCA), 0.367, 1e-3));
    assert!(approx(avg.get(Codon::GCG), 0.199, 1e-3));
    assert!(approx(avg.get(Codon::CGT), 0.167, 1e-3));
    assert!(approx(avg.get(Codon::CGG), 0.199, 1e-3));
    assert_eq!(avg.get(Codon::ATG), None);
}

#[test]
fn averaging_renormalises_rows() {
    let tables = vec![org_usage1(), org_usage2()];
    let avg = build_averaged_table(&tables, &equal_weights(2)).unwrap();
    assert!(approx(avg.get(Codon::GCT), 0.15, 1e-6));
    assert!(approx(avg.get(Codon::GCG), 0.25, 1e-6));
    assert!(SCALE - row_total(&avg, 'A') < 6);
}

#[test]
fn averaging_rejects_bad_weights() {
    let tables = vec![org_usage1(), org_usage2()];
    assert!(matches!(build_averaged_table(&tables, &vec![SCALE]), Err(CoreError::InvalidWeights)));
    assert!(matches!(build_averaged_table(&tables, &vec![SCALE, 0]), Err(CoreError::InvalidWeights)));
}

#[test]
fn weights_are_normalised_to_least_one() {
    assert_eq!(equal_weights(3), vec![SCALE, SCALE, SCALE]);
    assert_eq!(weights_from_expression(&vec![2, 4, 3]), Ok(vec![SCALE, 2 * SCALE, 3 * SCALE / 2]));
    assert_eq!(weights_from_expression(&vec![]), Err(CoreError::InvalidWeights));
    assert_eq!(weights_from_expression(&vec![1, 0]), Err(CoreError::InvalidWeights));
}
