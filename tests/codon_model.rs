use multimizer::codon::Codon;
use multimizer::error::CoreError;
use multimizer::genetic_code::{AACodonLibrary, CodonToAA, NumCodonsByAA, SequenceType};
use multimizer::sequence::{
    detect_sequence_type, optimize_seq_test, spell_codons, translate_dna_sequence,
};

fn all_codons() -> Vec<Codon> {
    (0u8..64).map(Codon::from_ordinal).collect()
}

#[test]
fn parse_inverts_spelling_for_every_codon() {
    for c in all_codons() {
        let s = c.to_string();
        assert_eq!(s.len(), 3);
        assert_eq!(Codon::parse(&s), Ok(c));
    }
}

#[test]
fn spelling_follows_lexicographic_order() {
    let spelled: Vec<String> = all_codons().iter().map(|c| c.to_string()).collect();
    let mut sorted = spelled.clone();
    sorted.sort();
    assert_eq!(spelled, sorted);
    assert_eq!(Codon::AAA.to_string(), "AAA");
    assert_eq!(Codon::GCT.to_string(), "GCT");
    assert_eq!(Codon::TTT.to_string(), "TTT");
    assert!(Codon::AAC < Codon::AAG);
}

#[test]
fn parse_ignores_case() {
    assert_eq!(Codon::parse("atg"), Ok(Codon::ATG));
    assert_eq!(Codon::parse("GcT"), Ok(Codon::GCT));
}

#[test]
fn parse_rejects_bad_codons() {
    assert_eq!(Codon::parse("AT"), Err(CoreError::InvalidCodon));
    assert_eq!(Codon::parse("ATGC"), Err(CoreError::InvalidCodon));
    assert_eq!(Codon::parse("AXG"), Err(CoreError::InvalidCodon));
    assert_eq!(Codon::parse(""), Err(CoreError::InvalidCodon));
}

#[test]
fn stop_codons_translate_to_star() {
    assert_eq!(Codon::TAA.translate(), '*');
    assert_eq!(Codon::TAG.translate(), '*');
    assert_eq!(Codon::TGA.translate(), '*');
    assert_eq!(Codon::ATG.translate(), 'M');
    assert_eq!(Codon::TGG.translate(), 'W');
}

#[test]
fn codon_to_aa_is_total() {
    let table = CodonToAA::new();
    for c in all_codons() {
        assert_eq!(table.convert(&c), Some(c.translate()));
    }
    assert_eq!(table.convert(&Codon::GCC), Some('A'));
    assert_eq!(table.convert(&Codon::TGA), Some('*'));
}

#[test]
fn codon_library_lists_groups_in_order() {
    let lib = AACodonLibrary::new();
    assert_eq!(lib.get('A'), vec![Codon::GCA, Codon::GCC, Codon::GCG, Codon::GCT]);
    assert_eq!(
        lib.get('L'),
        vec![Codon::CTA, Codon::CTC, Codon::CTG, Codon::CTT, Codon::TTA, Codon::TTG]
    );
    assert_eq!(lib.get('M'), vec![Codon::ATG]);
    assert_eq!(lib.get('*'), vec![Codon::TAA, Codon::TAG, Codon::TGA]);
    assert!(lib.get('X').is_empty());
}

#[test]
fn group_sizes() {
    let sizes = NumCodonsByAA::new();
    assert_eq!(sizes.get('A'), 4);
    assert_eq!(sizes.get('R'), 6);
    assert_eq!(sizes.get('I'), 3);
    assert_eq!(sizes.get('W'), 1);
    assert_eq!(sizes.get('*'), 3);
    assert_eq!(sizes.get('B'), 0);
    let total: usize = "ACDEFGHIKLMNPQRSTVWY*".chars().map(|aa| sizes.get(aa)).sum();
    assert_eq!(total, 64);
}

#[test]
fn translate_dna_examples() {
    assert_eq!(translate_dna_sequence("ATGGCC"), Ok("MA".to_string()));
    assert_eq!(translate_dna_sequence("ATGGC"), Err(CoreError::NotDivisibleByThree));
    assert_eq!(translate_dna_sequence("ATGXCC"), Err(CoreError::InvalidCodon));
}

#[test]
fn translate_dna_has_one_residue_per_triplet() {
    assert_eq!(translate_dna_sequence(""), Ok(String::new()));
    let dna = "ATGGCTTAAtgg";
    let protein = translate_dna_sequence(dna).unwrap();
    assert_eq!(protein, "MA*W");
    assert_eq!(protein.chars().count(), dna.len() / 3);
}

#[test]
fn detect_sequence_type_examples() {
    assert_eq!(detect_sequence_type("ATCG"), Ok(SequenceType::Dna));
    assert_eq!(
        detect_sequence_type("ACDEFGHIKLMNPQRSTVWY*"),
        Ok(SequenceType::Protein)
    );
    assert_eq!(
        detect_sequence_type("ATCGX"),
        Err(CoreError::InvalidSequence { position: 4, residue: 'X' })
    );
    assert_eq!(
        detect_sequence_type("ACDEFGHIKLMNPQRSTVWY*Z"),
        Err(CoreError::InvalidSequence { position: 21, residue: 'Z' })
    );
}

#[test]
fn detect_prefers_dna_for_shared_letters() {
    assert_eq!(detect_sequence_type("ACG"), Ok(SequenceType::Dna));
    assert_eq!(detect_sequence_type(""), Ok(SequenceType::Dna));
    assert_eq!(detect_sequence_type("MA"), Ok(SequenceType::Protein));
    assert_eq!(
        detect_sequence_type("atg"),
        Err(CoreError::InvalidSequence { position: 0, residue: 'a' })
    );
}

#[test]
fn spelled_codons_translate_back() {
    let cs = vec![Codon::ATG, Codon::GCC, Codon::TAA];
    let dna = spell_codons(&cs);
    assert_eq!(dna, "ATGGCCTAA");
    assert_eq!(translate_dna_sequence(&dna), Ok("MA*".to_string()));
}

#[test]
fn optimize_seq_test_returns_query() {
    assert_eq!(optimize_seq_test("MAST"), "MAST");
}
