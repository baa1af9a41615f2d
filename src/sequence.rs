use vstd::prelude::*;

use crate::codon::{amino_of, decode_codon, lemma_decode_spelling, Codon};
use crate::error::CoreError;
use crate::genetic_code::{
    is_amino_acid, is_amino_acid_letter, is_nucleotide, is_nucleotide_letter, SequenceType,
};
use crate::text::push_char;

verus! {

/// Every character of `s` is a DNA letter.
pub open spec fn all_nucleotides(s: Seq<char>) -> bool {
    forall|i: int| 0 <= i < s.len() ==> is_nucleotide(#[trigger] s[i])
}

/// Every character of `s` is an amino-acid letter.
pub open spec fn all_amino_acids(s: Seq<char>) -> bool {
    forall|i: int| 0 <= i < s.len() ==> is_amino_acid(#[trigger] s[i])
}

/// The `k`-th triplet of `s`.
pub open spec fn triplet(s: Seq<char>, k: int) -> Seq<char> {
    s.subrange(3 * k, 3 * k + 3)
}

/// Every triplet of `s` spells a codon.
pub open spec fn all_triplets_decode(s: Seq<char>) -> bool {
    forall|k: int| 0 <= k < s.len() / 3 ==> (#[trigger] decode_codon(triplet(s, k))) is Some
}

/// The protein that the triplets of `s` encode, one letter per triplet.
pub open spec fn translation(s: Seq<char>) -> Seq<char> {
    Seq::new((s.len() / 3) as nat, |k: int| amino_of(decode_codon(triplet(s, k))->0))
}

/// The protein that a codon sequence encodes.
pub open spec fn protein_of(cs: Seq<Codon>) -> Seq<char> {
    cs.map_values(|c: Codon| amino_of(c))
}

/// The DNA that spells a codon sequence.
pub open spec fn dna_of(cs: Seq<Codon>) -> Seq<char>
    decreases cs.len(),
{
    if cs.len() == 0 {
        Seq::empty()
    } else {
        dna_of(cs.drop_last()) + cs.last().spelling()
    }
}

/// `e` reports the first character of `q` that is in neither alphabet, and its position.
pub open spec fn is_first_invalid(q: Seq<char>, e: CoreError) -> bool {
    match e {
        CoreError::InvalidSequence { position, residue } => {
            &&& position < q.len()
            &&& q[position as int] == residue
            &&& !is_amino_acid(residue)
            &&& all_amino_acids(q.subrange(0, position as int))
        },
        _ => false,
    }
}

/// The characters of a string, one by one.
pub fn chars_of(s: &str) -> (r: Vec<char>)
    ensures
        r@ == s@,
{
    let n = s.unicode_len();
    let mut r: Vec<char> = Vec::new();
    let mut i: usize = 0;
    while i < n
        invariant
            n == s@.len(),
            i <= n,
            r@ == s@.subrange(0, i as int),
        decreases n - i,
    {
        r.push(s.get_char(i));
        i = i + 1;
    }
    assert(r@ =~= s@);
    r
}

/// Classifies a query as DNA (checked first) or protein; otherwise reports the
/// first character, and its position, that belongs to neither alphabet.
pub fn detect_sequence_type(query: &str) -> (r: Result<SequenceType, CoreError>)
    ensures
        all_nucleotides(query@) ==> r == Ok::<SequenceType, CoreError>(SequenceType::Dna),
        !all_nucleotides(query@) && all_amino_acids(query@) ==> r == Ok::<
            SequenceType,
            CoreError,
        >(SequenceType::Protein),
        !all_amino_acids(query@) ==> r is Err && is_first_invalid(query@, r->Err_0),
{
    let chars = chars_of(query);
    let mut dna = true;
    let mut i: usize = 0;
    while i < chars.len()
        invariant
            chars@ == query@,
            i <= chars@.len(),
            all_amino_acids(chars@.subrange(0, i as int)),
            dna == all_nucleotides(chars@.subrange(0, i as int)),
        decreases chars@.len() - i,
    {
        let ch = chars[i];
        if !is_amino_acid_letter(ch) {
            return Err(CoreError::InvalidSequence { position: i, residue: ch });
        }
        proof {
            let prev = chars@.subrange(0, i as int);
            let next = chars@.subrange(0, i + 1);
            assert(next =~= prev.push(ch));
            if dna && is_nucleotide(ch) {
                assert(all_nucleotides(next));
            }
            if !(dna && is_nucleotide(ch)) {
                if !dna {
                    let w = choose|w: int| 0 <= w < prev.len() && !is_nucleotide(prev[w]);
                    assert(next[w] == prev[w]);
                } else {
                    assert(next[i as int] == ch);
                }
            }
        }
        dna = dna && is_nucleotide_letter(ch);
        i = i + 1;
    }
    assert(chars@.subrange(0, chars@.len() as int) =~= chars@);
    if dna {
        Ok(SequenceType::Dna)
    } else {
        Ok(SequenceType::Protein)
    }
}

/// Translates DNA into protein, one amino acid per triplet; letters may be
/// of either case.
pub fn translate_dna_sequence(query: &str) -> (r: Result<String, CoreError>)
    ensures
        query@.len() % 3 != 0 ==> r == Err::<String, CoreError>(CoreError::NotDivisibleByThree),
        query@.len() % 3 == 0 && !all_triplets_decode(query@) ==> r == Err::<String, CoreError>(
            CoreError::InvalidCodon,
        ),
        query@.len() % 3 == 0 && all_triplets_decode(query@) ==> r is Ok && r->Ok_0@
            == translation(query@) && r->Ok_0@.len() == query@.len() / 3,
{
    let chars = chars_of(query);
    if chars.len() % 3 != 0 {
        return Err(CoreError::NotDivisibleByThree);
    }
    let n = chars.len() / 3;
    let mut out = String::new();
    let mut k: usize = 0;
    while k < n
        invariant
            chars@ == query@,
            chars@.len() == 3 * n,
            chars@.len() <= usize::MAX,
            k <= n,
            forall|j: int| 0 <= j < k ==> (#[trigger] decode_codon(triplet(query@, j))) is Some,
            out@ == translation(query@).subrange(0, k as int),
        decreases n - k,
    {
        assert(3 * k + 2 < 3 * n) by (nonlinear_arith)
            requires
                k < n,
        ;
        let a = chars[3 * k];
        let b = chars[3 * k + 1];
        let c = chars[3 * k + 2];
        assert(triplet(query@, k as int) =~= seq![a, b, c]);
        match Codon::from_letters(a, b, c) {
            Some(codon) => {
                push_char(&mut out, codon.translate());
                assert(out@ =~= translation(query@).subrange(0, k + 1));
            },
            None => {
                return Err(CoreError::InvalidCodon);
            },
        }
        k = k + 1;
    }
    assert(out@ =~= translation(query@));
    Ok(out)
}

/// Returns the query unchanged.
pub fn optimize_seq_test(query: &str) -> (r: String)
    ensures
        r@ == query@,
{
    String::from_str(query)
}

/// The DNA that spells a codon sequence, upper case.
pub fn spell_codons(cs: &Vec<Codon>) -> (r: String)
    ensures
        r@ == dna_of(cs@),
{
    let mut r = String::new();
    let mut k: usize = 0;
    while k < cs.len()
        invariant
            k <= cs@.len(),
            r@ == dna_of(cs@.subrange(0, k as int)),
        decreases cs@.len() - k,
    {
        let s = cs[k].to_string();
        r.append(s.as_str());
        proof {
            let next = cs@.subrange(0, k + 1);
            assert(next.drop_last() =~= cs@.subrange(0, k as int));
        }
        k = k + 1;
    }
    assert(cs@.subrange(0, cs@.len() as int) =~= cs@);
    r
}

/// Upper-case DNA letters always spell codons.
pub proof fn lemma_nucleotides_decode(s: Seq<char>)
    requires
        all_nucleotides(s),
    ensures
        all_triplets_decode(s),
{
    assert forall|k: int| 0 <= k < s.len() / 3 implies (#[trigger] decode_codon(triplet(s, k))) is Some by {
        assert(3 * k + 3 <= s.len()) by (nonlinear_arith)
            requires
                0 <= k < s.len() / 3,
        ;
        let t = triplet(s, k);
        assert(t[0] == s[3 * k] && t[1] == s[3 * k + 1] && t[2] == s[3 * k + 2]);
    }
}

/// The spelling of a codon sequence has one triplet per codon.
pub proof fn lemma_dna_of_triplets(cs: Seq<Codon>)
    ensures
        dna_of(cs).len() == 3 * cs.len(),
        forall|k: int| 0 <= k < cs.len() ==> #[trigger] triplet(dna_of(cs), k) == cs[k].spelling(),
    decreases cs.len(),
{
    if cs.len() > 0 {
        let init = cs.drop_last();
        lemma_dna_of_triplets(init);
        let d = dna_of(cs);
        assert forall|k: int| 0 <= k < cs.len() implies #[trigger] triplet(d, k)
            == cs[k].spelling() by {
            if k < init.len() {
                assert(triplet(d, k) =~= triplet(dna_of(init), k));
            } else {
                assert(triplet(d, k) =~= cs.last().spelling());
            }
        }
    }
}

/// Translating the spelling of a codon sequence gives back the protein it encodes.
pub proof fn lemma_translate_dna_of(cs: Seq<Codon>)
    ensures
        dna_of(cs).len() % 3 == 0,
        all_triplets_decode(dna_of(cs)),
        translation(dna_of(cs)) == protein_of(cs),
{
    lemma_dna_of_triplets(cs);
    let d = dna_of(cs);
    assert(d.len() / 3 == cs.len());
    assert forall|k: int| 0 <= k < d.len() / 3 implies (#[trigger] decode_codon(
        triplet(d, k),
    )) == Some(cs[k]) by {
        lemma_decode_spelling(cs[k]);
    }
    assert(translation(d) =~= protein_of(cs));
}

} // verus!
