use vstd::prelude::*;

use crate::codon::{amino_of, codon_at, lemma_codon_at_index, Codon};

verus! {

/// The amino-acid alphabet: twenty residues and `*` for stop.
pub const VALID_AMINO_ACIDS: &'static str = "ACDEFGHIKLMNPQRSTVWY*";

/// The DNA alphabet accepted in a query.
pub const VALID_NUCLEOTIDES: &'static str = "ACGT";

/// The kind of a query sequence.
#[derive(Debug, Clone, Copy, PartialEq, Eq, Structural)]
pub enum SequenceType {
    Dna,
    Protein,
}

/// A letter of the DNA alphabet of a query (upper case only).
pub open spec fn is_nucleotide(ch: char) -> bool {
    ch == 'A' || ch == 'C' || ch == 'G' || ch == 'T'
}

/// A letter of the amino-acid alphabet.
pub open spec fn is_amino_acid(ch: char) -> bool {
    ch == 'A' || ch == 'C' || ch == 'D' || ch == 'E' || ch == 'F' || ch == 'G' || ch == 'H'
        || ch == 'I' || ch == 'K' || ch == 'L' || ch == 'M' || ch == 'N' || ch == 'P' || ch
        == 'Q' || ch == 'R' || ch == 'S' || ch == 'T' || ch == 'V' || ch == 'W' || ch == 'Y'
        || ch == '*'
}

/// The amino acid of the codon with ordinal `i`.
pub open spec fn amino_at(i: int) -> char {
    amino_of(codon_at(i))
}

/// The codons among the first `n` ordinals that encode `aa`, in lexicographic order.
pub open spec fn synonyms(aa: char, n: int) -> Seq<Codon>
    decreases n,
{
    if n <= 0 {
        Seq::empty()
    } else if amino_at(n - 1) == aa {
        synonyms(aa, n - 1).push(codon_at(n - 1))
    } else {
        synonyms(aa, n - 1)
    }
}

/// The degeneracy group of `aa`: every codon that encodes it, in lexicographic order.
pub open spec fn group_of(aa: char) -> Seq<Codon> {
    synonyms(aa, 64)
}

/// Whether `ch` is a letter of the amino-acid alphabet.
pub fn is_amino_acid_letter(ch: char) -> (r: bool)
    ensures
        r == is_amino_acid(ch),
{
    ch == 'A' || ch == 'C' || ch == 'D' || ch == 'E' || ch == 'F' || ch == 'G' || ch == 'H'
        || ch == 'I' || ch == 'K' || ch == 'L' || ch == 'M' || ch == 'N' || ch == 'P' || ch
        == 'Q' || ch == 'R' || ch == 'S' || ch == 'T' || ch == 'V' || ch == 'W' || ch == 'Y'
        || ch == '*'
}

/// Whether `ch` is a letter of the DNA alphabet.
pub fn is_nucleotide_letter(ch: char) -> (r: bool)
    ensures
        r == is_nucleotide(ch),
{
    ch == 'A' || ch == 'C' || ch == 'G' || ch == 'T'
}

/// Every codon that encodes `aa`, in lexicographic order.
pub fn synonymous_codons(aa: char) -> (r: Vec<Codon>)
    ensures
        r@ == group_of(aa),
{
    let mut r: Vec<Codon> = Vec::new();
    let mut i: u8 = 0;
    while i < 64
        invariant
            i <= 64,
            r@ == synonyms(aa, i as int),
        decreases 64 - i,
    {
        let c = Codon::from_ordinal(i);
        if c.translate() == aa {
            r.push(c);
        }
        i = i + 1;
    }
    r
}

/// The letters of the amino-acid alphabet, in the order of `VALID_AMINO_ACIDS`.
pub fn amino_acid_letters() -> (r: Vec<char>)
    ensures
        r@.len() == 21,
        forall|k: int| 0 <= k < 21 ==> is_amino_acid(#[trigger] r@[k]),
        forall|ch: char| is_amino_acid(ch) ==> r@.contains(ch),
{
    let s = VALID_AMINO_ACIDS;
    proof {
        reveal_strlit("ACDEFGHIKLMNPQRSTVWY*");
    }
    let mut r: Vec<char> = Vec::new();
    let mut i: usize = 0;
    while i < 21
        invariant
            i <= 21,
            s@ == "ACDEFGHIKLMNPQRSTVWY*"@,
            s@.len() == 21,
            r@ == s@.subrange(0, i as int),
        decreases 21 - i,
    {
        r.push(s.get_char(i));
        i = i + 1;
    }
    assert(r@ =~= s@);
    proof {
        assert forall|ch: char| is_amino_acid(ch) implies r@.contains(ch) by {
            if ch == 'A' { assert(r@[0] == ch); }
            else if ch == 'C' { assert(r@[1] == ch); }
            else if ch == 'D' { assert(r@[2] == ch); }
            else if ch == 'E' { assert(r@[3] == ch); }
            else if ch == 'F' { assert(r@[4] == ch); }
            else if ch == 'G' { assert(r@[5] == ch); }
            else if ch == 'H' { assert(r@[6] == ch); }
            else if ch == 'I' { assert(r@[7] == ch); }
            else if ch == 'K' { assert(r@[8] == ch); }
            else if ch == 'L' { assert(r@[9] == ch); }
            else if ch == 'M' { assert(r@[10] == ch); }
            else if ch == 'N' { assert(r@[11] == ch); }
            else if ch == 'P' { assert(r@[12] == ch); }
            else if ch == 'Q' { assert(r@[13] == ch); }
            else if ch == 'R' { assert(r@[14] == ch); }
            else if ch == 'S' { assert(r@[15] == ch); }
            else if ch == 'T' { assert(r@[16] == ch); }
            else if ch == 'V' { assert(r@[17] == ch); }
            else if ch == 'W' { assert(r@[18] == ch); }
            else if ch == 'Y' { assert(r@[19] == ch); }
            else { assert(r@[20] == ch); }
        }
    }
    r
}

/// The standard genetic code as a table indexed by codon ordinal.
pub struct CodonToAA {
    table: Vec<char>,
}

impl CodonToAA {
    pub closed spec fn well_formed(&self) -> bool {
        &&& self.table@.len() == 64
        &&& forall|i: int| 0 <= i < 64 ==> #[trigger] self.table@[i] == amino_at(i)
    }

    pub fn new() -> (r: CodonToAA)
        ensures
            r.well_formed(),
    {
        let mut table: Vec<char> = Vec::new();
        let mut i: u8 = 0;
        while i < 64
            invariant
                i <= 64,
                table@.len() == i,
                forall|k: int| 0 <= k < i ==> #[trigger] table@[k] == amino_at(k),
            decreases 64 - i,
        {
            table.push(Codon::from_ordinal(i).translate());
            i = i + 1;
        }
        CodonToAA { table }
    }

    /// The amino acid of `codon`; the table is total, so this is never `None`.
    pub fn convert(&self, codon: &Codon) -> (r: Option<char>)
        requires
            self.well_formed(),
        ensures
            r == Some(amino_of(*codon)),
    {
        proof {
            lemma_codon_at_index(*codon);
        }
        Some(self.table[codon.ordinal() as usize])
    }
}

/// For each amino acid, its codons in lexicographic order.
pub struct AACodonLibrary {
    letters: Vec<char>,
    groups: Vec<Vec<Codon>>,
}

impl AACodonLibrary {
    pub closed spec fn well_formed(&self) -> bool {
        &&& self.letters@.len() == self.groups@.len()
        &&& forall|ch: char| is_amino_acid(ch) ==> self.letters@.contains(ch)
        &&& forall|k: int|
            0 <= k < self.groups@.len() ==> #[trigger] self.groups@[k]@ == group_of(
                self.letters@[k],
            )
    }

    pub fn new() -> (r: AACodonLibrary)
        ensures
            r.well_formed(),
    {
        let letters = amino_acid_letters();
        let mut groups: Vec<Vec<Codon>> = Vec::new();
        let mut k: usize = 0;
        while k < letters.len()
            invariant
                k <= letters@.len(),
                groups@.len() == k,
                forall|j: int| 0 <= j < k ==> #[trigger] groups@[j]@ == group_of(letters@[j]),
            decreases letters@.len() - k,
        {
            groups.push(synonymous_codons(letters[k]));
            k = k + 1;
        }
        AACodonLibrary { letters, groups }
    }

    /// The codons of `aa`, in lexicographic order; empty for a letter outside the alphabet.
    pub fn get(&self, aa: char) -> (r: Vec<Codon>)
        requires
            self.well_formed(),
        ensures
            is_amino_acid(aa) ==> r@ == group_of(aa),
            !is_amino_acid(aa) ==> r@.len() == 0,
    {
        if !is_amino_acid_letter(aa) {
            return Vec::new();
        }
        let mut k: usize = 0;
        while k < self.letters.len()
            invariant
                self.well_formed(),
                is_amino_acid(aa),
                k <= self.letters@.len(),
                forall|j: int| 0 <= j < k ==> self.letters@[j] != aa,
            decreases self.letters@.len() - k,
        {
            if self.letters[k] == aa {
                return self.groups[k].clone();
            }
            k = k + 1;
        }
        proof {
            let j = self.letters@.index_of(aa);
            assert(self.letters@[j] == aa);
        }
        Vec::new()
    }
}

impl Default for CodonToAA {
    fn default() -> (r: Self)
        ensures
            r.well_formed(),
    {
        Self::new()
    }
}

impl Default for AACodonLibrary {
    fn default() -> (r: Self)
        ensures
            r.well_formed(),
    {
        Self::new()
    }
}

/// The size of each amino acid's degeneracy group.
pub struct NumCodonsByAA {
    library: AACodonLibrary,
}

impl NumCodonsByAA {
    pub closed spec fn well_formed(&self) -> bool {
        self.library.well_formed()
    }

    pub fn new() -> (r: NumCodonsByAA)
        ensures
            r.well_formed(),
    {
        NumCodonsByAA { library: AACodonLibrary::new() }
    }

    /// How many codons encode `aa`; zero for a letter outside the alphabet.
    pub fn get(&self, aa: char) -> (r: usize)
        requires
            self.well_formed(),
        ensures
            is_amino_acid(aa) ==> r == group_of(aa).len(),
            !is_amino_acid(aa) ==> r == 0,
    {
        self.library.get(aa).len()
    }
}

impl Default for NumCodonsByAA {
    fn default() -> (r: Self)
        ensures
            r.well_formed(),
    {
        Self::new()
    }
}

/// Every degeneracy group has at most six codons, and only letters of the
/// amino-acid alphabet have codons.
pub proof fn lemma_group_sizes(aa: char)
    ensures
        group_of(aa).len() <= 6,
        !is_amino_acid(aa) ==> group_of(aa).len() == 0,
{
    reveal_with_fuel(synonyms, 65);
    assert(group_of('A').len() == 4);
    assert(group_of('C').len() == 2);
    assert(group_of('D').len() == 2);
    assert(group_of('E').len() == 2);
    assert(group_of('F').len() == 2);
    assert(group_of('G').len() == 4);
    assert(group_of('H').len() == 2);
    assert(group_of('I').len() == 3);
    assert(group_of('K').len() == 2);
    assert(group_of('L').len() == 6);
    assert(group_of('M').len() == 1);
    assert(group_of('N').len() == 2);
    assert(group_of('P').len() == 4);
    assert(group_of('Q').len() == 2);
    assert(group_of('R').len() == 6);
    assert(group_of('S').len() == 6);
    assert(group_of('T').len() == 4);
    assert(group_of('V').len() == 4);
    assert(group_of('W').len() == 1);
    assert(group_of('Y').len() == 2);
    assert(group_of('*').len() == 3);
}

} // verus!
