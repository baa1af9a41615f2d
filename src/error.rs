use vstd::prelude::*;

verus! {

/// Every way in which a call of the library can fail.
#[derive(Debug, Clone, Copy, PartialEq, Eq, Structural)]
pub enum CoreError {
    /// A triplet that is not three nucleotide letters.
    InvalidCodon,
    /// A DNA sequence whose length is not a multiple of three.
    NotDivisibleByThree,
    /// A character, at a position (counted in characters from 0), that is
    /// neither a nucleotide nor an amino acid.
    InvalidSequence { position: usize, residue: char },
    /// An amino acid of the query for which no codon is left to choose.
    UnavailableResidue(char),
    /// A prohibition threshold outside the open interval (0, 1).
    InvalidThreshold,
    /// Species weights that are zero, or not one per organism.
    InvalidWeights,
}

} // verus!
