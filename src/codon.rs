use vstd::prelude::*;

use crate::error::CoreError;
use crate::text::push_char;

verus! {

/// One of the 64 triplets over the DNA alphabet. The variants are declared in
/// lexicographic order of their spelling, so the derived order is that order.
#[allow(non_camel_case_types)]
#[allow(clippy::upper_case_acronyms)]
#[derive(Debug, PartialEq, Eq, Structural, Hash, Clone, Copy, PartialOrd, Ord)]
pub enum Codon {
    AAA,
    AAC,
    AAG,
    AAT,
    ACA,
    ACC,
    ACG,
    ACT,
    AGA,
    AGC,
    AGG,
    AGT,
    ATA,
    ATC,
    ATG,
    ATT,
    CAA,
    CAC,
    CAG,
    CAT,
    CCA,
    CCC,
    CCG,
    CCT,
    CGA,
    CGC,
    CGG,
    CGT,
    CTA,
    CTC,
    CTG,
    CTT,
    GAA,
    GAC,
    GAG,
    GAT,
    GCA,
    GCC,
    GCG,
    GCT,
    GGA,
    GGC,
    GGG,
    GGT,
    GTA,
    GTC,
    GTG,
    GTT,
    TAA,
    TAC,
    TAG,
    TAT,
    TCA,
    TCC,
    TCG,
    TCT,
    TGA,
    TGC,
    TGG,
    TGT,
    TTA,
    TTC,
    TTG,
    TTT,
}

/// The base at position `i` (0..4) of the alphabet `A C G T`.
pub open spec fn base_of(i: int) -> char {
    if i == 0 {
        'A'
    } else if i == 1 {
        'C'
    } else if i == 2 {
        'G'
    } else {
        'T'
    }
}

/// A nucleotide letter, in either case.
pub open spec fn is_base(ch: char) -> bool {
    ch == 'A' || ch == 'C' || ch == 'G' || ch == 'T' || ch == 'a' || ch == 'c' || ch == 'g'
        || ch == 't'
}

/// Position of a nucleotide letter in `A C G T`, ignoring case.
pub open spec fn base_index(ch: char) -> int {
    if ch == 'A' || ch == 'a' {
        0
    } else if ch == 'C' || ch == 'c' {
        1
    } else if ch == 'G' || ch == 'g' {
        2
    } else {
        3
    }
}

/// The codon whose ordinal is `i`; ordinals outside 0..64 give `TTT`.
pub open spec fn codon_at(i: int) -> Codon {
    if i == 0 {
        Codon::AAA
    } else if i == 1 {
        Codon::AAC
    } else if i == 2 {
        Codon::AAG
    } else if i == 3 {
        Codon::AAT
    } else if i == 4 {
        Codon::ACA
    } else if i == 5 {
        Codon::ACC
    } else if i == 6 {
        Codon::ACG
    } else if i == 7 {
        Codon::ACT
    } else if i == 8 {
        Codon::AGA
    } else if i == 9 {
        Codon::AGC
    } else if i == 10 {
        Codon::AGG
    } else if i == 11 {
        Codon::AGT
    } else if i == 12 {
        Codon::ATA
    } else if i == 13 {
        Codon::ATC
    } else if i == 14 {
        Codon::ATG
    } else if i == 15 {
        Codon::ATT
    } else if i == 16 {
        Codon::CAA
    } else if i == 17 {
        Codon::CAC
    } else if i == 18 {
        Codon::CAG
    } else if i == 19 {
        Codon::CAT
    } else if i == 20 {
        Codon::CCA
    } else if i == 21 {
        Codon::CCC
    } else if i == 22 {
        Codon::CCG
    } else if i == 23 {
        Codon::CCT
    } else if i == 24 {
        Codon::CGA
    } else if i == 25 {
        Codon::CGC
    } else if i == 26 {
        Codon::CGG
    } else if i == 27 {
        Codon::CGT
    } else if i == 28 {
        Codon::CTA
    } else if i == 29 {
        Codon::CTC
    } else if i == 30 {
        Codon::CTG
    } else if i == 31 {
        Codon::CTT
    } else if i == 32 {
        Codon::GAA
    } else if i == 33 {
        Codon::GAC
    } else if i == 34 {
        Codon::GAG
    } else if i == 35 {
        Codon::GAT
    } else if i == 36 {
        Codon::GCA
    } else if i == 37 {
        Codon::GCC
    } else if i == 38 {
        Codon::GCG
    } else if i == 39 {
        Codon::GCT
    } else if i == 40 {
        Codon::GGA
    } else if i == 41 {
        Codon::GGC
    } else if i == 42 {
        Codon::GGG
    } else if i == 43 {
        Codon::GGT
    } else if i == 44 {
        Codon::GTA
    } else if i == 45 {
        Codon::GTC
    } else if i == 46 {
        Codon::GTG
    } else if i == 47 {
        Codon::GTT
    } else if i == 48 {
        Codon::TAA
    } else if i == 49 {
        Codon::TAC
    } else if i == 50 {
        Codon::TAG
    } else if i == 51 {
        Codon::TAT
    } else if i == 52 {
        Codon::TCA
    } else if i == 53 {
        Codon::TCC
    } else if i == 54 {
        Codon::TCG
    } else if i == 55 {
        Codon::TCT
    } else if i == 56 {
        Codon::TGA
    } else if i == 57 {
        Codon::TGC
    } else if i == 58 {
        Codon::TGG
    } else if i == 59 {
        Codon::TGT
    } else if i == 60 {
        Codon::TTA
    } else if i == 61 {
        Codon::TTC
    } else if i == 62 {
        Codon::TTG
    } else {
        Codon::TTT
    }
}

/// The codon spelled by three nucleotide letters (either case), if the text is one.
pub open spec fn decode_codon(s: Seq<char>) -> Option<Codon> {
    if s.len() == 3 && is_base(s[0]) && is_base(s[1]) && is_base(s[2]) {
        Some(codon_at(16 * base_index(s[0]) + 4 * base_index(s[1]) + base_index(s[2])))
    } else {
        None
    }
}

/// The amino acid (one-letter code, `*` for stop) of a codon in the standard genetic code.
pub open spec fn amino_of(c: Codon) -> char {
    match c {
        Codon::AAA => 'K',
        Codon::AAC => 'N',
        Codon::AAG => 'K',
        Codon::AAT => 'N',
        Codon::ACA => 'T',
        Codon::ACC => 'T',
        Codon::ACG => 'T',
        Codon::ACT => 'T',
        Codon::AGA => 'R',
        Codon::AGC => 'S',
        Codon::AGG => 'R',
        Codon::AGT => 'S',
        Codon::ATA => 'I',
        Codon::ATC => 'I',
        Codon::ATG => 'M',
        Codon::ATT => 'I',
        Codon::CAA => 'Q',
        Codon::CAC => 'H',
        Codon::CAG => 'Q',
        Codon::CAT => 'H',
        Codon::CCA => 'P',
        Codon::CCC => 'P',
        Codon::CCG => 'P',
        Codon::CCT => 'P',
        Codon::CGA => 'R',
        Codon::CGC => 'R',
        Codon::CGG => 'R',
        Codon::CGT => 'R',
        Codon::CTA => 'L',
        Codon::CTC => 'L',
        Codon::CTG => 'L',
        Codon::CTT => 'L',
        Codon::GAA => 'E',
        Codon::GAC => 'D',
        Codon::GAG => 'E',
        Codon::GAT => 'D',
        Codon::GCA => 'A',
        Codon::GCC => 'A',
        Codon::GCG => 'A',
        Codon::GCT => 'A',
        Codon::GGA => 'G',
        Codon::GGC => 'G',
        Codon::GGG => 'G',
        Codon::GGT => 'G',
        Codon::GTA => 'V',
        Codon::GTC => 'V',
        Codon::GTG => 'V',
        Codon::GTT => 'V',
        Codon::TAA => '*',
        Codon::TAC => 'Y',
        Codon::TAG => '*',
        Codon::TAT => 'Y',
        Codon::TCA => 'S',
        Codon::TCC => 'S',
        Codon::TCG => 'S',
        Codon::TCT => 'S',
        Codon::TGA => '*',
        Codon::TGC => 'C',
        Codon::TGG => 'W',
        Codon::TGT => 'C',
        Codon::TTA => 'L',
        Codon::TTC => 'F',
        Codon::TTG => 'L',
        Codon::TTT => 'F',
    }
}

impl Codon {
    /// Position of the codon in lexicographic order of spellings.
    pub open spec fn index(self) -> int {
        match self {
            Codon::AAA => 0,
            Codon::AAC => 1,
            Codon::AAG => 2,
            Codon::AAT => 3,
            Codon::ACA => 4,
            Codon::ACC => 5,
            Codon::ACG => 6,
            Codon::ACT => 7,
            Codon::AGA => 8,
            Codon::AGC => 9,
            Codon::AGG => 10,
            Codon::AGT => 11,
            Codon::ATA => 12,
            Codon::ATC => 13,
            Codon::ATG => 14,
            Codon::ATT => 15,
            Codon::CAA => 16,
            Codon::CAC => 17,
            Codon::CAG => 18,
            Codon::CAT => 19,
            Codon::CCA => 20,
            Codon::CCC => 21,
            Codon::CCG => 22,
            Codon::CCT => 23,
            Codon::CGA => 24,
            Codon::CGC => 25,
            Codon::CGG => 26,
            Codon::CGT => 27,
            Codon::CTA => 28,
            Codon::CTC => 29,
            Codon::CTG => 30,
            Codon::CTT => 31,
            Codon::GAA => 32,
            Codon::GAC => 33,
            Codon::GAG => 34,
            Codon::GAT => 35,
            Codon::GCA => 36,
            Codon::GCC => 37,
            Codon::GCG => 38,
            Codon::GCT => 39,
            Codon::GGA => 40,
            Codon::GGC => 41,
            Codon::GGG => 42,
            Codon::GGT => 43,
            Codon::GTA => 44,
            Codon::GTC => 45,
            Codon::GTG => 46,
            Codon::GTT => 47,
            Codon::TAA => 48,
            Codon::TAC => 49,
            Codon::TAG => 50,
            Codon::TAT => 51,
            Codon::TCA => 52,
            Codon::TCC => 53,
            Codon::TCG => 54,
            Codon::TCT => 55,
            Codon::TGA => 56,
            Codon::TGC => 57,
            Codon::TGG => 58,
            Codon::TGT => 59,
            Codon::TTA => 60,
            Codon::TTC => 61,
            Codon::TTG => 62,
            Codon::TTT => 63,
        }
    }

    /// The three upper-case letters of the codon.
    pub open spec fn spelling(self) -> Seq<char> {
        seq![base_of(self.index() / 16), base_of((self.index() / 4) % 4), base_of(self.index() % 4)]
    }

    /// The ordinal of the codon, in 0..64.
    pub fn ordinal(&self) -> (r: u8)
        ensures
            r as int == self.index(),
            r < 64,
    {
        match self {
            Codon::AAA => 0,
            Codon::AAC => 1,
            Codon::AAG => 2,
            Codon::AAT => 3,
            Codon::ACA => 4,
            Codon::ACC => 5,
            Codon::ACG => 6,
            Codon::ACT => 7,
            Codon::AGA => 8,
            Codon::AGC => 9,
            Codon::AGG => 10,
            Codon::AGT => 11,
            Codon::ATA => 12,
            Codon::ATC => 13,
            Codon::ATG => 14,
            Codon::ATT => 15,
            Codon::CAA => 16,
            Codon::CAC => 17,
            Codon::CAG => 18,
            Codon::CAT => 19,
            Codon::CCA => 20,
            Codon::CCC => 21,
            Codon::CCG => 22,
            Codon::CCT => 23,
            Codon::CGA => 24,
            Codon::CGC => 25,
            Codon::CGG => 26,
            Codon::CGT => 27,
            Codon::CTA => 28,
            Codon::CTC => 29,
            Codon::CTG => 30,
            Codon::CTT => 31,
            Codon::GAA => 32,
            Codon::GAC => 33,
            Codon::GAG => 34,
            Codon::GAT => 35,
            Codon::GCA => 36,
            Codon::GCC => 37,
            Codon::GCG => 38,
            Codon::GCT => 39,
            Codon::GGA => 40,
            Codon::GGC => 41,
            Codon::GGG => 42,
            Codon::GGT => 43,
            Codon::GTA => 44,
            Codon::GTC => 45,
            Codon::GTG => 46,
            Codon::GTT => 47,
            Codon::TAA => 48,
            Codon::TAC => 49,
            Codon::TAG => 50,
            Codon::TAT => 51,
            Codon::TCA => 52,
            Codon::TCC => 53,
            Codon::TCG => 54,
            Codon::TCT => 55,
            Codon::TGA => 56,
            Codon::TGC => 57,
            Codon::TGG => 58,
            Codon::TGT => 59,
            Codon::TTA => 60,
            Codon::TTC => 61,
            Codon::TTG => 62,
            Codon::TTT => 63,
        }
    }

    /// The codon with the given ordinal.
    pub fn from_ordinal(i: u8) -> (c: Codon)
        requires
            i < 64,
        ensures
            c == codon_at(i as int),
            c.index() == i as int,
    {
        match i {
            0 => Codon::AAA,
            1 => Codon::AAC,
            2 => Codon::AAG,
            3 => Codon::AAT,
            4 => Codon::ACA,
            5 => Codon::ACC,
            6 => Codon::ACG,
            7 => Codon::ACT,
            8 => Codon::AGA,
            9 => Codon::AGC,
            10 => Codon::AGG,
            11 => Codon::AGT,
            12 => Codon::ATA,
            13 => Codon::ATC,
            14 => Codon::ATG,
            15 => Codon::ATT,
            16 => Codon::CAA,
            17 => Codon::CAC,
            18 => Codon::CAG,
            19 => Codon::CAT,
            20 => Codon::CCA,
            21 => Codon::CCC,
            22 => Codon::CCG,
            23 => Codon::CCT,
            24 => Codon::CGA,
            25 => Codon::CGC,
            26 => Codon::CGG,
            27 => Codon::CGT,
            28 => Codon::CTA,
            29 => Codon::CTC,
            30 => Codon::CTG,
            31 => Codon::CTT,
            32 => Codon::GAA,
            33 => Codon::GAC,
            34 => Codon::GAG,
            35 => Codon::GAT,
            36 => Codon::GCA,
            37 => Codon::GCC,
            38 => Codon::GCG,
            39 => Codon::GCT,
            40 => Codon::GGA,
            41 => Codon::GGC,
            42 => Codon::GGG,
            43 => Codon::GGT,
            44 => Codon::GTA,
            45 => Codon::GTC,
            46 => Codon::GTG,
            47 => Codon::GTT,
            48 => Codon::TAA,
            49 => Codon::TAC,
            50 => Codon::TAG,
            51 => Codon::TAT,
            52 => Codon::TCA,
            53 => Codon::TCC,
            54 => Codon::TCG,
            55 => Codon::TCT,
            56 => Codon::TGA,
            57 => Codon::TGC,
            58 => Codon::TGG,
            59 => Codon::TGT,
            60 => Codon::TTA,
            61 => Codon::TTC,
            62 => Codon::TTG,
            _ => Codon::TTT,
        }
    }

    /// The amino acid this codon encodes; the three stops give `*`.
    pub fn translate(&self) -> (r: char)
        ensures
            r == amino_of(*self),
    {
        match self {
            Codon::AAA => 'K',
            Codon::AAC => 'N',
            Codon::AAG => 'K',
            Codon::AAT => 'N',
            Codon::ACA => 'T',
            Codon::ACC => 'T',
            Codon::ACG => 'T',
            Codon::ACT => 'T',
            Codon::AGA => 'R',
            Codon::AGC => 'S',
            Codon::AGG => 'R',
            Codon::AGT => 'S',
            Codon::ATA => 'I',
            Codon::ATC => 'I',
            Codon::ATG => 'M',
            Codon::ATT => 'I',
            Codon::CAA => 'Q',
            Codon::CAC => 'H',
            Codon::CAG => 'Q',
            Codon::CAT => 'H',
            Codon::CCA => 'P',
            Codon::CCC => 'P',
            Codon::CCG => 'P',
            Codon::CCT => 'P',
            Codon::CGA => 'R',
            Codon::CGC => 'R',
            Codon::CGG => 'R',
            Codon::CGT => 'R',
            Codon::CTA => 'L',
            Codon::CTC => 'L',
            Codon::CTG => 'L',
            Codon::CTT => 'L',
            Codon::GAA => 'E',
            Codon::GAC => 'D',
            Codon::GAG => 'E',
            Codon::GAT => 'D',
            Codon::GCA => 'A',
            Codon::GCC => 'A',
            Codon::GCG => 'A',
            Codon::GCT => 'A',
            Codon::GGA => 'G',
            Codon::GGC => 'G',
            Codon::GGG => 'G',
            Codon::GGT => 'G',
            Codon::GTA => 'V',
            Codon::GTC => 'V',
            Codon::GTG => 'V',
            Codon::GTT => 'V',
            Codon::TAA => '*',
            Codon::TAC => 'Y',
            Codon::TAG => '*',
            Codon::TAT => 'Y',
            Codon::TCA => 'S',
            Codon::TCC => 'S',
            Codon::TCG => 'S',
            Codon::TCT => 'S',
            Codon::TGA => '*',
            Codon::TGC => 'C',
            Codon::TGG => 'W',
            Codon::TGT => 'C',
            Codon::TTA => 'L',
            Codon::TTC => 'F',
            Codon::TTG => 'L',
            Codon::TTT => 'F',
        }
    }

    /// The three upper-case letters of the codon.
    pub fn to_string(&self) -> (s: String)
        ensures
            s@ == self.spelling(),
    {
        let i = self.ordinal();
        let mut s = String::new();
        push_char(&mut s, base_letter(i / 16));
        push_char(&mut s, base_letter((i / 4) % 4));
        push_char(&mut s, base_letter(i % 4));
        assert(s@ =~= self.spelling());
        s
    }

    /// Reads a codon from three nucleotide letters, in either case.
    pub fn parse(s: &str) -> (r: Result<Codon, CoreError>)
        ensures
            match decode_codon(s@) {
                Some(c) => r == Ok::<Codon, CoreError>(c),
                None => r == Err::<Codon, CoreError>(CoreError::InvalidCodon),
            },
    {
        if s.unicode_len() != 3 {
            return Err(CoreError::InvalidCodon);
        }
        let a = s.get_char(0);
        let b = s.get_char(1);
        let c = s.get_char(2);
        assert(s@ =~= seq![a, b, c]);
        match Codon::from_letters(a, b, c) {
            Some(codon) => Ok(codon),
            None => Err(CoreError::InvalidCodon),
        }
    }

    /// The codon spelled by three letters, if each is a nucleotide.
    pub fn from_letters(a: char, b: char, c: char) -> (r: Option<Codon>)
        ensures
            r == decode_codon(seq![a, b, c]),
    {
        match (letter_index(a), letter_index(b), letter_index(c)) {
            (Some(x), Some(y), Some(z)) => Some(Codon::from_ordinal(16 * x + 4 * y + z)),
            _ => None,
        }
    }
}

fn base_letter(i: u8) -> (ch: char)
    requires
        i < 4,
    ensures
        ch == base_of(i as int),
{
    if i == 0 {
        'A'
    } else if i == 1 {
        'C'
    } else if i == 2 {
        'G'
    } else {
        'T'
    }
}

fn letter_index(ch: char) -> (r: Option<u8>)
    ensures
        is_base(ch) ==> r == Some(base_index(ch) as u8),
        !is_base(ch) ==> r is None,
{
    if ch == 'A' || ch == 'a' {
        Some(0)
    } else if ch == 'C' || ch == 'c' {
        Some(1)
    } else if ch == 'G' || ch == 'g' {
        Some(2)
    } else if ch == 'T' || ch == 't' {
        Some(3)
    } else {
        None
    }
}

/// Every codon lies at its own ordinal.
pub proof fn lemma_codon_at_index(c: Codon)
    ensures
        codon_at(c.index()) == c,
        0 <= c.index() < 64,
{
}

/// Spelling a codon and reading the spelling back gives the same codon.
pub proof fn lemma_decode_spelling(c: Codon)
    ensures
        decode_codon(c.spelling()) == Some(c),
{
    let i = c.index();
    lemma_codon_at_index(c);
    assert(16 * (i / 16) + 4 * ((i / 4) % 4) + i % 4 == i) by (nonlinear_arith)
        requires
            0 <= i < 64,
    ;
}

} // verus!
