use vstd::prelude::*;

use crate::codon::{decode_codon, lemma_codon_at_index, Codon};
use crate::error::CoreError;
use crate::sequence::{all_triplets_decode, chars_of, triplet};
use crate::table::{amounts, PreferenceTable, SCALE};

verus! {

/// The base (0..4, in `A C G T`) at position `pos` of the codon with ordinal `i`.
pub open spec fn digit(i: int, pos: int) -> int {
    if pos == 0 {
        i / 16
    } else if pos == 1 {
        (i / 4) % 4
    } else {
        i % 4
    }
}

/// The preference mass, over the first `n` codons, of those with base `b` at position `pos`.
pub open spec fn base_sum(a: Seq<int>, pos: int, b: int, n: int) -> int
    decreases n,
{
    if n <= 0 {
        0
    } else {
        base_sum(a, pos, b, n - 1) + if digit(n - 1, pos) == b {
            a[n - 1]
        } else {
            0
        }
    }
}

/// The preference mass of the first `n` codons.
pub open spec fn mass(a: Seq<int>, n: int) -> int
    decreases n,
{
    if n <= 0 {
        0
    } else {
        mass(a, n - 1) + a[n - 1]
    }
}

/// The product of the masses of the bases of codon `i`, one per position.
pub open spec fn base_product(p: Seq<Option<u64>>, i: int) -> int {
    base_sum(amounts(p), 0, digit(i, 0), 64) * base_sum(amounts(p), 1, digit(i, 1), 64) * base_sum(
        amounts(p),
        2,
        digit(i, 2),
        64,
    )
}

/// RCAxyz of codon `i` in units of `SCALE`: its preference over the product of
/// its bases' positional frequencies, `f * T^3 / (r0 * r1 * r2)` with `T` the
/// table's mass; 0 when a base never occurs; absent when the codon is.
pub open spec fn rcaxyz_entry(p: Seq<Option<u64>>, i: int) -> Option<u128> {
    let t = mass(amounts(p), 64);
    if p[i] is None {
        None
    } else if base_product(p, i) == 0 {
        Some(0)
    } else {
        Some((amounts(p)[i] * (t * t * t) / base_product(p, i)) as u128)
    }
}

/// Per-codon RCAxyz values of one organism, indexed by codon ordinal.
pub struct RcaTable {
    values: Vec<Option<u128>>,
}

impl View for RcaTable {
    type V = Seq<Option<u128>>;

    closed spec fn view(&self) -> Seq<Option<u128>> {
        self.values@
    }
}

impl RcaTable {
    /// A table from values listed by codon ordinal.
    pub fn from_values(values: Vec<Option<u128>>) -> (r: RcaTable)
        ensures
            r@ == values@,
    {
        RcaTable { values }
    }

    /// The value of `codon`, if the table has one.
    pub fn get(&self, codon: Codon) -> (r: Option<u128>)
        requires
            self@.len() == 64,
        ensures
            r == self@[codon.index()],
    {
        proof {
            lemma_codon_at_index(codon);
        }
        self.values[codon.ordinal() as usize]
    }
}

proof fn lemma_base_sum_bounds(a: Seq<int>, pos: int, b: int, n: int)
    requires
        0 <= n <= a.len(),
        forall|k: int| 0 <= k < a.len() ==> 0 <= #[trigger] a[k] <= SCALE,
    ensures
        0 <= base_sum(a, pos, b, n) <= mass(a, n),
        mass(a, n) <= n * SCALE,
    decreases n,
{
    if n > 0 {
        lemma_base_sum_bounds(a, pos, b, n - 1);
    }
}

/// Computes the RCAxyz table of one organism's preferences.
pub fn compute_rca_xyz_table(codon_usage: &PreferenceTable) -> (r: RcaTable)
    requires
        codon_usage.is_fractional(),
    ensures
        r@.len() == 64,
        forall|i: int| 0 <= i < 64 ==> #[trigger] r@[i] == rcaxyz_entry(codon_usage@, i),
{
    let ghost p = codon_usage@;
    let ghost a = amounts(p);
    assert forall|k: int| 0 <= k < 64 implies 0 <= #[trigger] a[k] <= SCALE by {
        assert(codon_usage.is_fractional());
    }
    // masses of each base at each position, and the table's whole mass
    let mut sums: Vec<u64> = Vec::new();
    let mut cell: usize = 0;
    while cell < 12
        invariant
            codon_usage.is_fractional(),
            p == codon_usage@,
            a == amounts(p),
            forall|k: int| 0 <= k < 64 ==> 0 <= #[trigger] a[k] <= SCALE,
            cell <= 12,
            sums@.len() == cell,
            forall|c: int| 0 <= c < cell ==> #[trigger] sums@[c] == base_sum(a, c / 4, c % 4, 64),
        decreases 12 - cell,
    {
        let pos = cell / 4;
        let b = cell % 4;
        let mut acc: u64 = 0;
        let mut i: usize = 0;
        while i < 64
            invariant
                codon_usage.is_fractional(),
                p == codon_usage@,
                a == amounts(p),
                forall|k: int| 0 <= k < 64 ==> 0 <= #[trigger] a[k] <= SCALE,
                cell < 12,
                pos == cell / 4,
                b == cell % 4,
                i <= 64,
                acc == base_sum(a, pos as int, b as int, i as int),
            decreases 64 - i,
        {
            proof {
                lemma_base_sum_bounds(a, pos as int, b as int, i as int);
            }
            let d = if pos == 0 {
                i / 16
            } else if pos == 1 {
                (i / 4) % 4
            } else {
                i % 4
            };
            if d == b {
                let v: u64 = match codon_usage.get_at(i) {
                    Some(v) => v,
                    None => 0,
                };
                acc = acc + v;
            }
            i = i + 1;
        }
        sums.push(acc);
        cell = cell + 1;
    }
    let mut total: u64 = 0;
    let mut i: usize = 0;
    while i < 64
        invariant
            codon_usage.is_fractional(),
            p == codon_usage@,
            a == amounts(p),
            forall|k: int| 0 <= k < 64 ==> 0 <= #[trigger] a[k] <= SCALE,
            i <= 64,
            total == mass(a, i as int),
        decreases 64 - i,
    {
        proof {
            lemma_base_sum_bounds(a, 0, 0, i as int);
        }
        let v: u64 = match codon_usage.get_at(i) {
            Some(v) => v,
            None => 0,
        };
        total = total + v;
        i = i + 1;
    }
    proof {
        lemma_base_sum_bounds(a, 0, 0, 64);
    }
    let t = total as u128;
    proof {
        assert(t * t <= (64 * SCALE) * (64 * SCALE)) by (nonlinear_arith)
            requires
                0 <= t <= 64 * SCALE,
        ;
        assert(t * t * t <= (64 * SCALE) * (64 * SCALE) * (64 * SCALE)) by (nonlinear_arith)
            requires
                0 <= t <= 64 * SCALE,
        ;
        assert(SCALE * ((64 * SCALE) * (64 * SCALE) * (64 * SCALE)) < 0x1_0000_0000_0000_0000_0000_0000_0000_0000) by (nonlinear_arith);
    }
    let cube = t * t * t;
    // the ratio for each codon
    let mut values: Vec<Option<u128>> = Vec::new();
    let mut i: usize = 0;
    while i < 64
        invariant
            codon_usage.is_fractional(),
            p == codon_usage@,
            a == amounts(p),
            forall|k: int| 0 <= k < 64 ==> 0 <= #[trigger] a[k] <= SCALE,
            sums@.len() == 12,
            forall|c: int| 0 <= c < 12 ==> #[trigger] sums@[c] == base_sum(a, c / 4, c % 4, 64),
            t == mass(a, 64),
            t <= 64 * SCALE,
            cube == t * t * t,
            t * t <= (64 * SCALE) * (64 * SCALE),
            cube <= (64 * SCALE) * (64 * SCALE) * (64 * SCALE),
            SCALE * ((64 * SCALE) * (64 * SCALE) * (64 * SCALE)) < 0x1_0000_0000_0000_0000_0000_0000_0000_0000,
            i <= 64,
            values@.len() == i,
            forall|k: int| 0 <= k < i ==> #[trigger] values@[k] == rcaxyz_entry(p, k),
        decreases 64 - i,
    {
        let entry = match codon_usage.get_at(i) {
            None => None,
            Some(f) => {
                let r0 = sums[i / 16] as u128;
                let r1 = sums[4 + (i / 4) % 4] as u128;
                let r2 = sums[8 + i % 4] as u128;
                proof {
                    lemma_base_sum_bounds(a, 0, digit(i as int, 0), 64);
                    lemma_base_sum_bounds(a, 1, digit(i as int, 1), 64);
                    lemma_base_sum_bounds(a, 2, digit(i as int, 2), 64);
                    assert(r0 == base_sum(a, 0, digit(i as int, 0), 64));
                    assert(r1 == base_sum(a, 1, digit(i as int, 1), 64));
                    assert(r2 == base_sum(a, 2, digit(i as int, 2), 64));
                    assert(r0 * r1 <= t * t) by (nonlinear_arith)
                        requires
                            0 <= r0 <= t,
                            0 <= r1 <= t,
                    ;
                    assert(r0 * r1 <= 0x1_0000_0000_0000_0000_0000) by (nonlinear_arith)
                        requires
                            r0 * r1 <= t * t,
                            t * t <= (64 * SCALE) * (64 * SCALE),
                    ;
                    assert(r0 * r1 * r2 <= t * t * t) by (nonlinear_arith)
                        requires
                            0 <= r0 * r1 <= t * t,
                            0 <= r2 <= t,
                    ;
                    assert(t * t * t <= (64 * SCALE) * (64 * SCALE) * (64 * SCALE)) by (nonlinear_arith)
                        requires
                            0 <= t <= 64 * SCALE,
                    ;
                    assert(f * (t * t * t) <= SCALE * ((64 * SCALE) * (64 * SCALE) * (64 * SCALE))) by (nonlinear_arith)
                        requires
                            0 <= f <= SCALE,
                            0 <= t * t * t <= (64 * SCALE) * (64 * SCALE) * (64 * SCALE),
                    ;
                    assert(f as int == a[i as int]);
                }
                let r01 = r0 * r1;
                let den = r01 * r2;
                if den == 0 {
                    Some(0)
                } else {
                    Some((f as u128) * cube / den)
                }
            },
        };
        values.push(entry);
        i = i + 1;
    }
    RcaTable { values }
}

/// The codons of a DNA sequence whose triplets all decode.
pub open spec fn codons_of(dna: Seq<char>) -> Seq<Codon> {
    Seq::new((dna.len() / 3) as nat, |k: int| decode_codon(triplet(dna, k))->0)
}

/// The table values of those codons that the table has, in sequence order.
pub open spec fn rca_factors(cs: Seq<Codon>, t: Seq<Option<u128>>) -> Seq<u128>
    decreases cs.len(),
{
    if cs.len() == 0 {
        Seq::empty()
    } else {
        let rest = rca_factors(cs.drop_last(), t);
        let e = t[cs.last().index()];
        if e is Some {
            rest.push(e->0)
        } else {
            rest
        }
    }
}

/// The terms of a sequence's RCA: the RCAxyz values of its codons that the
/// table has, and the number of codons. The RCA is the `n`-th root of the
/// factors' product, with each factor read as a fraction of `SCALE`; a table
/// that has none of the codons gives an RCA of 0.
pub fn compute_rca_terms(dna: &str, rca_xyz_table: &RcaTable) -> (r: Result<(Vec<u128>, usize), CoreError>)
    requires
        rca_xyz_table@.len() == 64,
    ensures
        dna@.len() % 3 != 0 ==> r == Err::<(Vec<u128>, usize), CoreError>(
            CoreError::NotDivisibleByThree,
        ),
        dna@.len() % 3 == 0 && !all_triplets_decode(dna@) ==> r == Err::<
            (Vec<u128>, usize),
            CoreError,
        >(CoreError::InvalidCodon),
        dna@.len() % 3 == 0 && all_triplets_decode(dna@) ==> r is Ok && r->Ok_0.0@ == rca_factors(
            codons_of(dna@),
            rca_xyz_table@,
        ) && r->Ok_0.1 == dna@.len() / 3,
{
    let chars = chars_of(dna);
    if chars.len() % 3 != 0 {
        return Err(CoreError::NotDivisibleByThree);
    }
    let n = chars.len() / 3;
    let mut factors: Vec<u128> = Vec::new();
    let mut k: usize = 0;
    while k < n
        invariant
            rca_xyz_table@.len() == 64,
            chars@ == dna@,
            chars@.len() == 3 * n,
            chars@.len() <= usize::MAX,
            k <= n,
            forall|j: int| 0 <= j < k ==> (#[trigger] decode_codon(triplet(dna@, j))) is Some,
            factors@ == rca_factors(codons_of(dna@).subrange(0, k as int), rca_xyz_table@),
        decreases n - k,
    {
        assert(3 * k + 2 < 3 * n) by (nonlinear_arith)
            requires
                k < n,
        ;
        let a = chars[3 * k];
        let b = chars[3 * k + 1];
        let c = chars[3 * k + 2];
        assert(triplet(dna@, k as int) =~= seq![a, b, c]);
        match Codon::from_letters(a, b, c) {
            Some(codon) => {
                let ghost before = codons_of(dna@).subrange(0, k as int);
                let ghost after = codons_of(dna@).subrange(0, k + 1);
                assert(after.drop_last() =~= before);
                if let Some(v) = rca_xyz_table.get(codon) {
                    factors.push(v);
                }
            },
            None => {
                return Err(CoreError::InvalidCodon);
            },
        }
        k = k + 1;
    }
    assert(codons_of(dna@).subrange(0, n as int) =~= codons_of(dna@));
    Ok((factors, n))
}

/// When the table has every codon of a sequence, there is one factor per codon.
pub proof fn lemma_all_codons_present(cs: Seq<Codon>, t: Seq<Option<u128>>)
    requires
        t.len() == 64,
        forall|k: int| 0 <= k < cs.len() ==> (#[trigger] t[cs[k].index()]) is Some,
    ensures
        rca_factors(cs, t).len() == cs.len(),
    decreases cs.len(),
{
    if cs.len() > 0 {
        let init = cs.drop_last();
        assert forall|k: int| 0 <= k < init.len() implies (#[trigger] t[init[k].index()]) is Some by {
            assert(init[k] == cs[k]);
        }
        lemma_all_codons_present(init, t);
        assert(t[cs[cs.len() - 1].index()] is Some);
    }
}

} // verus!
