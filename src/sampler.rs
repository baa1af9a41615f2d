use vstd::prelude::*;

use crate::codon::{amino_of, codon_at, lemma_codon_at_index, Codon};
use crate::error::CoreError;
use crate::genetic_code::amino_at;
use crate::rng::{chacha8_draws, uniform_draws};
use crate::sequence::protein_of;
use crate::table::{amounts, row_sum, PreferenceTable, SCALE};

verus! {

/// The preference mass of the codons of `aa` with ordinal below `n`: the
/// lower end of codon `n`'s sampling interval.
pub open spec fn cumulative(p: Seq<Option<u64>>, aa: char, n: int) -> int {
    row_sum(amounts(p), aa, n)
}

/// No codon of `aa` after ordinal `i` has a positive preference.
pub open spec fn is_last_offered(p: Seq<Option<u64>>, aa: char, i: int) -> bool {
    forall|j: int| i < j < 64 && amino_at(j) == aa ==> #[trigger] amounts(p)[j] == 0
}

/// Codon `i` is the one that `draw` selects for `aa`: the draw lies in its
/// interval `[cumulative, cumulative + preference)`, or beyond the last interval.
pub open spec fn picks(p: Seq<Option<u64>>, aa: char, draw: int, i: int) -> bool {
    &&& 0 <= i < 64
    &&& amino_at(i) == aa
    &&& amounts(p)[i] > 0
    &&& cumulative(p, aa, i) <= draw
    &&& (draw < cumulative(p, aa, i) + amounts(p)[i] || is_last_offered(p, aa, i))
}

/// Some codon of `aa` has a positive preference.
pub open spec fn row_available(p: Seq<Option<u64>>, aa: char) -> bool {
    exists|i: int| 0 <= i < 64 && amino_at(i) == aa && #[trigger] amounts(p)[i] > 0
}

/// The codon that `draw` selects for `aa`.
pub open spec fn pick(p: Seq<Option<u64>>, aa: char, draw: int) -> Codon {
    codon_at(choose|i: int| picks(p, aa, draw, i))
}

/// The codons drawn for a protein from the seeded stream, one draw per residue.
pub open spec fn sampled(p: Seq<Option<u64>>, protein: Seq<char>, seed: u64) -> Seq<Codon> {
    Seq::new(
        protein.len(),
        |k: int| pick(p, protein[k], chacha8_draws(seed, protein.len(), SCALE)[k] as int),
    )
}

/// The first residue of `protein` that has no codon to draw, if any.
pub open spec fn first_unavailable(p: Seq<Option<u64>>, protein: Seq<char>, k: int) -> bool {
    &&& 0 <= k < protein.len()
    &&& !row_available(p, protein[k])
    &&& forall|j: int| 0 <= j < k ==> row_available(p, #[trigger] protein[j])
}

/// There is at most one first residue without a codon.
pub proof fn lemma_first_unavailable_unique(p: Seq<Option<u64>>, protein: Seq<char>, j: int, k: int)
    requires
        first_unavailable(p, protein, j),
        first_unavailable(p, protein, k),
    ensures
        j == k,
{
    if j < k {
        assert(row_available(p, protein[j]));
    } else if k < j {
        assert(row_available(p, protein[k]));
    }
}

proof fn lemma_cumulative_monotone(p: Seq<Option<u64>>, aa: char, i: int, j: int)
    requires
        p.len() == 64,
        0 <= i <= j <= 64,
    ensures
        cumulative(p, aa, i) <= cumulative(p, aa, j),
    decreases j - i,
{
    if i < j {
        lemma_cumulative_monotone(p, aa, i, j - 1);
        assert(amounts(p)[j - 1] >= 0);
    }
}

/// At most one codon is selected by a draw.
pub proof fn lemma_picks_unique(p: Seq<Option<u64>>, aa: char, draw: int, i: int, j: int)
    requires
        p.len() == 64,
        picks(p, aa, draw, i),
        picks(p, aa, draw, j),
    ensures
        i == j,
{
    if i < j {
        lemma_cumulative_monotone(p, aa, i + 1, j);
        assert(amounts(p)[j] > 0);
    } else if j < i {
        lemma_cumulative_monotone(p, aa, j + 1, i);
        assert(amounts(p)[i] > 0);
    }
}

/// Selects the codon for `aa` whose sampling interval holds `draw`. The
/// intervals follow the codons in lexicographic order, each as wide as the
/// codon's preference; the last one reaches past any rounding shortfall.
pub fn sample_codon(table: &PreferenceTable, aa: char, draw: u64) -> (r: Result<Codon, CoreError>)
    requires
        table.is_fractional(),
    ensures
        row_available(table@, aa) ==> r is Ok && r->Ok_0 == pick(table@, aa, draw as int)
            && picks(table@, aa, draw as int, r->Ok_0.index()),
        !row_available(table@, aa) ==> r == Err::<Codon, CoreError>(
            CoreError::UnavailableResidue(aa),
        ),
{
    let ghost p = table@;
    let mut acc: u64 = 0;
    let mut last: Option<u8> = None;
    let mut i: u8 = 0;
    while i < 64
        invariant
            table.is_fractional(),
            p == table@,
            i <= 64,
            acc == cumulative(p, aa, i as int),
            acc <= i * SCALE,
            acc <= draw,
            match last {
                Some(l) => {
                    &&& l < i
                    &&& amino_at(l as int) == aa
                    &&& amounts(p)[l as int] > 0
                    &&& cumulative(p, aa, l as int) + amounts(p)[l as int] <= draw
                    &&& forall|j: int| l < j < i && amino_at(j) == aa ==> #[trigger] amounts(p)[j] == 0
                },
                None => forall|j: int| 0 <= j < i && amino_at(j) == aa ==> #[trigger] amounts(p)[j] == 0,
            },
        decreases 64 - i,
    {
        let c = Codon::from_ordinal(i);
        if c.translate() == aa {
            let v: u64 = match table.get_at(i as usize) {
                Some(v) => v,
                None => 0,
            };
            assert(v as int == amounts(p)[i as int]);
            if v > 0 {
                if draw < acc + v {
                    proof {
                        if last is None {
                            assert(!row_available(p, aa) ==> false);
                        }
                        assert(picks(p, aa, draw as int, i as int));
                        lemma_pick_is(p, aa, draw as int, i as int);
                    }
                    return Ok(c);
                }
                last = Some(i);
            }
            acc = acc + v;
        }
        i = i + 1;
    }
    match last {
        Some(l) => {
            proof {
                lemma_cumulative_monotone(p, aa, 0, l as int);
                assert(picks(p, aa, draw as int, l as int));
                lemma_pick_is(p, aa, draw as int, l as int);
            }
            Ok(Codon::from_ordinal(l))
        },
        None => {
            assert(!row_available(p, aa));
            Err(CoreError::UnavailableResidue(aa))
        },
    }
}

/// The codons of `aa` among the first `n` ordinals with a positive preference,
/// in lexicographic order.
pub open spec fn offered(p: Seq<Option<u64>>, aa: char, n: int) -> Seq<Codon>
    decreases n,
{
    if n <= 0 {
        Seq::empty()
    } else if amino_at(n - 1) == aa && amounts(p)[n - 1] > 0 {
        offered(p, aa, n - 1).push(codon_at(n - 1))
    } else {
        offered(p, aa, n - 1)
    }
}

/// The sampling interval `[lo, hi)` of an offered codon: `lo` is the mass of
/// the codons before it and `hi` adds its own preference, except that the last
/// interval reaches up to `SCALE`.
pub open spec fn interval_of(p: Seq<Option<u64>>, aa: char, c: Codon, last: bool) -> (Codon, u64, u64) {
    let lo = cumulative(p, aa, c.index());
    let hi = lo + amounts(p)[c.index()];
    (c, lo as u64, if last && hi < SCALE { SCALE } else { hi as u64 })
}

/// The cumulative interval table of `aa`: one half-open interval per offered
/// codon, contiguous, in lexicographic order, the last one reaching `SCALE`.
pub fn build_intervals(table: &PreferenceTable, aa: char) -> (r: Vec<(Codon, u64, u64)>)
    requires
        table.is_fractional(),
    ensures
        r@.len() == offered(table@, aa, 64).len(),
        forall|k: int|
            0 <= k < r@.len() ==> #[trigger] r@[k] == interval_of(
                table@,
                aa,
                offered(table@, aa, 64)[k],
                k == r@.len() - 1,
            ),
{
    let ghost p = table@;
    let mut r: Vec<(Codon, u64, u64)> = Vec::new();
    let mut acc: u64 = 0;
    let mut i: u8 = 0;
    while i < 64
        invariant
            table.is_fractional(),
            p == table@,
            i <= 64,
            acc == cumulative(p, aa, i as int),
            acc <= i * SCALE,
            r@.len() == offered(p, aa, i as int).len(),
            forall|k: int|
                0 <= k < r@.len() ==> #[trigger] r@[k] == interval_of(
                    p,
                    aa,
                    offered(p, aa, i as int)[k],
                    false,
                ),
            forall|k: int|
                0 <= k < r@.len() ==> (#[trigger] offered(p, aa, i as int)[k]).index() < i,
            forall|k: int|
                0 <= k < r@.len() ==> (#[trigger] r@[k]).2 as int == cumulative(
                    p,
                    aa,
                    offered(p, aa, i as int)[k].index(),
                ) + amounts(p)[offered(p, aa, i as int)[k].index()],
        decreases 64 - i,
    {
        let c = Codon::from_ordinal(i);
        let v: u64 = match table.get_at(i as usize) {
            Some(v) => v,
            None => 0,
        };
        assert(v as int == amounts(p)[i as int]);
        assert(v <= SCALE);
        if c.translate() == aa {
            if v > 0 {
                r.push((c, acc, acc + v));
                proof {
                    crate::codon::lemma_codon_at_index(c);
                    assert forall|k: int| 0 <= k < r@.len() implies #[trigger] r@[k]
                        == interval_of(p, aa, offered(p, aa, i + 1)[k], false) && r@[k].2 as int
                        == cumulative(p, aa, offered(p, aa, i + 1)[k].index()) + amounts(p)[offered(
                        p,
                        aa,
                        i + 1,
                    )[k].index()] by {
                        if k < r@.len() - 1 {
                            assert(offered(p, aa, i + 1)[k] == offered(p, aa, i as int)[k]);
                        }
                    }
                }
            }
            acc = acc + v;
        }
        proof {
            crate::codon::lemma_codon_at_index(c);
            assert forall|k: int| 0 <= k < r@.len() implies (#[trigger] offered(
                p,
                aa,
                i + 1,
            )[k]).index() < i + 1 by {
                if k < offered(p, aa, i as int).len() {
                    assert(offered(p, aa, i + 1)[k] == offered(p, aa, i as int)[k]);
                }
            }
        }
        i = i + 1;
    }
    let ghost open_ended = r@;
    let n = r.len();
    if n > 0 {
        let (c, lo, hi) = r[n - 1];
        if hi < SCALE {
            r.set(n - 1, (c, lo, SCALE));
        }
    }
    proof {
        let offs = offered(p, aa, 64);
        assert forall|k: int| 0 <= k < r@.len() implies #[trigger] r@[k] == interval_of(
            p,
            aa,
            offs[k],
            k == r@.len() - 1,
        ) by {
            assert(open_ended[k] == interval_of(p, aa, offs[k], false));
            assert(open_ended[k].2 as int == cumulative(p, aa, offs[k].index()) + amounts(p)[offs[k].index()]);
            if k < r@.len() - 1 {
                assert(r@[k] == open_ended[k]);
            }
        }
    }
    r
}

/// Selects a codon for `residue` with one draw from a ChaCha8 stream seeded with `seed`.
pub fn select_random_codon_from_usage_table(residue: char, usage_data: &PreferenceTable, seed: u64) -> (r:
    Result<Codon, CoreError>)
    requires
        usage_data.is_fractional(),
    ensures
        row_available(usage_data@, residue) ==> r == Ok::<Codon, CoreError>(
            pick(usage_data@, residue, chacha8_draws(seed, 1, SCALE)[0] as int),
        ),
        !row_available(usage_data@, residue) ==> r == Err::<Codon, CoreError>(
            CoreError::UnavailableResidue(residue),
        ),
{
    let draws = uniform_draws(seed, 1, SCALE);
    sample_codon(usage_data, residue, draws[0])
}

/// Whether some codon of `aa` has a positive preference.
pub fn row_is_available(table: &PreferenceTable, aa: char) -> (r: bool)
    requires
        table.well_formed(),
    ensures
        r == row_available(table@, aa),
{
    let mut i: u8 = 0;
    while i < 64
        invariant
            table.well_formed(),
            i <= 64,
            forall|j: int| 0 <= j < i && amino_at(j) == aa ==> !(#[trigger] amounts(table@)[j] > 0),
        decreases 64 - i,
    {
        if Codon::from_ordinal(i).translate() == aa {
            if let Some(v) = table.get_at(i as usize) {
                if v > 0 {
                    assert(amounts(table@)[i as int] > 0);
                    return true;
                }
            }
        }
        i = i + 1;
    }
    false
}

proof fn lemma_pick_is(p: Seq<Option<u64>>, aa: char, draw: int, i: int)
    requires
        p.len() == 64,
        picks(p, aa, draw, i),
    ensures
        pick(p, aa, draw) == codon_at(i),
        row_available(p, aa),
{
    let k = choose|k: int| picks(p, aa, draw, k);
    lemma_picks_unique(p, aa, draw, i, k);
}

/// Draws one codon per residue of `protein` from a ChaCha8 stream seeded with
/// `seed`; fails on the first residue that has no codon to draw.
pub fn sample_sequence(protein: &Vec<char>, table: &PreferenceTable, seed: u64) -> (r: Result<
    Vec<Codon>,
    CoreError,
>)
    requires
        table.is_fractional(),
    ensures
        (forall|k: int| 0 <= k < protein@.len() ==> row_available(table@, #[trigger] protein@[k]))
            ==> r is Ok && r->Ok_0@ == sampled(table@, protein@, seed),
        r is Ok ==> protein_of(r->Ok_0@) == protein@ && forall|k: int|
            0 <= k < protein@.len() ==> row_available(table@, #[trigger] protein@[k]),
        r is Err ==> exists|k: int|
            #[trigger] first_unavailable(table@, protein@, k) && r == Err::<Vec<Codon>, CoreError>(
                CoreError::UnavailableResidue(protein@[k]),
            ),
{
    let draws = uniform_draws(seed, protein.len(), SCALE);
    let ghost p = table@;
    let mut out: Vec<Codon> = Vec::new();
    let mut k: usize = 0;
    while k < protein.len()
        invariant
            table.is_fractional(),
            p == table@,
            draws@ == chacha8_draws(seed, protein@.len() as nat, SCALE),
            draws@.len() == protein@.len(),
            k <= protein@.len(),
            out@ == sampled(p, protein@, seed).subrange(0, k as int),
            forall|j: int| 0 <= j < k ==> row_available(p, #[trigger] protein@[j]),
            forall|j: int| 0 <= j < k ==> amino_of(#[trigger] out@[j]) == protein@[j],
        decreases protein@.len() - k,
    {
        match sample_codon(table, protein[k], draws[k]) {
            Ok(c) => {
                proof {
                    lemma_codon_at_index(c);
                }
                out.push(c);
                proof {
                    assert(out@ =~= sampled(p, protein@, seed).subrange(0, k + 1));
                }
            },
            Err(e) => {
                assert(first_unavailable(p, protein@, k as int));
                return Err(e);
            },
        }
        k = k + 1;
    }
    proof {
        assert(out@ =~= sampled(p, protein@, seed));
        assert(protein_of(out@) =~= protein@);
    }
    Ok(out)
}

} // verus!
