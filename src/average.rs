use vstd::prelude::*;

use crate::error::CoreError;
use crate::refine::{all_fractional, entry_amount, table_views, MAX_ORGANISMS};
use crate::table::{normalize_rows, normalized_entry, PreferenceTable, MAX_AMOUNT, SCALE};

verus! {

/// `sum_{o < m} ws[o] * vs[o][i]`, absent entries counting 0.
pub open spec fn weighted_sum(vs: Seq<Seq<Option<u64>>>, ws: Seq<u64>, i: int, m: int) -> int
    decreases m,
{
    if m <= 0 {
        0
    } else {
        weighted_sum(vs, ws, i, m - 1) + ws[m - 1] * entry_amount(vs[m - 1][i])
    }
}

/// Some organism offers codon `i`.
pub open spec fn offered_by_some(vs: Seq<Seq<Option<u64>>>, i: int) -> bool {
    exists|o: int| 0 <= o < vs.len() && (#[trigger] vs[o][i]) is Some
}

/// The weighted sums of all organisms' preferences, codon by codon; a codon
/// that no organism offers stays absent.
pub open spec fn merged_amounts(vs: Seq<Seq<Option<u64>>>, ws: Seq<u64>) -> Seq<Option<u128>> {
    Seq::new(
        64,
        |i: int|
            if offered_by_some(vs, i) {
                Some(weighted_sum(vs, ws, i, vs.len() as int) as u128)
            } else {
                None
            },
    )
}

/// `targets[m]` is a least target.
pub open spec fn is_least_target(targets: Seq<u8>, m: int) -> bool {
    &&& 0 <= m < targets.len()
    &&& forall|o: int| 0 <= o < targets.len() ==> targets[m] <= #[trigger] targets[o]
}

/// The least target.
pub open spec fn least_target(targets: Seq<u8>) -> int {
    targets[choose|m: int| is_least_target(targets, m)] as int
}

/// Each target over the least target, in units of `SCALE`, rounded down.
pub open spec fn expression_weights(targets: Seq<u8>) -> Seq<u64> {
    Seq::new(
        targets.len(),
        |o: int| (targets[o] as int * SCALE / least_target(targets)) as u64,
    )
}

/// Weights for organisms that count equally: each is 1 (`SCALE`).
pub fn equal_weights(n: usize) -> (r: Vec<u64>)
    ensures
        r@.len() == n,
        forall|o: int| 0 <= o < n ==> #[trigger] r@[o] == SCALE,
{
    let mut r: Vec<u64> = Vec::new();
    let mut o: usize = 0;
    while o < n
        invariant
            o <= n,
            r@.len() == o,
            forall|k: int| 0 <= k < o ==> #[trigger] r@[k] == SCALE,
        decreases n - o,
    {
        r.push(SCALE);
        o = o + 1;
    }
    r
}

/// Weights from target expression levels: each organism's share of the
/// total, scaled so that the least weight is 1 (`SCALE`), rounding down.
/// Fails with `InvalidWeights` when there is no target or one is 0.
pub fn weights_from_expression(targets: &Vec<u8>) -> (r: Result<Vec<u64>, CoreError>)
    ensures
        (targets@.len() == 0 || exists|o: int| 0 <= o < targets@.len() && targets@[o] == 0)
            ==> r == Err::<Vec<u64>, CoreError>(CoreError::InvalidWeights),
        (targets@.len() > 0 && forall|o: int| 0 <= o < targets@.len() ==> targets@[o] > 0) ==> {
            &&& r is Ok
            &&& r->Ok_0@ == expression_weights(targets@)
            &&& forall|o: int| 0 <= o < targets@.len() ==> #[trigger] r->Ok_0@[o] >= SCALE
        },
{
    if targets.len() == 0 {
        return Err(CoreError::InvalidWeights);
    }
    let mut least: usize = 0;
    let mut o: usize = 0;
    while o < targets.len()
        invariant
            targets@.len() > 0,
            least < targets@.len(),
            o <= targets@.len(),
            forall|k: int| 0 <= k < o ==> targets@[least as int] <= #[trigger] targets@[k],
            forall|k: int| 0 <= k < o ==> #[trigger] targets@[k] > 0,
        decreases targets@.len() - o,
    {
        if targets[o] == 0 {
            return Err(CoreError::InvalidWeights);
        }
        if targets[o] < targets[least] {
            least = o;
        }
        o = o + 1;
    }
    let min = targets[least] as u64;
    let mut r: Vec<u64> = Vec::new();
    let mut o: usize = 0;
    while o < targets.len()
        invariant
            least < targets@.len(),
            min == targets@[least as int],
            min > 0,
            o <= targets@.len(),
            r@.len() == o,
            forall|k: int| 0 <= k < targets@.len() ==> targets@[least as int] <= #[trigger] targets@[k],
            forall|k: int| 0 <= k < o ==> #[trigger] r@[k] == targets@[k] as int * SCALE / (targets@[least as int] as int),
            forall|k: int| 0 <= k < o ==> #[trigger] r@[k] >= SCALE,
        decreases targets@.len() - o,
    {
        proof {
            lemma_ratio_at_least_scale(targets@[o as int] as int, min as int);
        }
        r.push((targets[o] as u64) * SCALE / min);
        o = o + 1;
    }
    proof {
        assert(is_least_target(targets@, least as int));
        let m = choose|m: int| is_least_target(targets@, m);
        assert(targets@[m] <= targets@[least as int]);
        assert(targets@[least as int] <= targets@[m]);
        assert(r@ =~= expression_weights(targets@));
    }
    Ok(r)
}

/// A target over the least target is at least 1.
proof fn lemma_ratio_at_least_scale(x: int, m: int)
    requires
        0 < m <= x,
    ensures
        x * SCALE / m >= SCALE,
{
    assert(m * SCALE <= x * SCALE) by (nonlinear_arith)
        requires
            0 < m <= x,
    ;
    vstd::arithmetic::div_mod::lemma_div_is_ordered(m * SCALE, x * SCALE, m);
    vstd::arithmetic::div_mod::lemma_div_by_multiple(SCALE as int, m);
    assert(m * SCALE == SCALE * m) by (nonlinear_arith);
}

/// One organism's contribution `w * p`, with its bound.
proof fn lemma_term_bound(w: u64, p: int)
    requires
        0 <= p <= SCALE,
    ensures
        0 <= w * p <= 0x1_0000_0000_0000_0000 * SCALE,
{
    assert(0 <= w * p <= 0x1_0000_0000_0000_0000 * SCALE) by (nonlinear_arith)
        requires
            0 <= p <= SCALE,
            0 <= w < 0x1_0000_0000_0000_0000,
    ;
}

/// Averages the organisms' tables with the given weights (fractions of `SCALE`,
/// one per table and each positive): each codon's weighted sum of preferences,
/// then each row rescaled to sum to 1.
pub fn build_averaged_table(usage_data: &Vec<PreferenceTable>, weights: &Vec<u64>) -> (r: Result<
    PreferenceTable,
    CoreError,
>)
    requires
        all_fractional(usage_data@),
        usage_data@.len() <= MAX_ORGANISMS,
    ensures
        (weights@.len() != usage_data@.len() || exists|o: int|
            0 <= o < weights@.len() && weights@[o] == 0) ==> r == Err::<PreferenceTable, CoreError>(
            CoreError::InvalidWeights,
        ),
        (weights@.len() == usage_data@.len() && forall|o: int|
            0 <= o < weights@.len() ==> weights@[o] > 0) ==> {
            &&& r is Ok
            &&& r->Ok_0.is_fractional()
            &&& forall|i: int|
                0 <= i < 64 ==> #[trigger] r->Ok_0@[i] == normalized_entry(
                    merged_amounts(table_views(usage_data@), weights@),
                    i,
                )
        },
{
    if weights.len() != usage_data.len() {
        return Err(CoreError::InvalidWeights);
    }
    let mut o: usize = 0;
    while o < weights.len()
        invariant
            o <= weights@.len(),
            forall|k: int| 0 <= k < o ==> #[trigger] weights@[k] > 0,
        decreases weights@.len() - o,
    {
        if weights[o] == 0 {
            return Err(CoreError::InvalidWeights);
        }
        o = o + 1;
    }
    let ghost vs = table_views(usage_data@);
    let n = usage_data.len();
    let mut merged: Vec<Option<u128>> = Vec::new();
    let mut i: usize = 0;
    while i < 64
        invariant
            all_fractional(usage_data@),
            vs == table_views(usage_data@),
            n == usage_data@.len(),
            n == weights@.len(),
            n <= MAX_ORGANISMS,
            i <= 64,
            merged@ == merged_amounts(vs, weights@).subrange(0, i as int),
            forall|k: int| 0 <= k < i && (#[trigger] merged@[k]) is Some ==> merged@[k]->0 <= MAX_AMOUNT,
        decreases 64 - i,
    {
        let mut acc: u128 = 0;
        let mut offered = false;
        let mut o: usize = 0;
        while o < n
            invariant
                all_fractional(usage_data@),
                vs == table_views(usage_data@),
                n == usage_data@.len(),
                n == weights@.len(),
                n <= MAX_ORGANISMS,
                i < 64,
                o <= n,
                acc == weighted_sum(vs, weights@, i as int, o as int),
                acc <= o * (0x1_0000_0000_0000_0000 * SCALE),
                offered == exists|k: int| 0 <= k < o && (#[trigger] vs[k][i as int]) is Some,
            decreases n - o,
        {
            assert(usage_data@[o as int].is_fractional());
            let e = usage_data[o].get_at(i);
            assert(e == vs[o as int][i as int]);
            let v: u64 = match e {
                Some(v) => v,
                None => 0,
            };
            proof {
                lemma_term_bound(weights@[o as int], v as int);
                assert(o * (0x1_0000_0000_0000_0000 * SCALE) + 0x1_0000_0000_0000_0000 * SCALE == (o
                    + 1) * (0x1_0000_0000_0000_0000 * SCALE)) by (nonlinear_arith);
                assert((o + 1) * (0x1_0000_0000_0000_0000 * SCALE) <= 256 * (
                0x1_0000_0000_0000_0000 * SCALE)) by (nonlinear_arith)
                    requires
                        o < 256,
                ;
            }
            acc = acc + (weights[o] as u128) * (v as u128);
            if e.is_some() {
                offered = true;
            }
            o = o + 1;
        }
        proof {
            assert(n * (0x1_0000_0000_0000_0000 * SCALE) <= MAX_AMOUNT) by (nonlinear_arith)
                requires
                    n <= 256,
            ;
        }
        merged.push(if offered { Some(acc) } else { None });
        proof {
            assert(merged@ =~= merged_amounts(vs, weights@).subrange(0, i + 1));
        }
        i = i + 1;
    }
    proof {
        assert(merged@ =~= merged_amounts(vs, weights@));
    }
    Ok(normalize_rows(&merged))
}

} // verus!
