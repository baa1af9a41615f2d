use vstd::prelude::*;

use crate::codon::{codon_at, Codon};
use crate::error::CoreError;
use crate::genetic_code::amino_at;
use crate::table::{
    amounts, amounts_bounded, lemma_nonempty_row_total, normalize_rows, normalized_entry,
    row_nonempty, row_total, PreferenceTable, SCALE,
};

verus! {

/// The most organisms that one call may combine; it keeps every fixed-point
/// sum of the refinement and averaging steps within 128 bits.
pub const MAX_ORGANISMS: usize = 256;

/// The views of a list of tables.
pub open spec fn table_views(ts: Seq<PreferenceTable>) -> Seq<Seq<Option<u64>>> {
    ts.map_values(|t: PreferenceTable| t@)
}

/// The value of an entry, with an absent entry counted as 0.
pub open spec fn entry_amount(e: Option<u64>) -> int {
    if e is Some {
        e->0 as int
    } else {
        0
    }
}

/// Codon `i` is offered below the threshold by at least one organism.
pub open spec fn is_prohibited(vs: Seq<Seq<Option<u64>>>, tau: u64, i: int) -> bool {
    exists|o: int| 0 <= o < vs.len() && (#[trigger] vs[o][i]) is Some && vs[o][i]->0 < tau
}

/// Every codon of `aa` is prohibited.
pub open spec fn is_inaccessible(vs: Seq<Seq<Option<u64>>>, tau: u64, aa: char) -> bool {
    forall|j: int| 0 <= j < 64 && amino_at(j) == aa ==> #[trigger] is_prohibited(vs, tau, j)
}

/// The sum of codon `i`'s entries over the first `m` organisms.
pub open spec fn org_sum(vs: Seq<Seq<Option<u64>>>, i: int, m: int) -> int
    decreases m,
{
    if m <= 0 {
        0
    } else {
        org_sum(vs, i, m - 1) + entry_amount(vs[m - 1][i])
    }
}

/// The sum of the squares of codon `i`'s entries over the first `m` organisms.
pub open spec fn org_square_sum(vs: Seq<Seq<Option<u64>>>, i: int, m: int) -> int
    decreases m,
{
    if m <= 0 {
        0
    } else {
        org_square_sum(vs, i, m - 1) + entry_amount(vs[m - 1][i]) * entry_amount(vs[m - 1][i])
    }
}

/// The variance of codon `i`'s preferences across organisms, times the
/// square of the number of organisms: `n * sum(x^2) - sum(x)^2`.
pub open spec fn spread(vs: Seq<Seq<Option<u64>>>, i: int) -> int {
    vs.len() * org_square_sum(vs, i, vs.len() as int) - org_sum(vs, i, vs.len() as int) * org_sum(
        vs,
        i,
        vs.len() as int,
    )
}

/// Codon `i` is rescued: its amino acid is inaccessible, and its spread is
/// within the tolerance (a fraction of `SCALE`) of the least spread in the group.
pub open spec fn is_rescued(vs: Seq<Seq<Option<u64>>>, tau: u64, tol: u32, i: int) -> bool {
    &&& is_inaccessible(vs, tau, amino_at(i))
    &&& forall|j: int|
        0 <= j < 64 && amino_at(j) == amino_at(i) ==> SCALE * spread(vs, i) <= (SCALE + tol) * spread(
            vs,
            j,
        )
}

/// Codon `i` may stay in the tables.
pub open spec fn is_allowed(vs: Seq<Seq<Option<u64>>>, tau: u64, tol: u32, i: int) -> bool {
    !is_prohibited(vs, tau, i) || is_rescued(vs, tau, tol, i)
}

/// The entries of one table that stay, as raw amounts for renormalisation.
pub open spec fn kept_amounts(
    p: Seq<Option<u64>>,
    vs: Seq<Seq<Option<u64>>>,
    tau: u64,
    tol: u32,
) -> Seq<Option<u128>> {
    Seq::new(
        64,
        |i: int|
            if p[i] is Some && is_allowed(vs, tau, tol, i) {
                Some(p[i]->0 as u128)
            } else {
                None
            },
    )
}

/// Every table has one entry per codon, each a fraction of `SCALE`.
pub open spec fn all_fractional(ts: Seq<PreferenceTable>) -> bool {
    forall|o: int| 0 <= o < ts.len() ==> (#[trigger] ts[o]).is_fractional()
}

fn prohibited_flag(tables: &Vec<PreferenceTable>, tau: u64, i: usize) -> (r: bool)
    requires
        all_fractional(tables@),
        i < 64,
    ensures
        r == is_prohibited(table_views(tables@), tau, i as int),
{
    let ghost vs = table_views(tables@);
    let mut o: usize = 0;
    while o < tables.len()
        invariant
            all_fractional(tables@),
            vs == table_views(tables@),
            i < 64,
            o <= tables@.len(),
            forall|k: int| 0 <= k < o ==> !((#[trigger] vs[k][i as int]) is Some && vs[k][i as int]->0 < tau),
        decreases tables@.len() - o,
    {
        assert(tables@[o as int].is_fractional());
        match tables[o].get_at(i) {
            Some(v) => {
                if v < tau {
                    assert(vs[o as int][i as int] == Some(v));
                    return true;
                }
            },
            None => {},
        }
        o = o + 1;
    }
    false
}

/// The prohibited codons among the first `n` ordinals, in lexicographic order.
pub open spec fn prohibited_among(vs: Seq<Seq<Option<u64>>>, tau: u64, n: int) -> Seq<Codon>
    decreases n,
{
    if n <= 0 {
        Seq::empty()
    } else if is_prohibited(vs, tau, n - 1) {
        prohibited_among(vs, tau, n - 1).push(codon_at(n - 1))
    } else {
        prohibited_among(vs, tau, n - 1)
    }
}

/// The codons that at least one organism offers with a preference below
/// `threshold`, in lexicographic order.
pub fn find_prohibited_codons(usage_data: &Vec<PreferenceTable>, threshold: u64) -> (r: Vec<Codon>)
    requires
        all_fractional(usage_data@),
    ensures
        r@ == prohibited_among(table_views(usage_data@), threshold, 64),
{
    let mut r: Vec<Codon> = Vec::new();
    let mut i: u8 = 0;
    while i < 64
        invariant
            all_fractional(usage_data@),
            i <= 64,
            r@ == prohibited_among(table_views(usage_data@), threshold, i as int),
        decreases 64 - i,
    {
        if prohibited_flag(usage_data, threshold, i as usize) {
            r.push(Codon::from_ordinal(i));
        }
        i = i + 1;
    }
    r
}

/// The sum and the sum of squares of codon `i`'s entries over all organisms.
fn spread_parts(tables: &Vec<PreferenceTable>, i: usize) -> (r: (u128, u128))
    requires
        all_fractional(tables@),
        tables@.len() <= MAX_ORGANISMS,
        i < 64,
    ensures
        r.0 == org_sum(table_views(tables@), i as int, tables@.len() as int),
        r.1 == org_square_sum(table_views(tables@), i as int, tables@.len() as int),
        r.0 <= tables@.len() * SCALE,
        r.1 <= tables@.len() * (SCALE * SCALE),
{
    let ghost vs = table_views(tables@);
    let mut sum: u128 = 0;
    let mut squares: u128 = 0;
    let mut o: usize = 0;
    while o < tables.len()
        invariant
            all_fractional(tables@),
            vs == table_views(tables@),
            tables@.len() <= MAX_ORGANISMS,
            i < 64,
            o <= tables@.len(),
            sum == org_sum(vs, i as int, o as int),
            squares == org_square_sum(vs, i as int, o as int),
            sum <= o * SCALE,
            squares <= o * (SCALE * SCALE),
        decreases tables@.len() - o,
    {
        assert(tables@[o as int].is_fractional());
        let v: u64 = match tables[o].get_at(i) {
            Some(v) => v,
            None => 0,
        };
        assert(v as int == entry_amount(vs[o as int][i as int]));
        assert(v * v <= SCALE * SCALE) by (nonlinear_arith)
            requires
                v <= SCALE,
        ;
        assert(o * (SCALE * SCALE) + SCALE * SCALE == (o + 1) * (SCALE * SCALE)) by (nonlinear_arith);
        assert(o * SCALE + SCALE == (o + 1) * SCALE) by (nonlinear_arith);
        assert((o + 1) * (SCALE * SCALE) <= 256 * (SCALE * SCALE)) by (nonlinear_arith)
            requires
                o < 256,
        ;
        let vv = (v as u128) * (v as u128);
        sum = sum + v as u128;
        squares = squares + vv;
        o = o + 1;
    }
    (sum, squares)
}

/// Finds the codons that some organism uses less often than `prohibited_threshold`
/// (a fraction of `SCALE`, strictly between 0 and 1), keeps those of them that
/// rescue an amino acid all of whose codons are prohibited, drops the rest from
/// every table, and renormalises each table's rows.
pub fn remove_prohibited_codons(
    usage_data: &Vec<PreferenceTable>,
    prohibited_threshold: u64,
    variance_tolerance: u32,
) -> (r: Result<Vec<PreferenceTable>, CoreError>)
    requires
        all_fractional(usage_data@),
        usage_data@.len() <= MAX_ORGANISMS,
    ensures
        prohibited_threshold == 0 || prohibited_threshold >= SCALE ==> r == Err::<
            Vec<PreferenceTable>,
            CoreError,
        >(CoreError::InvalidThreshold),
        0 < prohibited_threshold < SCALE ==> r is Ok,
        r is Ok ==> {
            let out = r->Ok_0@;
            let vs = table_views(usage_data@);
            &&& out.len() == usage_data@.len()
            &&& all_fractional(out)
            &&& forall|o: int, i: int|
                0 <= o < out.len() && 0 <= i < 64 ==> #[trigger] out[o]@[i] == normalized_entry(
                    kept_amounts(vs[o], vs, prohibited_threshold, variance_tolerance),
                    i,
                )
        },
{
    if prohibited_threshold == 0 || prohibited_threshold >= SCALE {
        return Err(CoreError::InvalidThreshold);
    }
    let ghost vs = table_views(usage_data@);
    let tau = prohibited_threshold;
    let tol = variance_tolerance;
    let n = usage_data.len();
    // which codons some organism uses too rarely
    let mut prohibited: Vec<bool> = Vec::new();
    let mut sums: Vec<u128> = Vec::new();
    let mut squares: Vec<u128> = Vec::new();
    let mut i: usize = 0;
    while i < 64
        invariant
            all_fractional(usage_data@),
            usage_data@.len() <= MAX_ORGANISMS,
            vs == table_views(usage_data@),
            n == usage_data@.len(),
            i <= 64,
            prohibited@.len() == i,
            sums@.len() == i,
            squares@.len() == i,
            forall|k: int| 0 <= k < i ==> #[trigger] prohibited@[k] == is_prohibited(vs, tau, k),
            forall|k: int| 0 <= k < i ==> #[trigger] sums@[k] == org_sum(vs, k, n as int),
            forall|k: int| 0 <= k < i ==> #[trigger] squares@[k] == org_square_sum(vs, k, n as int),
            forall|k: int| 0 <= k < i ==> #[trigger] sums@[k] <= n * SCALE,
            forall|k: int| 0 <= k < i ==> #[trigger] squares@[k] <= n * (SCALE * SCALE),
        decreases 64 - i,
    {
        prohibited.push(prohibited_flag(usage_data, tau, i));
        let (s, q) = spread_parts(usage_data, i);
        sums.push(s);
        squares.push(q);
        i = i + 1;
    }
    // which codons stay: allowed ones, and rescued ones of inaccessible residues
    let mut allowed: Vec<bool> = Vec::new();
    let mut i: usize = 0;
    while i < 64
        invariant
            usage_data@.len() <= MAX_ORGANISMS,
            vs == table_views(usage_data@),
            n == usage_data@.len(),
            i <= 64,
            prohibited@.len() == 64,
            sums@.len() == 64,
            squares@.len() == 64,
            forall|k: int| 0 <= k < 64 ==> #[trigger] prohibited@[k] == is_prohibited(vs, tau, k),
            forall|k: int| 0 <= k < 64 ==> #[trigger] sums@[k] == org_sum(vs, k, n as int),
            forall|k: int| 0 <= k < 64 ==> #[trigger] squares@[k] == org_square_sum(vs, k, n as int),
            forall|k: int| 0 <= k < 64 ==> #[trigger] sums@[k] <= n * SCALE,
            forall|k: int| 0 <= k < 64 ==> #[trigger] squares@[k] <= n * (SCALE * SCALE),
            allowed@.len() == i,
            forall|k: int| 0 <= k < i ==> #[trigger] allowed@[k] == is_allowed(vs, tau, tol, k),
        decreases 64 - i,
    {
        let ok = if !prohibited[i] {
            true
        } else {
            let aa = Codon::from_ordinal(i as u8).translate();
            let mut inaccessible = true;
            let mut least = true;
            let mut j: usize = 0;
            while j < 64
                invariant
                    usage_data@.len() <= MAX_ORGANISMS,
                    vs == table_views(usage_data@),
                    n == usage_data@.len(),
                    i < 64,
                    j <= 64,
                    aa == amino_at(i as int),
                    prohibited@.len() == 64,
                    sums@.len() == 64,
                    squares@.len() == 64,
                    forall|k: int| 0 <= k < 64 ==> #[trigger] prohibited@[k] == is_prohibited(vs, tau, k),
                    forall|k: int| 0 <= k < 64 ==> #[trigger] sums@[k] == org_sum(vs, k, n as int),
                    forall|k: int|
                        0 <= k < 64 ==> #[trigger] squares@[k] == org_square_sum(vs, k, n as int),
                    forall|k: int| 0 <= k < 64 ==> #[trigger] sums@[k] <= n * SCALE,
                    forall|k: int| 0 <= k < 64 ==> #[trigger] squares@[k] <= n * (SCALE * SCALE),
                    inaccessible == forall|k: int|
                        0 <= k < j && amino_at(k) == aa ==> #[trigger] is_prohibited(vs, tau, k),
                    least == forall|k: int|
                        0 <= k < j && amino_at(k) == aa ==> SCALE * spread(vs, i as int) <= (SCALE
                            + tol) * #[trigger] spread(vs, k),
                decreases 64 - j,
            {
                if Codon::from_ordinal(j as u8).translate() == aa {
                    if !prohibited[j] {
                        inaccessible = false;
                    }
                    let within = spread_within(
                        n,
                        sums[i],
                        squares[i],
                        sums[j],
                        squares[j],
                        tol,
                    );
                    assert(within == (SCALE * spread(vs, i as int) <= (SCALE + tol) * spread(
                        vs,
                        j as int,
                    )));
                    if !within {
                        least = false;
                    }
                }
                j = j + 1;
            }
            inaccessible && least
        };
        allowed.push(ok);
        i = i + 1;
    }
    // drop what is not allowed, and renormalise each organism's rows
    let mut out: Vec<PreferenceTable> = Vec::new();
    let mut o: usize = 0;
    while o < n
        invariant
            all_fractional(usage_data@),
            vs == table_views(usage_data@),
            n == usage_data@.len(),
            o <= n,
            allowed@.len() == 64,
            forall|k: int| 0 <= k < 64 ==> #[trigger] allowed@[k] == is_allowed(vs, tau, tol, k),
            out@.len() == o,
            all_fractional(out@),
            forall|p: int, k: int|
                0 <= p < o && 0 <= k < 64 ==> #[trigger] out@[p]@[k] == normalized_entry(
                    kept_amounts(vs[p], vs, tau, tol),
                    k,
                ),
        decreases n - o,
    {
        let table = &usage_data[o];
        assert(usage_data@[o as int].is_fractional());
        let mut w: Vec<Option<u128>> = Vec::new();
        let mut k: usize = 0;
        while k < 64
            invariant
                table.is_fractional(),
                vs[o as int] == table@,
                k <= 64,
                allowed@.len() == 64,
                forall|c: int| 0 <= c < 64 ==> #[trigger] allowed@[c] == is_allowed(vs, tau, tol, c),
                w@ == kept_amounts(table@, vs, tau, tol).subrange(0, k as int),
            decreases 64 - k,
        {
            let e = match table.get_at(k) {
                Some(v) => if allowed[k] {
                    Some(v as u128)
                } else {
                    None
                },
                None => None,
            };
            w.push(e);
            proof {
                assert(w@ =~= kept_amounts(table@, vs, tau, tol).subrange(0, k + 1));
            }
            k = k + 1;
        }
        proof {
            assert(w@ =~= kept_amounts(table@, vs, tau, tol));
        }
        let refined = normalize_rows(&w);
        out.push(refined);
        proof {
            assert forall|p: int, c: int|
                0 <= p < o + 1 && 0 <= c < 64 implies #[trigger] out@[p]@[c] == normalized_entry(
                kept_amounts(vs[p], vs, tau, tol),
                c,
            ) by {
                if p < o {
                    assert(out@[p] == old_out_at(out@, p));
                }
            }
        }
        o = o + 1;
    }
    Ok(out)
}

/// Sum of squared deviations from `x`, which cannot be negative.
proof fn lemma_deviation_nonneg(vs: Seq<Seq<Option<u64>>>, i: int, m: int, x: int)
    requires
        0 <= m,
    ensures
        org_square_sum(vs, i, m) - 2 * x * org_sum(vs, i, m) + m * x * x >= 0,
    decreases m,
{
    if m > 0 {
        lemma_deviation_nonneg(vs, i, m - 1, x);
        let y = entry_amount(vs[m - 1][i]);
        let q = org_square_sum(vs, i, m - 1);
        let s = org_sum(vs, i, m - 1);
        let q2 = org_square_sum(vs, i, m);
        let s2 = org_sum(vs, i, m);
        assert(q2 == q + y * y);
        assert(s2 == s + y);
        assert((y - x) * (y - x) >= 0) by (nonlinear_arith);
        assert(q2 - 2 * x * s2 + m * x * x == (q - 2 * x * s + (m - 1) * x * x) + (y - x) * (y
            - x)) by (nonlinear_arith)
            requires
                q2 == q + y * y,
                s2 == s + y,
        ;
    } else {
        assert(2 * x * 0 + 0 * x * x == 0) by (nonlinear_arith);
    }
}

proof fn lemma_spread_prefix_nonneg(vs: Seq<Seq<Option<u64>>>, i: int, m: int)
    requires
        0 <= m,
    ensures
        m * org_square_sum(vs, i, m) - org_sum(vs, i, m) * org_sum(vs, i, m) >= 0,
    decreases m,
{
    if m > 0 {
        lemma_spread_prefix_nonneg(vs, i, m - 1);
        let y = entry_amount(vs[m - 1][i]);
        let q = org_square_sum(vs, i, m - 1);
        let s = org_sum(vs, i, m - 1);
        lemma_deviation_nonneg(vs, i, m - 1, y);
        let q2 = org_square_sum(vs, i, m);
        let s2 = org_sum(vs, i, m);
        assert(q2 == q + y * y);
        assert(s2 == s + y);
        assert(m * q2 - s2 * s2 >= 0) by (nonlinear_arith)
            requires
                q2 == q + y * y,
                s2 == s + y,
                (m - 1) * q - s * s >= 0,
                q - 2 * y * s + (m - 1) * y * y >= 0,
        ;
    }
}

/// The spread of a codon is never negative.
pub proof fn lemma_spread_nonneg(vs: Seq<Seq<Option<u64>>>, i: int)
    ensures
        spread(vs, i) >= 0,
{
    lemma_spread_prefix_nonneg(vs, i, vs.len() as int);
}

/// Codon `i` has the least spread among the codons of `aa` below ordinal `n`.
spec fn is_least(vs: Seq<Seq<Option<u64>>>, aa: char, i: int, n: int) -> bool {
    forall|j: int| 0 <= j < n && amino_at(j) == aa ==> spread(vs, i) <= #[trigger] spread(vs, j)
}

proof fn lemma_least_spread(vs: Seq<Seq<Option<u64>>>, aa: char, n: int, j0: int) -> (i: int)
    requires
        0 <= j0 < n <= 64,
        amino_at(j0) == aa,
    ensures
        0 <= i < n,
        amino_at(i) == aa,
        is_least(vs, aa, i, n),
    decreases n,
{
    let k = n - 1;
    if j0 == k {
        if exists|j: int| 0 <= j < k && amino_at(j) == aa {
            let j1 = choose|j: int| 0 <= j < k && amino_at(j) == aa;
            let i1 = lemma_least_spread(vs, aa, k, j1);
            if spread(vs, k) < spread(vs, i1) {
                k
            } else {
                i1
            }
        } else {
            k
        }
    } else {
        let i1 = lemma_least_spread(vs, aa, k, j0);
        if amino_at(k) == aa && spread(vs, k) < spread(vs, i1) {
            k
        } else {
            i1
        }
    }
}

/// Every amino acid all of whose codons are prohibited keeps at least one
/// rescued codon: one whose spread across organisms is least.
pub proof fn lemma_rescue_exists(vs: Seq<Seq<Option<u64>>>, tau: u64, tol: u32, aa: char)
    requires
        is_inaccessible(vs, tau, aa),
        exists|j: int| 0 <= j < 64 && amino_at(j) == aa,
    ensures
        exists|i: int| 0 <= i < 64 && amino_at(i) == aa && is_rescued(vs, tau, tol, i),
{
    let j0 = choose|j: int| 0 <= j < 64 && amino_at(j) == aa;
    let i = lemma_least_spread(vs, aa, 64, j0);
    assert forall|j: int| 0 <= j < 64 && amino_at(j) == amino_at(i) implies SCALE * spread(vs, i)
        <= (SCALE + tol) * spread(vs, j) by {
        lemma_spread_nonneg(vs, j);
        let a = spread(vs, i);
        let b = spread(vs, j);
        assert(SCALE * a <= (SCALE + tol) * b) by (nonlinear_arith)
            requires
                a <= b,
                0 <= b,
                tol >= 0,
        ;
    }
    assert(is_rescued(vs, tau, tol, i));
}

/// What every refined table satisfies: each non-empty row sums to 1 up to
/// rounding, and each codon it offers is either used at or above the threshold
/// by every organism that offers it, or rescued.
pub proof fn lemma_refined_rows(
    usage: Seq<PreferenceTable>,
    tau: u64,
    tol: u32,
    out: Seq<PreferenceTable>,
    o: int,
    aa: char,
)
    requires
        0 <= o < out.len(),
        out.len() == usage.len(),
        all_fractional(usage),
        all_fractional(out),
        forall|p: int, i: int|
            0 <= p < out.len() && 0 <= i < 64 ==> #[trigger] out[p]@[i] == normalized_entry(
                kept_amounts(table_views(usage)[p], table_views(usage), tau, tol),
                i,
            ),
    ensures
        row_nonempty(out[o]@, aa) ==> SCALE - 6 < row_total(amounts(out[o]@), aa) <= SCALE,
        forall|i: int|
            0 <= i < 64 && (#[trigger] out[o]@[i]) is Some ==> (forall|p: int|
                0 <= p < usage.len() && (#[trigger] usage[p]@[i]) is Some ==> usage[p]@[i]->0
                    >= tau) || is_rescued(table_views(usage), tau, tol, i),
{
    let vs = table_views(usage);
    let w = kept_amounts(vs[o], vs, tau, tol);
    assert(out[o].is_fractional());
    if row_nonempty(out[o]@, aa) {
        lemma_nonempty_row_total(w, out[o]@, aa);
    }
    assert forall|i: int| 0 <= i < 64 && (#[trigger] out[o]@[i]) is Some implies (forall|p: int|
        0 <= p < usage.len() && (#[trigger] usage[p]@[i]) is Some ==> usage[p]@[i]->0 >= tau)
        || is_rescued(vs, tau, tol, i) by {
        assert(out[o]@[i] == normalized_entry(w, i));
        assert(is_allowed(vs, tau, tol, i));
        if !is_rescued(vs, tau, tol, i) {
            assert forall|p: int| 0 <= p < usage.len() && (#[trigger] usage[p]@[i]) is Some implies usage[p]@[i]->0 >= tau by {
                assert(vs[p] == usage[p]@);
            }
        }
    }
}

spec fn old_out_at(s: Seq<PreferenceTable>, p: int) -> PreferenceTable {
    s[p]
}

/// Compares two codons' spreads without subtracting:
/// `SCALE * spread_i <= (SCALE + tol) * spread_j`.
fn spread_within(n: usize, sum_i: u128, sq_i: u128, sum_j: u128, sq_j: u128, tol: u32) -> (r: bool)
    requires
        n <= MAX_ORGANISMS,
        sum_i <= n * SCALE,
        sum_j <= n * SCALE,
        sq_i <= n * (SCALE * SCALE),
        sq_j <= n * (SCALE * SCALE),
    ensures
        r == (SCALE * (n * sq_i - sum_i * sum_i) <= (SCALE + tol) * (n * sq_j - sum_j * sum_j)),
{
    let s = SCALE as u128;
    let st = SCALE as u128 + tol as u128;
    let nn = n as u128;
    assert(nn * sq_i <= 256 * (n * (SCALE * SCALE))) by (nonlinear_arith)
        requires
            nn == n,
            n <= 256,
            sq_i <= n * (SCALE * SCALE),
    ;
    assert(nn * sq_j <= 256 * (n * (SCALE * SCALE))) by (nonlinear_arith)
        requires
            nn == n,
            n <= 256,
            sq_j <= n * (SCALE * SCALE),
    ;
    assert(n * (SCALE * SCALE) <= 256 * (SCALE * SCALE)) by (nonlinear_arith)
        requires
            n <= 256,
    ;
    assert(sum_i * sum_i <= (256 * SCALE) * (256 * SCALE)) by (nonlinear_arith)
        requires
            sum_i <= n * SCALE,
            n <= 256,
    ;
    assert(sum_j * sum_j <= (256 * SCALE) * (256 * SCALE)) by (nonlinear_arith)
        requires
            sum_j <= n * SCALE,
            n <= 256,
    ;
    let a = nn * sq_i;
    assert((256 * SCALE) * (256 * SCALE) < 0x1_0000_0000_0000_0000_0000) by (nonlinear_arith);
    let b = sum_i * sum_i;
    let c = nn * sq_j;
    let d = sum_j * sum_j;
    assert(st <= 0x1_0000_0000 + SCALE);
    assert(s * a <= SCALE * (256 * (256 * (SCALE * SCALE)))) by (nonlinear_arith)
        requires
            s == SCALE,
            a <= 256 * (256 * (SCALE * SCALE)),
    ;
    assert(st * d <= (0x1_0000_0000 + SCALE) * ((256 * SCALE) * (256 * SCALE))) by (nonlinear_arith)
        requires
            st <= 0x1_0000_0000 + SCALE,
            d <= (256 * SCALE) * (256 * SCALE),
    ;
    assert(st * c <= (0x1_0000_0000 + SCALE) * (256 * (256 * (SCALE * SCALE)))) by (nonlinear_arith)
        requires
            st <= 0x1_0000_0000 + SCALE,
            c <= 256 * (256 * (SCALE * SCALE)),
    ;
    assert(s * b <= SCALE * ((256 * SCALE) * (256 * SCALE))) by (nonlinear_arith)
        requires
            s == SCALE,
            b <= (256 * SCALE) * (256 * SCALE),
    ;
    let lhs = s * a + st * d;
    let rhs = st * c + s * b;
    assert((lhs <= rhs) == (SCALE * (a - b) <= (SCALE + tol) * (c - d))) by (nonlinear_arith)
        requires
            lhs == s * a + st * d,
            rhs == st * c + s * b,
            s == SCALE,
            st == SCALE + tol,
    ;
    lhs <= rhs
}

} // verus!
