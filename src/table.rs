use vstd::prelude::*;

use crate::codon::{codon_at, lemma_codon_at_index, Codon};
use crate::genetic_code::{amino_at, group_of, lemma_group_sizes, synonyms};

verus! {

/// The fixed-point unit: a preference of `SCALE` stands for 1.
pub const SCALE: u64 = 100_000_000;

/// The largest raw amount that a row may be normalised from.
pub const MAX_AMOUNT: u128 = 0x10_0000_0000_0000_0000_0000_0000;

/// Per-codon preferences, indexed by codon ordinal. `None` marks a codon that
/// is not offered; the row of an amino acid is the entries of its codons.
pub struct PreferenceTable {
    prefs: Vec<Option<u64>>,
}

impl View for PreferenceTable {
    type V = Seq<Option<u64>>;

    closed spec fn view(&self) -> Seq<Option<u64>> {
        self.prefs@
    }
}

/// The numeric value of each entry, with an absent entry counted as 0.
pub open spec fn amounts(p: Seq<Option<u64>>) -> Seq<int> {
    p.map_values(|o: Option<u64>| if o is Some { o->0 as int } else { 0 })
}

/// Same as `amounts`, for wide raw amounts.
pub open spec fn wide_amounts(w: Seq<Option<u128>>) -> Seq<int> {
    w.map_values(|o: Option<u128>| if o is Some { o->0 as int } else { 0 })
}

/// The sum of `a` over the codons of `aa` among the first `n` ordinals.
pub open spec fn row_sum(a: Seq<int>, aa: char, n: int) -> int
    decreases n,
{
    if n <= 0 {
        0
    } else {
        row_sum(a, aa, n - 1) + if amino_at(n - 1) == aa {
            a[n - 1]
        } else {
            0
        }
    }
}

/// The sum of `a` over the whole degeneracy group of `aa`.
pub open spec fn row_total(a: Seq<int>, aa: char) -> int {
    row_sum(a, aa, 64)
}

/// The row of `aa` offers at least one codon.
pub open spec fn row_nonempty(p: Seq<Option<u64>>, aa: char) -> bool {
    exists|i: int| 0 <= i < 64 && amino_at(i) == aa && (#[trigger] p[i]) is Some
}

/// Entry `i` after scaling each row of raw amounts `w` to sum to `SCALE`,
/// rounding down; a row whose amounts sum to 0 is left empty.
pub open spec fn normalized_entry(w: Seq<Option<u128>>, i: int) -> Option<u64> {
    let total = row_total(wide_amounts(w), amino_at(i));
    if total == 0 || w[i] is None {
        None
    } else {
        Some((w[i]->0 * SCALE / total) as u64)
    }
}

/// Every raw amount is at most `MAX_AMOUNT`.
pub open spec fn amounts_bounded(w: Seq<Option<u128>>) -> bool {
    forall|i: int| 0 <= i < w.len() && (#[trigger] w[i]) is Some ==> w[i]->0 <= MAX_AMOUNT
}

impl PreferenceTable {
    /// One entry per codon.
    pub open spec fn well_formed(&self) -> bool {
        self@.len() == 64
    }

    /// One entry per codon, each a fraction of `SCALE`.
    pub open spec fn is_fractional(&self) -> bool {
        &&& self.well_formed()
        &&& forall|i: int| 0 <= i < 64 && (#[trigger] self@[i]) is Some ==> self@[i]->0 <= SCALE
    }

    /// Whether the table has one entry per codon, each at most `SCALE`.
    pub fn is_fraction_table(&self) -> (r: bool)
        ensures
            r == self.is_fractional(),
    {
        if self.prefs.len() != 64 {
            return false;
        }
        let mut i: usize = 0;
        while i < 64
            invariant
                self.prefs@.len() == 64,
                i <= 64,
                forall|k: int| 0 <= k < i && (#[trigger] self@[k]) is Some ==> self@[k]->0 <= SCALE,
            decreases 64 - i,
        {
            if let Some(v) = self.prefs[i] {
                if v > SCALE {
                    return false;
                }
            }
            i = i + 1;
        }
        true
    }

    /// A table that offers no codon.
    pub fn new_empty() -> (t: PreferenceTable)
        ensures
            t.well_formed(),
            forall|i: int| 0 <= i < 64 ==> #[trigger] t@[i] is None,
    {
        let mut prefs: Vec<Option<u64>> = Vec::new();
        let mut i: usize = 0;
        while i < 64
            invariant
                i <= 64,
                prefs@.len() == i,
                forall|k: int| 0 <= k < i ==> #[trigger] prefs@[k] is None,
            decreases 64 - i,
        {
            prefs.push(None);
            i = i + 1;
        }
        PreferenceTable { prefs }
    }

    /// The preference of `codon`, if it is offered.
    pub fn get(&self, codon: Codon) -> (r: Option<u64>)
        requires
            self.well_formed(),
        ensures
            r == self@[codon.index()],
    {
        proof {
            lemma_codon_at_index(codon);
        }
        self.prefs[codon.ordinal() as usize]
    }

    /// The entry with ordinal `i`.
    pub fn get_at(&self, i: usize) -> (r: Option<u64>)
        requires
            self.well_formed(),
            i < 64,
        ensures
            r == self@[i as int],
    {
        self.prefs[i]
    }

    /// Sets the preference of `codon` (`None` withdraws it).
    pub fn set(&mut self, codon: Codon, pref: Option<u64>)
        requires
            old(self).well_formed(),
        ensures
            final(self)@ == old(self)@.update(codon.index(), pref),
    {
        proof {
            lemma_codon_at_index(codon);
        }
        self.prefs.set(codon.ordinal() as usize, pref);
    }
}

/// For each codon, the total of the raw amounts of its amino acid's row.
fn row_totals(w: &Vec<Option<u128>>) -> (r: Vec<u128>)
    requires
        w@.len() == 64,
        amounts_bounded(w@),
    ensures
        r@.len() == 64,
        forall|i: int| 0 <= i < 64 ==> #[trigger] r@[i] == row_total(wide_amounts(w@), amino_at(i)),
        forall|i: int| 0 <= i < 64 ==> #[trigger] r@[i] <= 64 * MAX_AMOUNT,
{
    let ghost a = wide_amounts(w@);
    let mut r: Vec<u128> = Vec::new();
    let mut i: u8 = 0;
    while i < 64
        invariant
            i <= 64,
            w@.len() == 64,
            amounts_bounded(w@),
            a == wide_amounts(w@),
            r@.len() == i,
            forall|k: int| 0 <= k < i ==> #[trigger] r@[k] == row_total(a, amino_at(k)),
            forall|k: int| 0 <= k < i ==> #[trigger] r@[k] <= 64 * MAX_AMOUNT,
        decreases 64 - i,
    {
        let aa = Codon::from_ordinal(i).translate();
        let mut acc: u128 = 0;
        let mut j: u8 = 0;
        while j < 64
            invariant
                j <= 64,
                w@.len() == 64,
                amounts_bounded(w@),
                a == wide_amounts(w@),
                acc == row_sum(a, aa, j as int),
                acc <= j * MAX_AMOUNT,
            decreases 64 - j,
        {
            if Codon::from_ordinal(j).translate() == aa {
                match w[j as usize] {
                    Some(x) => {
                        acc = acc + x;
                    },
                    None => {},
                }
            }
            j = j + 1;
        }
        r.push(acc);
        i = i + 1;
    }
    r
}

/// Scales each row of raw amounts so that it sums to `SCALE`, rounding each
/// entry down; a row whose amounts sum to 0 becomes empty.
pub fn normalize_rows(w: &Vec<Option<u128>>) -> (t: PreferenceTable)
    requires
        w@.len() == 64,
        amounts_bounded(w@),
    ensures
        t.is_fractional(),
        forall|i: int| 0 <= i < 64 ==> #[trigger] t@[i] == normalized_entry(w@, i),
{
    let totals = row_totals(w);
    let mut prefs: Vec<Option<u64>> = Vec::new();
    let mut i: usize = 0;
    while i < 64
        invariant
            i <= 64,
            w@.len() == 64,
            amounts_bounded(w@),
            totals@.len() == 64,
            forall|k: int|
                0 <= k < 64 ==> #[trigger] totals@[k] == row_total(wide_amounts(w@), amino_at(k)),
            prefs@.len() == i,
            forall|k: int| 0 <= k < i ==> #[trigger] prefs@[k] == normalized_entry(w@, k),
            forall|k: int| 0 <= k < i && (#[trigger] prefs@[k]) is Some ==> prefs@[k]->0 <= SCALE,
        decreases 64 - i,
    {
        let total = totals[i];
        let entry = if total == 0 {
            None
        } else {
            match w[i] {
                Some(x) => {
                    proof {
                        lemma_entry_le_total(wide_amounts(w@), amino_at(i as int), i as int, 64);
                        assert(x <= total);
                        lemma_scaled_share(x as int, total as int);
                    }
                    Some((x * (SCALE as u128) / total) as u64)
                },
                None => None,
            }
        };
        prefs.push(entry);
        i = i + 1;
    }
    PreferenceTable { prefs }
}

/// A share of a total, scaled to `SCALE`, is at most `SCALE`.
proof fn lemma_scaled_share(x: int, total: int)
    requires
        0 <= x <= total,
        0 < total,
    ensures
        x * SCALE / total <= SCALE,
{
    assert(x * SCALE <= total * SCALE) by (nonlinear_arith)
        requires
            0 <= x <= total,
    ;
    vstd::arithmetic::div_mod::lemma_div_is_ordered(x * SCALE, total * SCALE, total);
    vstd::arithmetic::div_mod::lemma_div_by_multiple(SCALE as int, total);
    assert(total * SCALE == SCALE * total) by (nonlinear_arith);
}

/// A non-negative entry of a row is at most the row's sum.
proof fn lemma_entry_le_total(a: Seq<int>, aa: char, i: int, n: int)
    requires
        0 <= i < n,
        amino_at(i) == aa,
        forall|k: int| 0 <= k < n ==> a[k] >= 0,
    ensures
        a[i] <= row_sum(a, aa, n),
    decreases n,
{
    lemma_row_sum_nonneg(a, aa, n - 1);
    if i < n - 1 {
        lemma_entry_le_total(a, aa, i, n - 1);
    }
}

proof fn lemma_row_sum_nonneg(a: Seq<int>, aa: char, n: int)
    requires
        forall|k: int| 0 <= k < n ==> a[k] >= 0,
    ensures
        row_sum(a, aa, n) >= 0,
    decreases n,
{
    if n > 0 {
        lemma_row_sum_nonneg(a, aa, n - 1);
    }
}

/// Rounding a scaled share down loses less than one unit.
proof fn lemma_floor_share(x: int, total: int)
    requires
        x >= 0,
        total > 0,
    ensures
        (x * SCALE / total) * total <= x * SCALE,
        (x * SCALE / total) * total >= x * SCALE - (total - 1),
{
    vstd::arithmetic::div_mod::lemma_fundamental_div_mod(x * SCALE, total);
    vstd::arithmetic::div_mod::lemma_mod_bound(x * SCALE, total);
    assert(total * (x * SCALE / total) == (x * SCALE / total) * total) by (nonlinear_arith);
}

proof fn lemma_normalized_prefix(w: Seq<Option<u128>>, p: Seq<Option<u64>>, aa: char, n: int)
    requires
        w.len() == 64,
        p.len() == 64,
        0 <= n <= 64,
        forall|i: int| 0 <= i < 64 ==> #[trigger] p[i] == normalized_entry(w, i),
        row_total(wide_amounts(w), aa) > 0,
    ensures
        row_sum(amounts(p), aa, n) * row_total(wide_amounts(w), aa) <= SCALE * row_sum(
            wide_amounts(w),
            aa,
            n,
        ),
        row_sum(amounts(p), aa, n) * row_total(wide_amounts(w), aa) >= SCALE * row_sum(
            wide_amounts(w),
            aa,
            n,
        ) - synonyms(aa, n).len() * (row_total(wide_amounts(w), aa) - 1),
    decreases n,
{
    if n > 0 {
        lemma_normalized_prefix(w, p, aa, n - 1);
        let t = row_total(wide_amounts(w), aa);
        let i = n - 1;
        let s_prev = row_sum(amounts(p), aa, i);
        let x_prev = row_sum(wide_amounts(w), aa, i);
        let g_prev = synonyms(aa, i).len() as int;
        if amino_at(i) == aa {
            let e = amounts(p)[i];
            let x = wide_amounts(w)[i];
            if w[i] is Some {
                lemma_floor_share(x, t);
                lemma_entry_le_total(wide_amounts(w), aa, i, 64);
                lemma_scaled_share(x, t);
                assert(e == x * SCALE / t);
            } else {
                assert(e == 0 && x == 0);
            }
            assert(e * t <= x * SCALE);
            assert(e * t >= x * SCALE - (t - 1));
            assert((s_prev + e) * t == s_prev * t + e * t) by (nonlinear_arith);
            assert(SCALE * (x_prev + x) == SCALE * x_prev + x * SCALE) by (nonlinear_arith);
            assert((g_prev + 1) * (t - 1) == g_prev * (t - 1) + (t - 1)) by (nonlinear_arith);
        }
    }
}

/// Each non-empty row that `normalize_rows` produces sums to `SCALE`, less
/// under one unit per codon of the row lost to rounding down.
pub proof fn lemma_normalized_row_total(w: Seq<Option<u128>>, p: Seq<Option<u64>>, aa: char)
    requires
        w.len() == 64,
        p.len() == 64,
        forall|i: int| 0 <= i < 64 ==> #[trigger] p[i] == normalized_entry(w, i),
        row_total(wide_amounts(w), aa) > 0,
    ensures
        SCALE - group_of(aa).len() < row_total(amounts(p), aa) <= SCALE,
{
    lemma_normalized_prefix(w, p, aa, 64);
    let t = row_total(wide_amounts(w), aa);
    let s = row_total(amounts(p), aa);
    let g = group_of(aa).len() as int;
    lemma_row_sum_positive_has_member(wide_amounts(w), aa, 64);
    assert(s <= SCALE) by (nonlinear_arith)
        requires
            s * t <= SCALE * t,
            t > 0,
    ;
    assert(s > SCALE - g) by (nonlinear_arith)
        requires
            s * t >= SCALE * t - g * (t - 1),
            t > 0,
            g >= 1,
    ;
}

/// Each row that `normalize_rows` leaves non-empty sums to `SCALE` (that is,
/// to 1) up to at most six units of rounding.
pub proof fn lemma_nonempty_row_total(w: Seq<Option<u128>>, p: Seq<Option<u64>>, aa: char)
    requires
        w.len() == 64,
        p.len() == 64,
        forall|i: int| 0 <= i < 64 ==> #[trigger] p[i] == normalized_entry(w, i),
        row_nonempty(p, aa),
    ensures
        SCALE - 6 < row_total(amounts(p), aa) <= SCALE,
{
    let i = choose|i: int| 0 <= i < 64 && amino_at(i) == aa && (#[trigger] p[i]) is Some;
    assert(p[i] == normalized_entry(w, i));
    lemma_row_sum_nonneg(wide_amounts(w), aa, 64);
    lemma_normalized_row_total(w, p, aa);
    lemma_group_sizes(aa);
}

/// A row with a positive sum has at least one codon.
proof fn lemma_row_sum_positive_has_member(a: Seq<int>, aa: char, n: int)
    requires
        row_sum(a, aa, n) != 0,
    ensures
        synonyms(aa, n).len() >= 1,
    decreases n,
{
    if n > 0 && amino_at(n - 1) != aa {
        lemma_row_sum_positive_has_member(a, aa, n - 1);
    }
}

} // verus!
