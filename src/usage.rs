use vstd::prelude::*;

use crate::codon::{lemma_codon_at_index, Codon};
use crate::genetic_code::amino_at;
use crate::table::{
    amounts, lemma_nonempty_row_total, normalize_rows, normalized_entry, row_nonempty, row_total,
    PreferenceTable, MAX_AMOUNT, SCALE,
};

verus! {

/// How often each codon was observed in one organism, by codon ordinal.
pub struct CodonUsage {
    counts: Vec<i32>,
}

impl View for CodonUsage {
    type V = Seq<i32>;

    closed spec fn view(&self) -> Seq<i32> {
        self.counts@
    }
}

/// Raw amounts for normalisation: every codon is offered with its count.
pub open spec fn count_amounts(counts: Seq<i32>) -> Seq<Option<u128>> {
    counts.map_values(|x: i32| Some(x as u128))
}

impl CodonUsage {
    /// One count per codon, none negative.
    pub open spec fn valid(&self) -> bool {
        &&& self@.len() == 64
        &&& forall|i: int| 0 <= i < 64 ==> #[trigger] self@[i] >= 0
    }

    /// Collects the 64 counts; the view lists them in lexicographic codon order.
    #[allow(clippy::too_many_arguments)]
    pub fn new(
        ttt: i32,
        ttc: i32,
        tta: i32,
        ttg: i32,
        ctt: i32,
        ctc: i32,
        cta: i32,
        ctg: i32,
        att: i32,
        atc: i32,
        ata: i32,
        atg: i32,
        gtt: i32,
        gtc: i32,
        gta: i32,
        gtg: i32,
        tat: i32,
        tac: i32,
        taa: i32,
        tag: i32,
        cat: i32,
        cac: i32,
        caa: i32,
        cag: i32,
        aat: i32,
        aac: i32,
        aaa: i32,
        aag: i32,
        gat: i32,
        gac: i32,
        gaa: i32,
        gag: i32,
        tct: i32,
        tcc: i32,
        tca: i32,
        tcg: i32,
        cct: i32,
        ccc: i32,
        cca: i32,
        ccg: i32,
        act: i32,
        acc: i32,
        aca: i32,
        acg: i32,
        gct: i32,
        gcc: i32,
        gca: i32,
        gcg: i32,
        tgt: i32,
        tgc: i32,
        tga: i32,
        tgg: i32,
        cgt: i32,
        cgc: i32,
        cga: i32,
        cgg: i32,
        agt: i32,
        agc: i32,
        aga: i32,
        agg: i32,
        ggt: i32,
        ggc: i32,
        gga: i32,
        ggg: i32,
    ) -> (r: CodonUsage)
        ensures
            r@ == seq![aaa, aac, aag, aat, aca, acc, acg, act, aga, agc, agg, agt, ata, atc, atg, att, caa, cac, cag, cat, cca, ccc, ccg, cct, cga, cgc, cgg, cgt, cta, ctc, ctg, ctt, gaa, gac, gag, gat, gca, gcc, gcg, gct, gga, ggc, ggg, ggt, gta, gtc, gtg, gtt, taa, tac, tag, tat, tca, tcc, tcg, tct, tga, tgc, tgg, tgt, tta, ttc, ttg, ttt],
    {
        let mut counts: Vec<i32> = Vec::new();
        counts.push(aaa);
        counts.push(aac);
        counts.push(aag);
        counts.push(aat);
        counts.push(aca);
        counts.push(acc);
        counts.push(acg);
        counts.push(act);
        counts.push(aga);
        counts.push(agc);
        counts.push(agg);
        counts.push(agt);
        counts.push(ata);
        counts.push(atc);
        counts.push(atg);
        counts.push(att);
        counts.push(caa);
        counts.push(cac);
        counts.push(cag);
        counts.push(cat);
        counts.push(cca);
        counts.push(ccc);
        counts.push(ccg);
        counts.push(cct);
        counts.push(cga);
        counts.push(cgc);
        counts.push(cgg);
        counts.push(cgt);
        counts.push(cta);
        counts.push(ctc);
        counts.push(ctg);
        counts.push(ctt);
        counts.push(gaa);
        counts.push(gac);
        counts.push(gag);
        counts.push(gat);
        counts.push(gca);
        counts.push(gcc);
        counts.push(gcg);
        counts.push(gct);
        counts.push(gga);
        counts.push(ggc);
        counts.push(ggg);
        counts.push(ggt);
        counts.push(gta);
        counts.push(gtc);
        counts.push(gtg);
        counts.push(gtt);
        counts.push(taa);
        counts.push(tac);
        counts.push(tag);
        counts.push(tat);
        counts.push(tca);
        counts.push(tcc);
        counts.push(tcg);
        counts.push(tct);
        counts.push(tga);
        counts.push(tgc);
        counts.push(tgg);
        counts.push(tgt);
        counts.push(tta);
        counts.push(ttc);
        counts.push(ttg);
        counts.push(ttt);
        proof {
            assert(counts@ =~= seq![aaa, aac, aag, aat, aca, acc, acg, act, aga, agc, agg, agt, ata, atc, atg, att, caa, cac, cag, cat, cca, ccc, ccg, cct, cga, cgc, cgg, cgt, cta, ctc, ctg, ctt, gaa, gac, gag, gat, gca, gcc, gcg, gct, gga, ggc, ggg, ggt, gta, gtc, gtg, gtt, taa, tac, tag, tat, tca, tcc, tcg, tct, tga, tgc, tgg, tgt, tta, ttc, ttg, ttt]);
        }
        CodonUsage { counts }
    }

    /// Builds the table from counts listed in lexicographic codon order.
    pub fn from_counts(counts: Vec<i32>) -> (r: CodonUsage)
        ensures
            r@ == counts@,
    {
        CodonUsage { counts }
    }

    /// Whether there is one count per codon and none is negative.
    pub fn is_valid(&self) -> (r: bool)
        ensures
            r == self.valid(),
    {
        if self.counts.len() != 64 {
            return false;
        }
        let mut i: usize = 0;
        while i < 64
            invariant
                self@.len() == 64,
                i <= 64,
                forall|k: int| 0 <= k < i ==> #[trigger] self@[k] >= 0,
            decreases 64 - i,
        {
            if self.counts[i] < 0 {
                return false;
            }
            i = i + 1;
        }
        true
    }

    /// The count of `codon`; there is one for every codon.
    pub fn get(&self, codon: &Codon) -> (r: Option<i32>)
        requires
            self@.len() == 64,
        ensures
            r == Some(self@[codon.index()]),
    {
        proof {
            lemma_codon_at_index(*codon);
        }
        Some(self.counts[codon.ordinal() as usize])
    }

    /// Turns counts into preferences: within each amino acid's row, each codon
    /// gets its share of the row's total count, in units of `SCALE` rounded
    /// down. A row whose counts are all 0 is left empty.
    pub fn into_fracs(self) -> (t: PreferenceTable)
        requires
            self.valid(),
        ensures
            t.is_fractional(),
            forall|i: int| 0 <= i < 64 ==> #[trigger] t@[i] == normalized_entry(count_amounts(self@), i),
    {
        self.fractions()
    }

    /// Same as `into_fracs`, leaving the counts in place.
    pub fn fractions(&self) -> (t: PreferenceTable)
        requires
            self.valid(),
        ensures
            t.is_fractional(),
            forall|i: int| 0 <= i < 64 ==> #[trigger] t@[i] == normalized_entry(count_amounts(self@), i),
    {
        let mut w: Vec<Option<u128>> = Vec::new();
        let mut i: usize = 0;
        while i < 64
            invariant
                self.valid(),
                i <= 64,
                w@ == count_amounts(self@).subrange(0, i as int),
            decreases 64 - i,
        {
            w.push(Some(self.counts[i] as u128));
            i = i + 1;
        }
        proof {
            assert(w@ =~= count_amounts(self@));
        }
        normalize_rows(&w)
    }
}

/// Every non-empty row of a table made from counts sums to `SCALE` (that is,
/// to 1) up to at most six units of rounding.
pub proof fn lemma_fraction_rows_sum_to_one(usage: CodonUsage, t: PreferenceTable, aa: char)
    requires
        usage.valid(),
        t.well_formed(),
        forall|i: int| 0 <= i < 64 ==> #[trigger] t@[i] == normalized_entry(count_amounts(usage@), i),
        row_nonempty(t@, aa),
    ensures
        SCALE - 6 < row_total(amounts(t@), aa) <= SCALE,
{
    lemma_nonempty_row_total(count_amounts(usage@), t@, aa);
}

} // verus!
