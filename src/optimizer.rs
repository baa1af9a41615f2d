use vstd::prelude::*;

use crate::average::{
    build_averaged_table, equal_weights, expression_weights, merged_amounts, weights_from_expression,
};
use crate::codon::{lemma_decode_spelling, Codon};
use crate::error::CoreError;
use crate::genetic_code::SequenceType;
use crate::rca::{
    codons_of, compute_rca_terms, compute_rca_xyz_table, rca_factors, rcaxyz_entry, RcaTable,
};
use crate::refine::{
    all_fractional, kept_amounts, remove_prohibited_codons, table_views, MAX_ORGANISMS,
};
use crate::sampler::{
    first_unavailable, lemma_first_unavailable_unique, row_available, row_is_available,
    sample_sequence, sampled,
};
use crate::sequence::{
    all_amino_acids, all_nucleotides, all_triplets_decode, chars_of, is_first_invalid, detect_sequence_type, dna_of,
    lemma_dna_of_triplets, lemma_nucleotides_decode, lemma_translate_dna_of, protein_of,
    spell_codons, translate_dna_sequence, translation,
};
use crate::table::{normalized_entry, PreferenceTable, SCALE};
use crate::usage::{count_amounts, CodonUsage};

verus! {

/// How much of a deviating host's table one adjustment blends in, in percent.
pub const BLEND_PERCENT: u64 = 5;

/// The least number of candidates without improvement after which the search stops.
pub const MIN_PATIENCE: u32 = 16;

/// The settings of one optimisation; fractions are in units of `SCALE`.
pub struct OptimizationOptions {
    pub max_iterations: u32,
    pub seed: u64,
    pub prohibited_preference_threshold: u64,
    pub variance_tolerance: u32,
    pub min_error: u64,
    pub expression_tolerance: u64,
    pub equal_species: bool,
}

impl Default for OptimizationOptions {
    fn default() -> (r: Self)
        ensures
            r.max_iterations == 1000,
            r.seed == 42,
            r.prohibited_preference_threshold == SCALE / 10,
            r.variance_tolerance == 0,
            r.min_error == SCALE / 100,
            r.expression_tolerance == 0,
            r.equal_species,
    {
        OptimizationOptions {
            max_iterations: 1000,
            seed: 42,
            prohibited_preference_threshold: SCALE / 10,
            variance_tolerance: 0,
            min_error: SCALE / 100,
            expression_tolerance: 0,
            equal_species: true,
        }
    }
}

/// The protein that a query stands for: its translation when it is DNA.
pub open spec fn query_protein(q: Seq<char>) -> Seq<char> {
    if all_nucleotides(q) {
        translation(q)
    } else {
        q
    }
}

/// The query is DNA of whole codons, or protein.
pub open spec fn query_ok(q: Seq<char>) -> bool {
    all_amino_acids(q) && (all_nucleotides(q) ==> q.len() % 3 == 0)
}

/// The preference table made from one organism's counts.
pub open spec fn fraction_view(counts: Seq<i32>) -> Seq<Option<u64>> {
    Seq::new(64, |i: int| normalized_entry(count_amounts(counts), i))
}

/// The refined tables of all organisms.
pub open spec fn refined_views(vs: Seq<Seq<Option<u64>>>, tau: u64, tol: u32) -> Seq<
    Seq<Option<u64>>,
> {
    Seq::new(
        vs.len(),
        |o: int| Seq::new(64, |i: int| normalized_entry(kept_amounts(vs[o], vs, tau, tol), i)),
    )
}

/// The weighted average of tables.
pub open spec fn averaged_view(vs: Seq<Seq<Option<u64>>>, ws: Seq<u64>) -> Seq<Option<u64>> {
    Seq::new(64, |i: int| normalized_entry(merged_amounts(vs, ws), i))
}

/// A preference blended toward another: `(95 * a + 5 * b) / 100`, absent
/// entries counting 0; absent when both are.
pub open spec fn blend_entry(a: Option<u64>, b: Option<u64>) -> Option<u64> {
    if a is None && b is None {
        None
    } else {
        let x = if a is Some { a->0 as int } else { 0 };
        let y = if b is Some { b->0 as int } else { 0 };
        Some((((100 - BLEND_PERCENT) * x + BLEND_PERCENT * y) / 100) as u64)
    }
}

/// The table after blending it toward each host `o < m` that deviates.
pub open spec fn blended(
    t: Seq<Option<u64>>,
    hosts: Seq<Seq<Option<u64>>>,
    dev: Seq<bool>,
    m: int,
) -> Seq<Option<u64>>
    decreases m,
{
    if m <= 0 {
        t
    } else {
        let prev = blended(t, hosts, dev, m - 1);
        if dev[m - 1] {
            Seq::new(64, |i: int| blend_entry(prev[i], hosts[m - 1][i]))
        } else {
            prev
        }
    }
}

/// `|a - b|`.
pub open spec fn gap(a: int, b: int) -> int {
    if a >= b {
        a - b
    } else {
        b - a
    }
}

/// `sum_{o < m} (predicted - target)^2`, each square in units of `SCALE` rounded down.
pub open spec fn error_sum(pred: Seq<u64>, targets: Seq<u64>, m: int) -> int
    decreases m,
{
    if m <= 0 {
        0
    } else {
        error_sum(pred, targets, m - 1) + gap(pred[m - 1] as int, targets[m - 1] as int) * gap(
            pred[m - 1] as int,
            targets[m - 1] as int,
        ) / (SCALE as int)
    }
}

/// Host `o` deviates when its gap, times `max(1, hosts - 1)`, exceeds the tolerance.
pub open spec fn deviations(pred: Seq<u64>, targets: Seq<u64>, et: u64) -> Seq<bool> {
    Seq::new(
        pred.len(),
        |o: int|
            gap(pred[o] as int, targets[o] as int) * (if pred.len() > 1 {
                pred.len() - 1
            } else {
                1
            }) > et,
    )
}

/// The error of a recorded candidate.
pub open spec fn recorded_error(best: Option<(u128, Seq<Codon>)>) -> int {
    match best {
        Some((e, _)) => e as int,
        None => 0,
    }
}

/// The number of candidates without improvement after which the search stops.
pub open spec fn patience(max_iterations: u32) -> int {
    if max_iterations / 64 > MIN_PATIENCE {
        (max_iterations / 64) as int
    } else {
        MIN_PATIENCE as int
    }
}

/// The target expression of each host: 1 each when the hosts count equally,
/// else from the expression targets.
pub open spec fn host_targets(n: nat, expression_targets: Seq<u8>, equal_species: bool) -> Seq<u64> {
    if equal_species {
        Seq::new(n, |o: int| SCALE)
    } else {
        expression_weights(expression_targets)
    }
}

/// The hosts' weights can be formed: they count equally, or there is one
/// positive expression target per host.
pub open spec fn weights_ok(n: nat, expression_targets: Seq<u8>, equal_species: bool) -> bool {
    equal_species || (expression_targets.len() == n && expression_targets.len() > 0 && forall|o: int|
        0 <= o < expression_targets.len() ==> expression_targets[o] > 0)
}

/// The refined table of each host.
pub open spec fn host_views(usage: Seq<CodonUsage>, options: OptimizationOptions) -> Seq<
    Seq<Option<u64>>,
> {
    refined_views(
        Seq::new(usage.len(), |o: int| fraction_view(usage[o]@)),
        options.prohibited_preference_threshold,
        options.variance_tolerance,
    )
}

/// The shared table that a search starts from: the weighted average of the hosts' refined tables.
pub open spec fn shared_view(
    usage: Seq<CodonUsage>,
    expression_targets: Seq<u8>,
    options: OptimizationOptions,
) -> Seq<Option<u64>> {
    averaged_view(
        host_views(usage, options),
        host_targets(usage.len(), expression_targets, options.equal_species),
    )
}

/// `opt` is the search that `Optimizer::new` prepares from these inputs.
pub open spec fn prepared(
    query: Seq<char>,
    usage: Seq<CodonUsage>,
    expression_targets: Seq<u8>,
    options: OptimizationOptions,
    opt: Optimizer,
) -> bool {
    let fracs = Seq::new(usage.len(), |o: int| fraction_view(usage[o]@));
    let tau = options.prohibited_preference_threshold;
    let hosts = refined_views(fracs, tau, options.variance_tolerance);
    &&& query_ok(query)
    &&& 0 < tau < SCALE
    &&& opt.well_formed()
    &&& opt.protein() == query_protein(query)
    &&& opt.hosts() == hosts
    &&& opt.targets() == host_targets(usage.len(), expression_targets, options.equal_species)
    &&& opt.table() == averaged_view(hosts, opt.targets())
    &&& opt.rca_views() == Seq::new(
        usage.len(),
        |o: int| Seq::new(64, |i: int| rcaxyz_entry(hosts[o], i)),
    )
    &&& forall|k: int|
        0 <= k < opt.protein().len() ==> row_available(opt.table(), #[trigger] opt.protein()[k])
    &&& opt.seed() == options.seed
    &&& opt.max_iterations() == options.max_iterations
    &&& opt.min_error() == options.min_error
    &&& opt.expression_tolerance() == options.expression_tolerance
    &&& opt.iteration() == 0
    &&& opt.stale() == 0
    &&& opt.best() is None
}

/// `after` is `before` once `record` has scored `candidate` with the hosts'
/// predicted expression, and `finished` tells whether the search is over.
pub open spec fn recorded(
    before: Optimizer,
    candidate: Seq<Codon>,
    predicted: Seq<u64>,
    after: Optimizer,
    finished: bool,
) -> bool {
    let e = error_sum(predicted, before.targets(), predicted.len() as int);
    let improved = before.best() is None || e < recorded_error(before.best());
    &&& after.well_formed()
    &&& after.protein() == before.protein()
    &&& after.hosts() == before.hosts()
    &&& after.rca_views() == before.rca_views()
    &&& after.targets() == before.targets()
    &&& after.seed() == before.seed()
    &&& after.max_iterations() == before.max_iterations()
    &&& after.min_error() == before.min_error()
    &&& after.expression_tolerance() == before.expression_tolerance()
    &&& after.iteration() == before.iteration() + 1
    &&& improved ==> after.best() == Some((e as u128, candidate)) && after.stale() == 0
    &&& !improved ==> after.best() == before.best() && after.stale() == before.stale() + 1
    &&& finished == (e <= before.min_error() || after.iteration() >= before.max_iterations()
        || after.stale() >= patience(before.max_iterations()))
    &&& finished ==> after.table() == before.table()
    &&& !finished ==> after.table() == blended(
        before.table(),
        before.hosts(),
        deviations(predicted, before.targets(), before.expression_tolerance()),
        predicted.len() as int,
    )
}

/// Two searches agree on everything that decides what they do next.
pub open spec fn same_state(a: Optimizer, b: Optimizer) -> bool {
    &&& a.protein() == b.protein()
    &&& a.hosts() == b.hosts()
    &&& a.rca_views() == b.rca_views()
    &&& a.targets() == b.targets()
    &&& a.table() == b.table()
    &&& a.seed() == b.seed()
    &&& a.max_iterations() == b.max_iterations()
    &&& a.min_error() == b.min_error()
    &&& a.expression_tolerance() == b.expression_tolerance()
    &&& a.iteration() == b.iteration()
    &&& a.stale() == b.stale()
    &&& a.best() == b.best()
}

/// The candidate that a search in this state proposes, when every residue is available.
pub open spec fn proposal(opt: Optimizer) -> Seq<Codon> {
    sampled(opt.table(), opt.protein(), opt.seed().wrapping_add(opt.iteration() as u64))
}

/// A candidate of the search, spelled as DNA and translated back, gives the
/// query's protein (the query itself, or its translation when it is DNA).
pub proof fn lemma_candidate_translates_to_query(
    query: Seq<char>,
    usage: Seq<CodonUsage>,
    expression_targets: Seq<u8>,
    options: OptimizationOptions,
    opt: Optimizer,
    candidate: Seq<Codon>,
)
    requires
        prepared(query, usage, expression_targets, options, opt),
        protein_of(candidate) == opt.protein(),
    ensures
        dna_of(candidate).len() == 3 * candidate.len(),
        all_triplets_decode(dna_of(candidate)),
        translation(dna_of(candidate)) == query_protein(query),
{
    lemma_dna_of_triplets(candidate);
    lemma_translate_dna_of(candidate);
}

/// Preparing twice from the same inputs gives searches in the same state,
/// which propose the same first candidate.
pub proof fn lemma_prepare_reproducible(
    query: Seq<char>,
    usage: Seq<CodonUsage>,
    expression_targets: Seq<u8>,
    options: OptimizationOptions,
    a: Optimizer,
    b: Optimizer,
)
    requires
        prepared(query, usage, expression_targets, options, a),
        prepared(query, usage, expression_targets, options, b),
    ensures
        same_state(a, b),
        proposal(a) == proposal(b),
{
}

/// Two searches in the same state that score the same candidate with the same
/// predicted expression end in the same state and agree on whether to stop;
/// so a whole search, run twice on the same inputs, proposes and returns the
/// same sequences.
pub proof fn lemma_record_reproducible(
    a: Optimizer,
    b: Optimizer,
    candidate: Seq<Codon>,
    predicted: Seq<u64>,
    a2: Optimizer,
    b2: Optimizer,
    fa: bool,
    fb: bool,
)
    requires
        same_state(a, b),
        recorded(a, candidate, predicted, a2, fa),
        recorded(b, candidate, predicted, b2, fb),
    ensures
        same_state(a2, b2),
        fa == fb,
        proposal(a2) == proposal(b2),
{
}

/// The state of one optimisation: the query's protein, the hosts' refined and
/// RCAxyz tables, the target expression of each host, the shared table that the
/// search adjusts, and the best candidate so far with its error.
pub struct Optimizer {
    protein: Vec<char>,
    hosts: Vec<PreferenceTable>,
    rca_tables: Vec<RcaTable>,
    targets: Vec<u64>,
    table: PreferenceTable,
    seed: u64,
    max_iterations: u32,
    min_error: u64,
    expression_tolerance: u64,
    iteration: u32,
    stale: u32,
    best: Option<(u128, Vec<Codon>)>,
}

impl Optimizer {
    pub closed spec fn protein(&self) -> Seq<char> {
        self.protein@
    }

    pub closed spec fn hosts(&self) -> Seq<Seq<Option<u64>>> {
        table_views(self.hosts@)
    }

    pub closed spec fn rca_views(&self) -> Seq<Seq<Option<u128>>> {
        self.rca_tables@.map_values(|t: RcaTable| t@)
    }

    pub closed spec fn targets(&self) -> Seq<u64> {
        self.targets@
    }

    pub closed spec fn table(&self) -> Seq<Option<u64>> {
        self.table@
    }

    pub closed spec fn seed(&self) -> u64 {
        self.seed
    }

    pub closed spec fn max_iterations(&self) -> u32 {
        self.max_iterations
    }

    pub closed spec fn min_error(&self) -> u64 {
        self.min_error
    }

    pub closed spec fn expression_tolerance(&self) -> u64 {
        self.expression_tolerance
    }

    pub closed spec fn iteration(&self) -> u32 {
        self.iteration
    }

    pub closed spec fn stale(&self) -> u32 {
        self.stale
    }

    pub closed spec fn best(&self) -> Option<(u128, Seq<Codon>)> {
        match self.best {
            Some((e, c)) => Some((e, c@)),
            None => None,
        }
    }

    pub closed spec fn well_formed(&self) -> bool {
        &&& self.table.is_fractional()
        &&& all_fractional(self.hosts@)
        &&& self.hosts@.len() <= MAX_ORGANISMS
        &&& self.hosts@.len() == self.targets@.len()
        &&& self.hosts@.len() == self.rca_tables@.len()
        &&& self.stale <= self.iteration
        &&& forall|o: int| 0 <= o < self.rca_tables@.len() ==> (#[trigger] self.rca_tables@[o])@.len() == 64
        &&& match self.best {
            Some((e, c)) => protein_of(c@) == self.protein@,
            None => true,
        }
    }

    /// Prepares an optimisation: reads the query (DNA is translated), turns
    /// each host's counts into preferences, refines them, weighs the hosts
    /// (equally, or by `expression_targets`), averages their tables, and checks
    /// that every residue of the protein has a codon to draw.
    pub fn new(
        query: &str,
        usage: &Vec<CodonUsage>,
        expression_targets: &Vec<u8>,
        options: &OptimizationOptions,
    ) -> (r: Result<Optimizer, CoreError>)
        requires
            usage@.len() <= MAX_ORGANISMS,
            forall|o: int| 0 <= o < usage@.len() ==> (#[trigger] usage@[o]).valid(),
        ensures
            !all_amino_acids(query@) ==> r is Err && is_first_invalid(query@, r->Err_0),
            all_nucleotides(query@) && query@.len() % 3 != 0 ==> r == Err::<Optimizer, CoreError>(
                CoreError::NotDivisibleByThree,
            ),
            query_ok(query@) && !(0 < options.prohibited_preference_threshold < SCALE) ==> r
                == Err::<Optimizer, CoreError>(CoreError::InvalidThreshold),
            query_ok(query@) && 0 < options.prohibited_preference_threshold < SCALE && !weights_ok(
                usage@.len(),
                expression_targets@,
                options.equal_species,
            ) ==> r == Err::<Optimizer, CoreError>(CoreError::InvalidWeights),
            query_ok(query@) && 0 < options.prohibited_preference_threshold < SCALE && weights_ok(
                usage@.len(),
                expression_targets@,
                options.equal_species,
            ) ==> {
                let shared = shared_view(usage@, expression_targets@, *options);
                let protein = query_protein(query@);
                &&& (forall|k: int| 0 <= k < protein.len() ==> row_available(shared, #[trigger] protein[k]))
                    ==> r is Ok
                &&& forall|k: int|
                    #[trigger] first_unavailable(shared, protein, k) ==> r == Err::<
                        Optimizer,
                        CoreError,
                    >(CoreError::UnavailableResidue(protein[k]))
            },
            r is Ok ==> prepared(query@, usage@, expression_targets@, *options, r->Ok_0),
    {
        let kind = detect_sequence_type(query)?;
        proof {
            if all_nucleotides(query@) {
                lemma_nucleotides_decode(query@);
            }
        }
        let protein = match kind {
            SequenceType::Dna => {
                let translated = translate_dna_sequence(query)?;
                chars_of(translated.as_str())
            },
            SequenceType::Protein => chars_of(query),
        };
        let ghost fracs = Seq::new(usage@.len(), |o: int| fraction_view(usage@[o]@));
        let mut tables: Vec<PreferenceTable> = Vec::new();
        let mut o: usize = 0;
        while o < usage.len()
            invariant
                forall|k: int| 0 <= k < usage@.len() ==> (#[trigger] usage@[k]).valid(),
                fracs == Seq::new(usage@.len(), |k: int| fraction_view(usage@[k]@)),
                o <= usage@.len(),
                tables@.len() == o,
                all_fractional(tables@),
                forall|k: int| 0 <= k < o ==> #[trigger] tables@[k]@ == fracs[k],
            decreases usage@.len() - o,
        {
            assert(usage@[o as int].valid());
            let t = usage[o].fractions();
            proof {
                assert(t@ =~= fraction_view(usage@[o as int]@));
            }
            tables.push(t);
            o = o + 1;
        }
        assert(table_views(tables@) =~= fracs);
        let tau = options.prohibited_preference_threshold;
        let tol = options.variance_tolerance;
        let hosts = remove_prohibited_codons(&tables, tau, tol)?;
        let ghost hv = refined_views(fracs, tau, tol);
        assert(table_views(hosts@) =~= hv) by {
            assert forall|k: int| 0 <= k < hosts@.len() implies #[trigger] table_views(hosts@)[k]
                =~= hv[k] by {
                assert(hosts@[k]@.len() == 64) by {
                    assert(hosts@[k].is_fractional());
                }
            }
        }
        let targets = if options.equal_species {
            let t = equal_weights(hosts.len());
            assert(t@ =~= host_targets(usage@.len(), expression_targets@, true));
            t
        } else {
            let t = weights_from_expression(expression_targets)?;
            t
        };
        let table = build_averaged_table(&hosts, &targets)?;
        assert(table@ =~= averaged_view(hv, targets@));
        let mut rca_tables: Vec<RcaTable> = Vec::new();
        let mut o: usize = 0;
        while o < hosts.len()
            invariant
                all_fractional(hosts@),
                o <= hosts@.len(),
                rca_tables@.len() == o,
                forall|k: int|
                    0 <= k < o ==> #[trigger] rca_tables@[k]@ == Seq::new(
                        64,
                        |i: int| rcaxyz_entry(hosts@[k]@, i),
                    ),
            decreases hosts@.len() - o,
        {
            assert(hosts@[o as int].is_fractional());
            let rt = compute_rca_xyz_table(&hosts[o]);
            assert(rt@ =~= Seq::new(64, |i: int| rcaxyz_entry(hosts@[o as int]@, i)));
            rca_tables.push(rt);
            proof {
                assert forall|k: int| 0 <= k < o + 1 implies #[trigger] rca_tables@[k]@ == Seq::new(
                    64,
                    |i: int| rcaxyz_entry(hosts@[k]@, i),
                ) by {
                    if k < o {
                        assert(rca_tables@[k] == old_rca_at(rca_tables@, k));
                    }
                }
            }
            o = o + 1;
        }
        let opt = Optimizer {
            protein,
            hosts,
            rca_tables,
            targets,
            table,
            seed: options.seed,
            max_iterations: options.max_iterations,
            min_error: options.min_error,
            expression_tolerance: options.expression_tolerance,
            iteration: 0,
            stale: 0,
            best: None,
        };
        proof {
            assert(opt.rca_views() =~= Seq::new(
                usage@.len(),
                |o: int| Seq::new(64, |i: int| rcaxyz_entry(hv[o], i)),
            ));
        }
        assert(opt.table@ == shared_view(usage@, expression_targets@, *options));
        assert(opt.protein@ == query_protein(query@));
        opt.check_available()?;
        Ok(opt)
    }
}

impl Optimizer {
    /// Fails with `UnavailableResidue` on the first residue of the protein
    /// that has no codon to draw in the shared table.
    fn check_available(&self) -> (r: Result<(), CoreError>)
        requires
            self.table.is_fractional(),
        ensures
            r is Ok <==> forall|k: int|
                0 <= k < self.protein@.len() ==> row_available(self.table@, #[trigger] self.protein@[k]),
            forall|k: int|
                #[trigger] first_unavailable(self.table@, self.protein@, k) ==> r == Err::<(), CoreError>(
                    CoreError::UnavailableResidue(self.protein@[k]),
                ),
    {
        let mut k: usize = 0;
        while k < self.protein.len()
            invariant
                self.table.is_fractional(),
                k <= self.protein@.len(),
                forall|j: int| 0 <= j < k ==> row_available(self.table@, #[trigger] self.protein@[j]),
            decreases self.protein@.len() - k,
        {
            let aa = self.protein[k];
            if !row_is_available(&self.table, aa) {
                proof {
                    assert(first_unavailable(self.table@, self.protein@, k as int));
                    assert forall|j: int| #[trigger] first_unavailable(self.table@, self.protein@, j)
                        implies j == k by {
                        lemma_first_unavailable_unique(self.table@, self.protein@, j, k as int);
                    }
                }
                return Err(CoreError::UnavailableResidue(aa));
            }
            k = k + 1;
        }
        Ok(())
    }

    /// Draws the next candidate from the shared table, with the stream seeded
    /// by the options' seed plus the number of candidates scored so far.
    pub fn propose(&self) -> (r: Result<Vec<Codon>, CoreError>)
        requires
            self.well_formed(),
        ensures
            (forall|k: int| 0 <= k < self.protein().len() ==> row_available(self.table(), #[trigger] self.protein()[k]))
                ==> r is Ok && r->Ok_0@ == sampled(
                self.table(),
                self.protein(),
                self.seed().wrapping_add(self.iteration() as u64),
            ),
            r is Ok ==> protein_of(r->Ok_0@) == self.protein(),
    {
        let seed = self.seed.wrapping_add(self.iteration as u64);
        assert(seed == self.seed().wrapping_add(self.iteration() as u64));
        proof {
            if forall|k: int|
                0 <= k < self.protein().len() ==> row_available(
                    self.table(),
                    #[trigger] self.protein()[k],
                ) {
                assert forall|k: int| 0 <= k < self.protein@.len() implies row_available(
                    self.table@,
                    #[trigger] self.protein@[k],
                ) by {
                    assert(self.protein()[k] == self.protein@[k]);
                }
            }
        }
        sample_sequence(&self.protein, &self.table, seed)
    }

    /// Scores a candidate from the hosts' predicted expression (each the
    /// host's RCA over the least RCA, in units of `SCALE`): keeps it if its
    /// error is the least so far, and tells whether the search is over (error
    /// small enough, iterations used up, or no improvement for a while). If it
    /// goes on, blends the shared table toward each host whose expression
    /// deviates from its target.
    pub fn record(&mut self, candidate: Vec<Codon>, predicted: &Vec<u64>) -> (finished: bool)
        requires
            old(self).well_formed(),
            protein_of(candidate@) == old(self).protein(),
            predicted@.len() == old(self).targets().len(),
            old(self).iteration() < u32::MAX,
        ensures
            recorded(*old(self), candidate@, predicted@, *final(self), finished),
    {
        let ghost targets = self.targets@;
        let n = predicted.len();
        let mut e: u128 = 0;
        let mut o: usize = 0;
        while o < n
            invariant
                n == predicted@.len(),
                n == targets.len(),
                targets == self.targets@,
                n <= MAX_ORGANISMS,
                o <= n,
                e == error_sum(predicted@, targets, o as int),
                e <= o * 0x1_0000_0000_0000_0000_0000_0000_0000,
            decreases n - o,
        {
            let a = predicted[o];
            let b = self.targets[o];
            let d: u64 = if a >= b { a - b } else { b - a };
            proof {
                assert(d * d <= 0xffff_ffff_ffff_ffff * 0xffff_ffff_ffff_ffff) by (nonlinear_arith)
                    requires
                        d <= 0xffff_ffff_ffff_ffff,
                ;
                assert(d * d / (SCALE as int) <= 0x1_0000_0000_0000_0000_0000_0000_0000) by (nonlinear_arith)
                    requires
                        d * d <= 0xffff_ffff_ffff_ffff * 0xffff_ffff_ffff_ffff,
                ;
                assert(o * 0x1_0000_0000_0000_0000_0000_0000_0000 + 0x1_0000_0000_0000_0000_0000_0000_0000
                    == (o + 1) * 0x1_0000_0000_0000_0000_0000_0000_0000) by (nonlinear_arith);
                assert((o + 1) * 0x1_0000_0000_0000_0000_0000_0000_0000 <= 256 * 0x1_0000_0000_0000_0000_0000_0000_0000) by (nonlinear_arith)
                    requires
                        o < 256,
                ;
            }
            let dd = (d as u128) * (d as u128);
            e = e + dd / (SCALE as u128);
            o = o + 1;
        }
        self.iteration = self.iteration + 1;
        let improved = match &self.best {
            None => true,
            Some((best_e, _)) => e < *best_e,
        };
        if improved {
            self.best = Some((e, candidate));
            self.stale = 0;
        } else {
            self.stale = self.stale + 1;
        }
        let limit = if self.max_iterations / 64 > MIN_PATIENCE {
            self.max_iterations / 64
        } else {
            MIN_PATIENCE
        };
        let finished = e <= self.min_error as u128 || self.iteration >= self.max_iterations
            || self.stale >= limit;
        if !finished {
            self.adjust(predicted);
        }
        finished
    }
}

impl Optimizer {
    /// Blends the shared table toward each host whose expression deviates.
    fn adjust(&mut self, predicted: &Vec<u64>)
        requires
            old(self).table.is_fractional(),
            all_fractional(old(self).hosts@),
            old(self).hosts@.len() <= MAX_ORGANISMS,
            predicted@.len() == old(self).targets@.len(),
            predicted@.len() == old(self).hosts@.len(),
        ensures
            final(self).table.is_fractional(),
            final(self).table@ == blended(
                old(self).table@,
                table_views(old(self).hosts@),
                deviations(predicted@, old(self).targets@, old(self).expression_tolerance),
                predicted@.len() as int,
            ),
            final(self).protein == old(self).protein,
            final(self).hosts == old(self).hosts,
            final(self).rca_tables == old(self).rca_tables,
            final(self).targets == old(self).targets,
            final(self).seed == old(self).seed,
            final(self).max_iterations == old(self).max_iterations,
            final(self).min_error == old(self).min_error,
            final(self).expression_tolerance == old(self).expression_tolerance,
            final(self).iteration == old(self).iteration,
            final(self).stale == old(self).stale,
            final(self).best == old(self).best,
    {
        let n = predicted.len();
        let ghost dev = deviations(predicted@, self.targets@, self.expression_tolerance);
        let ghost hv = table_views(self.hosts@);
        let ghost start = self.table@;
        let spread: u128 = if n > 1 { (n - 1) as u128 } else { 1 };
        let mut o: usize = 0;
        while o < n
            invariant
                n == predicted@.len(),
                n == self.targets@.len(),
                n == self.hosts@.len(),
                n <= MAX_ORGANISMS,
                all_fractional(self.hosts@),
                hv == table_views(self.hosts@),
                dev == deviations(predicted@, self.targets@, self.expression_tolerance),
                spread == (if n > 1 { n - 1 } else { 1 }),
                o <= n,
                self.table.is_fractional(),
                self.table@ == blended(start, hv, dev, o as int),
                self.protein == old(self).protein,
                self.hosts == old(self).hosts,
                self.rca_tables == old(self).rca_tables,
                self.targets == old(self).targets,
                self.seed == old(self).seed,
                self.max_iterations == old(self).max_iterations,
                self.min_error == old(self).min_error,
                self.expression_tolerance == old(self).expression_tolerance,
                self.iteration == old(self).iteration,
                self.stale == old(self).stale,
                self.best == old(self).best,
                start == old(self).table@,
            decreases n - o,
        {
            let a = predicted[o];
            let b = self.targets[o];
            let d: u64 = if a >= b { a - b } else { b - a };
            assert(d * spread <= 0xffff_ffff_ffff_ffff * 256) by (nonlinear_arith)
                requires
                    d <= 0xffff_ffff_ffff_ffff,
                    spread <= 256,
            ;
            if (d as u128) * spread > self.expression_tolerance as u128 {
                assert(dev[o as int]);
                assert(self.hosts@[o as int].is_fractional());
                let t = blend_tables(&self.table, &self.hosts[o]);
                self.table = t;
                assert(self.table@ =~= blended(start, hv, dev, o + 1));
            } else {
                assert(!dev[o as int]);
            }
            o = o + 1;
        }
    }
}

/// Blends `table` toward `host`, entry by entry.
fn blend_tables(table: &PreferenceTable, host: &PreferenceTable) -> (r: PreferenceTable)
    requires
        table.is_fractional(),
        host.is_fractional(),
    ensures
        r.is_fractional(),
        forall|i: int| 0 <= i < 64 ==> #[trigger] r@[i] == blend_entry(table@[i], host@[i]),
{
    let mut r = PreferenceTable::new_empty();
    let mut i: u8 = 0;
    while i < 64
        invariant
            table.is_fractional(),
            host.is_fractional(),
            r.is_fractional(),
            i <= 64,
            forall|k: int| 0 <= k < i ==> #[trigger] r@[k] == blend_entry(table@[k], host@[k]),
            forall|k: int| i <= k < 64 ==> #[trigger] r@[k] is None,
        decreases 64 - i,
    {
        let c = Codon::from_ordinal(i);
        let a = table.get(c);
        let b = host.get(c);
        let e = if a.is_none() && b.is_none() {
            None
        } else {
            let x: u64 = match a {
                Some(v) => v,
                None => 0,
            };
            let y: u64 = match b {
                Some(v) => v,
                None => 0,
            };
            assert(x <= SCALE && y <= SCALE);
            Some(((100 - BLEND_PERCENT) * x + BLEND_PERCENT * y) / 100)
        };
        r.set(c, e);
        i = i + 1;
    }
    r
}

impl Optimizer {
    /// The number of hosts.
    pub fn host_count(&self) -> (r: usize)
        requires
            self.well_formed(),
        ensures
            r == self.targets().len(),
            r == self.rca_views().len(),
    {
        self.targets.len()
    }

    /// The RCAxyz table of host `o`.
    pub fn rca_table(&self, o: usize) -> (r: &RcaTable)
        requires
            self.well_formed(),
            o < self.rca_views().len(),
        ensures
            r@ == self.rca_views()[o as int],
            r@.len() == 64,
    {
        &self.rca_tables[o]
    }

    /// How many candidates have been scored.
    pub fn iterations(&self) -> (r: u32)
        ensures
            r == self.iteration(),
    {
        self.iteration
    }

    /// The best candidate so far and its error, if one has been scored.
    pub fn best_candidate(&self) -> (r: Option<(u128, Vec<Codon>)>)
        ensures
            match r {
                Some((e, c)) => self.best() == Some((e, c@)),
                None => self.best() is None,
            },
    {
        match &self.best {
            Some((e, c)) => Some((*e, copy_codons(c))),
            None => None,
        }
    }
}

fn copy_codons(cs: &Vec<Codon>) -> (r: Vec<Codon>)
    ensures
        r@ == cs@,
{
    let mut r: Vec<Codon> = Vec::new();
    let mut k: usize = 0;
    while k < cs.len()
        invariant
            k <= cs@.len(),
            r@ == cs@.subrange(0, k as int),
        decreases cs@.len() - k,
    {
        r.push(cs[k]);
        k = k + 1;
    }
    r
}

/// What a single-organism optimisation returns: the DNA, its translation, the
/// number of candidates drawn, and the terms of the DNA's RCA for the organism.
pub struct SingleOrganismResult {
    pub seq: String,
    pub translated_seq: String,
    pub iterations: u32,
    pub rca_factors: Vec<u128>,
    pub rca_codons: usize,
}

/// Draws one candidate for the query from one organism's table, with the
/// stream seeded by `seed`, and reads it back.
pub fn optimize_for_single_organism(query: &str, codon_usage: &PreferenceTable, seed: u64) -> (r:
    Result<SingleOrganismResult, CoreError>)
    requires
        codon_usage.is_fractional(),
    ensures
        !all_amino_acids(query@) ==> r is Err && is_first_invalid(query@, r->Err_0),
        all_nucleotides(query@) && query@.len() % 3 != 0 ==> r == Err::<
            SingleOrganismResult,
            CoreError,
        >(CoreError::NotDivisibleByThree),
        query_ok(query@) && (forall|k: int|
            0 <= k < query_protein(query@).len() ==> row_available(
                codon_usage@,
                #[trigger] query_protein(query@)[k],
            )) ==> r is Ok,
        query_ok(query@) ==> forall|k: int|
            #[trigger] first_unavailable(codon_usage@, query_protein(query@), k) ==> r == Err::<
                SingleOrganismResult,
                CoreError,
            >(CoreError::UnavailableResidue(query_protein(query@)[k])),
        r is Ok ==> {
            let res = r->Ok_0;
            let cs = sampled(codon_usage@, query_protein(query@), seed);
            &&& query_ok(query@)
            &&& forall|k: int|
                0 <= k < query_protein(query@).len() ==> row_available(
                    codon_usage@,
                    #[trigger] query_protein(query@)[k],
                )
            &&& res.seq@ == dna_of(cs)
            &&& res.translated_seq@ == query_protein(query@)
            &&& res.iterations == 1
            &&& res.rca_factors@ == rca_factors(cs, Seq::new(64, |i: int| rcaxyz_entry(codon_usage@, i)))
            &&& res.rca_codons == cs.len()
        },
{
    let kind = detect_sequence_type(query)?;
    proof {
        if all_nucleotides(query@) {
            lemma_nucleotides_decode(query@);
        }
    }
    let protein = match kind {
        SequenceType::Dna => {
            let translated = translate_dna_sequence(query)?;
            chars_of(translated.as_str())
        },
        SequenceType::Protein => chars_of(query),
    };
    assert(protein@ == query_protein(query@));
    let rca_table = compute_rca_xyz_table(codon_usage);
    let cs = match sample_sequence(&protein, codon_usage, seed) {
        Ok(cs) => cs,
        Err(e) => {
            proof {
                let k0 = choose|k: int|
                    first_unavailable(codon_usage@, protein@, k) && e == CoreError::UnavailableResidue(
                        protein@[k],
                    );
                assert forall|k: int| #[trigger] first_unavailable(codon_usage@, protein@, k)
                    implies k == k0 by {
                    lemma_first_unavailable_unique(codon_usage@, protein@, k, k0);
                }
            }
            return Err(e);
        },
    };
    let seq = spell_codons(&cs);
    proof {
        lemma_translate_dna_of(cs@);
        lemma_codons_of_dna(cs@);
    }
    let translated_seq = translate_dna_sequence(seq.as_str())?;
    let (rca_factors, rca_codons) = compute_rca_terms(seq.as_str(), &rca_table)?;
    proof {
        assert(rca_table@ =~= Seq::new(64, |i: int| rcaxyz_entry(codon_usage@, i)));
    }
    Ok(SingleOrganismResult { seq, translated_seq, iterations: 1, rca_factors, rca_codons })
}

/// Reading back the spelling of a codon sequence gives the same codons.
pub proof fn lemma_codons_of_dna(cs: Seq<Codon>)
    ensures
        codons_of(dna_of(cs)) == cs,
{
    lemma_dna_of_triplets(cs);
    assert forall|k: int| 0 <= k < cs.len() implies #[trigger] codons_of(dna_of(cs))[k] == cs[k] by {
        lemma_decode_spelling(cs[k]);
    }
    assert(codons_of(dna_of(cs)) =~= cs);
}

spec fn old_rca_at(s: Seq<RcaTable>, k: int) -> RcaTable {
    s[k]
}

} // verus!
