//! The batch experiment driver.
//!
//! An experiment names a list of parameter axes (species, chemical,
//! variable, min/max/step), a list of export columns, and an iteration
//! count.  The driver walks the Cartesian product of the axes: at each leaf
//! it seeds the grid randomly, runs the iterations under the clock, and
//! assembles one semicolon-separated row of the requested columns; one
//! header row precedes the sweep.  Values are fixed-point thousandths
//! throughout, and the row count is exactly the product over axes of
//! floor((max - min) / step) + 1 (zero for an empty axis).

use vstd::prelude::*;
use vstd::string::StringSliceAdditionalSpecFns;

use crate::chem::{config_ok, group_ok, CAChemicalGroup};
use crate::kernel::CellularAutomaton3D;
use crate::numfmt::{dec_digits, eps_milli, eps_milli_exec, fmt_fixed, push_digits, push_fixed};
use crate::{INFLUENCE_MAX, RANGE_MAX};

verus! {

/// Which chemical of the species an axis varies.
#[derive(Clone, Copy, PartialEq, Eq, Structural, Debug)]
pub enum BatchChemical {
    Promotor,
    Demotor,
}

/// Which field of that chemical the axis varies.
#[derive(Clone, Copy, PartialEq, Eq, Structural, Debug)]
pub enum BatchVariable {
    Range,
    Influence,
}

/// One exportable column group.
#[derive(Clone, Copy, PartialEq, Eq, Structural, Debug)]
pub enum BatchAttribute {
    NumberOfSpecies,
    ChemValues,
    OrderParameter,
    OrderParameterEvolution,
    Iterations,
    SimulationTime,
}

/// One parameter axis: vary the named variable of the named chemical of the
/// named species from min to max in steps of step (all in thousandths).
#[derive(Clone, Copy, PartialEq, Eq, Structural, Debug)]
pub struct BatchEntry {
    pub species: usize,
    pub chemical: BatchChemical,
    pub variable: BatchVariable,
    pub min: i64,
    pub max: i64,
    pub step: i64,
}

/// One requested export column group.
#[derive(Clone, Copy, PartialEq, Eq, Structural, Debug)]
pub struct BatchExportEntry {
    pub attribute: BatchAttribute,
}

/// A whole experiment: the axes, the export columns, the per-leaf iteration
/// count, and whether the decimal separator is a comma.
pub struct BatchExperiment {
    pub entries: Vec<BatchEntry>,
    pub export_entries: Vec<BatchExportEntry>,
    pub iterations: usize,
    pub decimal_comma: bool,
}

/// An axis is admissible for a k-species engine when it names an existing
/// species, steps forward, and stays within the admissible parameter range
/// of the field it varies.
pub open spec fn entry_ok(e: BatchEntry, k: int) -> bool {
    &&& e.species < k
    &&& 1 <= e.step <= INFLUENCE_MAX
    &&& match e.variable {
        BatchVariable::Range => 0 <= e.min && e.max <= RANGE_MAX,
        BatchVariable::Influence => -INFLUENCE_MAX <= e.min && e.max <= INFLUENCE_MAX,
    }
}

/// An experiment is admissible when every axis is and the iteration count
/// fits the engine's counter.
pub open spec fn experiment_ok(entries: Seq<BatchEntry>, iterations: int, k: int) -> bool {
    &&& forall|i: int| 0 <= i < entries.len() ==> entry_ok(#[trigger] entries[i], k)
    &&& 0 <= iterations <= u32::MAX as int
}

/// How many values one axis takes: floor((max - min) / step) + 1, or zero
/// when the axis is empty.
pub open spec fn axis_count(e: BatchEntry) -> int {
    if e.min > e.max {
        0
    } else {
        (e.max - e.min) / (e.step as int) + 1
    }
}

/// How many leaves (result rows) a sweep over these axes produces: the
/// product of the axis counts.
pub open spec fn leaf_count(entries: Seq<BatchEntry>) -> int
    decreases entries.len(),
{
    if entries.len() == 0 {
        1
    } else {
        axis_count(entries[0]) * leaf_count(entries.subrange(1, entries.len() as int))
    }
}

/// A semicolon, the column separator.
pub open spec fn semi() -> Seq<u8> {
    seq![59u8]
}

/// The row terminator.
pub open spec fn crlf() -> Seq<u8> {
    seq![13u8, 10u8]
}

/// The header cells of the per-species chemical values, for species
/// 0 .. i: range and influence of the promotor, then of the demotor.
pub open spec fn chem_header_upto(i: int) -> Seq<u8>
    decreases i,
{
    if i <= 0 {
        Seq::empty()
    } else {
        chem_header_upto(i - 1) + "S".spec_bytes() + dec_digits((i - 1) as nat)
            + " Promotor Range".spec_bytes() + semi() + "S".spec_bytes() + dec_digits(
            (i - 1) as nat,
        ) + " Promotor Influence".spec_bytes() + semi() + "S".spec_bytes() + dec_digits(
            (i - 1) as nat,
        ) + " Demotor Range".spec_bytes() + semi() + "S".spec_bytes() + dec_digits((i - 1) as nat)
            + " Demotor Influence".spec_bytes() + semi()
    }
}

/// The header cells of the order-parameter evolution: one per iteration.
pub open spec fn evolution_header_upto(i: int) -> Seq<u8>
    decreases i,
{
    if i <= 0 {
        Seq::empty()
    } else {
        evolution_header_upto(i - 1) + "OP iter ".spec_bytes() + dec_digits((i - 1) as nat)
            + semi()
    }
}

/// The header cell(s) of one export attribute.
pub open spec fn types_cell(attr: BatchAttribute, k: int, iterations: int) -> Seq<u8> {
    match attr {
        BatchAttribute::NumberOfSpecies => "Number or species".spec_bytes() + semi(),
        BatchAttribute::ChemValues => chem_header_upto(k),
        BatchAttribute::OrderParameter => "Order parameter".spec_bytes() + semi(),
        BatchAttribute::OrderParameterEvolution => evolution_header_upto(iterations),
        BatchAttribute::Iterations => "Number of iterations".spec_bytes() + semi(),
        BatchAttribute::SimulationTime => "Simulation time".spec_bytes() + semi(),
    }
}

/// The header cells of the first i export entries.
pub open spec fn types_row_upto(
    exports: Seq<BatchExportEntry>,
    k: int,
    iterations: int,
    i: int,
) -> Seq<u8>
    decreases i,
{
    if i <= 0 {
        Seq::empty()
    } else {
        types_row_upto(exports, k, iterations, i - 1) + types_cell(
            exports[i - 1].attribute,
            k,
            iterations,
        )
    }
}

/// The whole header row.
pub open spec fn types_row(exports: Seq<BatchExportEntry>, k: int, iterations: int) -> Seq<u8> {
    types_row_upto(exports, k, iterations, exports.len() as int) + crlf()
}

/// The chemical-value cells of the first i species: promote range and
/// influence, then demote range and influence, in thousandths.
pub open spec fn chem_values_upto(cfg: Seq<CAChemicalGroup>, comma: bool, i: int) -> Seq<u8>
    decreases i,
{
    if i <= 0 {
        Seq::empty()
    } else {
        chem_values_upto(cfg, comma, i - 1) + fmt_fixed(cfg[i - 1].promote.range as int, comma)
            + semi() + fmt_fixed(cfg[i - 1].promote.influence as int, comma) + semi() + fmt_fixed(
            cfg[i - 1].demote.range as int,
            comma,
        ) + semi() + fmt_fixed(cfg[i - 1].demote.influence as int, comma) + semi()
    }
}

/// The first i components of one order-parameter record, each normalised to
/// thousandths.
pub open spec fn op_cells_upto(entry: Seq<i64>, denom: int, comma: bool, i: int) -> Seq<u8>
    decreases i,
{
    if i <= 0 {
        Seq::empty()
    } else {
        op_cells_upto(entry, denom, comma, i - 1) + fmt_fixed(
            eps_milli(entry[i - 1] as int, denom),
            comma,
        ) + semi()
    }
}

/// The order-parameter evolution cells of the first i records, in iteration
/// order, each record flattened component by component.
pub open spec fn op_evolution_upto(hist: Seq<Seq<i64>>, denom: int, comma: bool, i: int) -> Seq<
    u8,
>
    decreases i,
{
    if i <= 0 {
        Seq::empty()
    } else {
        op_evolution_upto(hist, denom, comma, i - 1) + op_cells_upto(
            hist[i - 1],
            denom,
            comma,
            hist[i - 1].len() as int,
        )
    }
}

/// The data cell(s) of one export attribute.
pub open spec fn results_cell(
    attr: BatchAttribute,
    cfg: Seq<CAChemicalGroup>,
    hist: Seq<Seq<i64>>,
    iters: u32,
    ms: i64,
    denom: int,
    comma: bool,
) -> Seq<u8> {
    match attr {
        BatchAttribute::NumberOfSpecies => dec_digits(cfg.len()) + semi(),
        BatchAttribute::ChemValues => chem_values_upto(cfg, comma, cfg.len() as int),
        BatchAttribute::OrderParameter => op_cells_upto(
            hist.last(),
            denom,
            comma,
            hist.last().len() as int,
        ),
        BatchAttribute::OrderParameterEvolution => op_evolution_upto(
            hist,
            denom,
            comma,
            hist.len() as int,
        ),
        BatchAttribute::Iterations => dec_digits(iters as nat) + semi(),
        BatchAttribute::SimulationTime => fmt_fixed(ms as int, comma) + semi(),
    }
}

/// The data cells of the first i export entries.
pub open spec fn results_row_upto(
    exports: Seq<BatchExportEntry>,
    cfg: Seq<CAChemicalGroup>,
    hist: Seq<Seq<i64>>,
    iters: u32,
    ms: i64,
    denom: int,
    comma: bool,
    i: int,
) -> Seq<u8>
    decreases i,
{
    if i <= 0 {
        Seq::empty()
    } else {
        results_row_upto(exports, cfg, hist, iters, ms, denom, comma, i - 1) + results_cell(
            exports[i - 1].attribute,
            cfg,
            hist,
            iters,
            ms,
            denom,
            comma,
        )
    }
}

/// One whole data row.
pub open spec fn results_row(
    exports: Seq<BatchExportEntry>,
    cfg: Seq<CAChemicalGroup>,
    hist: Seq<Seq<i64>>,
    iters: u32,
    ms: i64,
    denom: int,
    comma: bool,
) -> Seq<u8> {
    results_row_upto(exports, cfg, hist, iters, ms, denom, comma, exports.len() as int) + crlf()
}

/// The value of one sweepable parameter slot of the configuration: the
/// field of species sp named by the chemical/variable pair.
pub open spec fn slot_value(
    cfg: Seq<CAChemicalGroup>,
    sp: int,
    c: BatchChemical,
    v: BatchVariable,
) -> int {
    match (c, v) {
        (BatchChemical::Promotor, BatchVariable::Range) => cfg[sp].promote.range as int,
        (BatchChemical::Promotor, BatchVariable::Influence) => cfg[sp].promote.influence as int,
        (BatchChemical::Demotor, BatchVariable::Range) => cfg[sp].demote.range as int,
        (BatchChemical::Demotor, BatchVariable::Influence) => cfg[sp].demote.influence as int,
    }
}

/// Whether some axis of the list sweeps the given slot.
pub open spec fn addresses(
    entries: Seq<BatchEntry>,
    sp: int,
    c: BatchChemical,
    v: BatchVariable,
) -> bool {
    exists|i: int|
        0 <= i < entries.len() && (#[trigger] entries[i]).species == sp && entries[i].chemical
            == c && entries[i].variable == v
}

/// Whether two axes sweep the same slot.
pub open spec fn same_slot(a: BatchEntry, b: BatchEntry) -> bool {
    a.species == b.species && a.chemical == b.chemical && a.variable == b.variable
}

/// Whether no axis after position i sweeps the same slot as axis i.
pub open spec fn no_later_same_slot(entries: Seq<BatchEntry>, i: int) -> bool {
    forall|i2: int| i < i2 < entries.len() ==> !same_slot(entries[i], #[trigger] entries[i2])
}

/// The last value a non-empty axis applies: min plus the largest whole
/// number of steps that stays at or below max.
pub open spec fn axis_last_value(e: BatchEntry) -> int {
    e.min + ((e.max - e.min) / (e.step as int)) * e.step
}

/// A row the sweep may emit: the rendered result row of some admissible
/// configuration of the engine's species count, some history of one record
/// per iteration plus the seeded state, and some non-negative wall-clock
/// reading.
pub open spec fn is_leaf_row(
    row: Seq<u8>,
    exports: Seq<BatchExportEntry>,
    k: int,
    n: int,
    iterations: int,
    comma: bool,
) -> bool {
    exists|cfg: Seq<CAChemicalGroup>, hist: Seq<Seq<i64>>, ms: i64|
        config_ok(cfg) && cfg.len() == k && hist.len() == iterations + 1 && 0 <= ms && row
            == #[trigger] results_row(
            exports,
            cfg,
            hist,
            iterations as u32,
            ms,
            6 * (n * n * n),
            comma,
        )
}

/// A sweep over no axes has one leaf; otherwise the count is a product of
/// non-negative axis counts, so it is never negative.
pub proof fn lemma_leaf_count_nonneg(entries: Seq<BatchEntry>)
    requires
        forall|i: int| 0 <= i < entries.len() ==> 1 <= (#[trigger] entries[i]).step,
    ensures
        0 <= leaf_count(entries),
    decreases entries.len(),
{
    if entries.len() > 0 {
        let rest = entries.subrange(1, entries.len() as int);
        assert forall|i: int| 0 <= i < rest.len() implies 1 <= (#[trigger] rest[i]).step by {
            assert(rest[i] == entries[i + 1]);
        }
        lemma_leaf_count_nonneg(rest);
        if entries[0].min <= entries[0].max {
            vstd::arithmetic::div_mod::lemma_div_pos_is_pos(
                entries[0].max - entries[0].min,
                entries[0].step as int,
            );
        }
        assert(0 <= axis_count(entries[0]) * leaf_count(rest)) by (nonlinear_arith)
            requires
                0 <= axis_count(entries[0]),
                0 <= leaf_count(rest),
        ;
    }
}

/// Whether any export entry reads the order-parameter history.
pub open spec fn needs_history(exports: Seq<BatchExportEntry>) -> bool {
    exists|i: int|
        0 <= i < exports.len() && ((#[trigger] exports[i]).attribute
            == BatchAttribute::OrderParameter || exports[i].attribute
            == BatchAttribute::OrderParameterEvolution)
}

/// Append the bytes of an ASCII or UTF-8 string slice.
fn push_str_bytes(out: &mut Vec<u8>, s: &str)
    ensures
        final(out)@ == old(out)@ + s.spec_bytes(),
{
    let b = s.as_bytes();
    let mut i: usize = 0;
    while i < b.len()
        invariant
            i <= b@.len(),
            b@ == s.spec_bytes(),
            out@ == old(out)@ + b@.take(i as int),
        decreases b@.len() - i,
    {
        out.push(b[i]);
        i = i + 1;
        proof {
            assert(out@ =~= old(out)@ + b@.take(i as int));
        }
    }
    proof {
        assert(old(out)@ + b@.take(b@.len() as int) =~= old(out)@ + b@);
    }
}

/// The header row for an experiment: one cell group per export entry,
/// naming its columns.
#[verifier::rlimit(100)]
pub fn write_types(automaton: &CellularAutomaton3D, experiment: &BatchExperiment) -> (r: Vec<u8>)
    requires
        automaton.wf(),
        experiment.iterations <= 0xffff_ffff,
    ensures
        r@ == types_row(
            experiment.export_entries@,
            automaton.spec_k(),
            experiment.iterations as int,
        ),
{
    let k = automaton.chemicals.len();
    let iters = experiment.iterations;
    let mut out: Vec<u8> = Vec::new();
    let mut e: usize = 0;
    while e < experiment.export_entries.len()
        invariant
            automaton.wf(),
            k == automaton.spec_k(),
            iters == experiment.iterations,
            iters <= 0xffff_ffff,
            e <= experiment.export_entries@.len(),
            out@ == types_row_upto(experiment.export_entries@, k as int, iters as int, e as int),
        decreases experiment.export_entries@.len() - e,
    {
        let attr = experiment.export_entries[e].attribute;
        match attr {
            BatchAttribute::NumberOfSpecies => {
                push_str_bytes(&mut out, "Number or species");
                out.push(59u8);
            },
            BatchAttribute::ChemValues => {
                let mut i: usize = 0;
                proof {
                    assert(out@ =~= types_row_upto(
                        experiment.export_entries@,
                        k as int,
                        iters as int,
                        e as int,
                    ) + chem_header_upto(0));
                }
                while i < k
                    invariant
                        i <= k,
                        out@ == types_row_upto(
                            experiment.export_entries@,
                            k as int,
                            iters as int,
                            e as int,
                        ) + chem_header_upto(i as int),
                    decreases k - i,
                {
                    push_str_bytes(&mut out, "S");
                    push_digits(&mut out, i as u64);
                    push_str_bytes(&mut out, " Promotor Range");
                    out.push(59u8);
                    push_str_bytes(&mut out, "S");
                    push_digits(&mut out, i as u64);
                    push_str_bytes(&mut out, " Promotor Influence");
                    out.push(59u8);
                    push_str_bytes(&mut out, "S");
                    push_digits(&mut out, i as u64);
                    push_str_bytes(&mut out, " Demotor Range");
                    out.push(59u8);
                    push_str_bytes(&mut out, "S");
                    push_digits(&mut out, i as u64);
                    push_str_bytes(&mut out, " Demotor Influence");
                    out.push(59u8);
                    i = i + 1;
                    proof {
                        assert(out@ =~= types_row_upto(
                            experiment.export_entries@,
                            k as int,
                            iters as int,
                            e as int,
                        ) + chem_header_upto(i as int));
                    }
                }
            },
            BatchAttribute::OrderParameter => {
                push_str_bytes(&mut out, "Order parameter");
                out.push(59u8);
            },
            BatchAttribute::OrderParameterEvolution => {
                let mut i: usize = 0;
                proof {
                    assert(out@ =~= types_row_upto(
                        experiment.export_entries@,
                        k as int,
                        iters as int,
                        e as int,
                    ) + evolution_header_upto(0));
                }
                while i < iters
                    invariant
                        i <= iters,
                        iters <= 0xffff_ffff,
                        out@ == types_row_upto(
                            experiment.export_entries@,
                            k as int,
                            iters as int,
                            e as int,
                        ) + evolution_header_upto(i as int),
                    decreases iters - i,
                {
                    push_str_bytes(&mut out, "OP iter ");
                    push_digits(&mut out, i as u64);
                    out.push(59u8);
                    i = i + 1;
                    proof {
                        assert(out@ =~= types_row_upto(
                            experiment.export_entries@,
                            k as int,
                            iters as int,
                            e as int,
                        ) + evolution_header_upto(i as int));
                    }
                }
            },
            BatchAttribute::Iterations => {
                push_str_bytes(&mut out, "Number of iterations");
                out.push(59u8);
            },
            BatchAttribute::SimulationTime => {
                push_str_bytes(&mut out, "Simulation time");
                out.push(59u8);
            },
        }
        e = e + 1;
        proof {
            assert(out@ =~= types_row_upto(
                experiment.export_entries@,
                k as int,
                iters as int,
                e as int,
            ));
        }
    }
    out.push(13u8);
    out.push(10u8);
    proof {
        assert(out@ =~= types_row(
            experiment.export_entries@,
            automaton.spec_k(),
            experiment.iterations as int,
        ));
    }
    out
}

/// One data row for the engine's present state: the requested columns, in
/// order, semicolon-separated, ending in CRLF.
#[verifier::rlimit(100)]
#[verifier::spinoff_prover]
pub fn write_results(
    automaton: &CellularAutomaton3D,
    experiment: &BatchExperiment,
    sim_ms: i64,
) -> (r: Vec<u8>)
    requires
        automaton.wf(),
        sim_ms >= 0,
        needs_history(experiment.export_entries@) ==> automaton.history().len() > 0,
    ensures
        r@ == results_row(
            experiment.export_entries@,
            automaton.chemicals@,
            automaton.history(),
            automaton.iteration_count,
            sim_ms,
            6 * (automaton.spec_size() * automaton.spec_size() * automaton.spec_size()),
            experiment.decimal_comma,
        ),
{
    let k = automaton.chemicals.len();
    let n = automaton.size();
    proof {
        crate::grid::lemma_flat_idx_exec_bounds(n as int, 0, n as int - 1, n as int - 1);
    }
    let denom: i64 = 6 * ((n * n * n) as i64);
    let comma = experiment.decimal_comma;
    let ghost hist = automaton.history();
    let mut out: Vec<u8> = Vec::new();
    let mut e: usize = 0;
    while e < experiment.export_entries.len()
        invariant
            automaton.wf(),
            k == automaton.spec_k(),
            n == automaton.spec_size(),
            denom == 6 * (n as int * n as int * n as int),
            6 <= denom <= 0x8000_0000,
            comma == experiment.decimal_comma,
            sim_ms >= 0,
            hist == automaton.history(),
            needs_history(experiment.export_entries@) ==> hist.len() > 0,
            e <= experiment.export_entries@.len(),
            out@ == results_row_upto(
                experiment.export_entries@,
                automaton.chemicals@,
                hist,
                automaton.iteration_count,
                sim_ms,
                denom as int,
                comma,
                e as int,
            ),
        decreases experiment.export_entries@.len() - e,
    {
        let ghost prefix = out@;
        let attr = experiment.export_entries[e].attribute;
        match attr {
            BatchAttribute::NumberOfSpecies => {
                push_digits(&mut out, k as u64);
                out.push(59u8);
            },
            BatchAttribute::ChemValues => {
                let mut i: usize = 0;
                proof {
                    assert(out@ =~= prefix + chem_values_upto(automaton.chemicals@, comma, 0));
                }
                while i < k
                    invariant
                        automaton.wf(),
                        k == automaton.spec_k(),
                        comma == experiment.decimal_comma,
                        i <= k,
                        out@ == prefix + chem_values_upto(automaton.chemicals@, comma, i as int),
                    decreases k - i,
                {
                    let grp = automaton.chemicals[i];
                    proof {
                        assert(group_ok(automaton.chemicals@[i as int]));
                    }
                    push_fixed(&mut out, grp.promote.range, comma);
                    out.push(59u8);
                    push_fixed(&mut out, grp.promote.influence, comma);
                    out.push(59u8);
                    push_fixed(&mut out, grp.demote.range, comma);
                    out.push(59u8);
                    push_fixed(&mut out, grp.demote.influence, comma);
                    out.push(59u8);
                    i = i + 1;
                    proof {
                        assert(out@ =~= prefix + chem_values_upto(
                            automaton.chemicals@,
                            comma,
                            i as int,
                        ));
                    }
                }
            },
            BatchAttribute::OrderParameter => {
                proof {
                    assert(needs_history(experiment.export_entries@));
                }
                let m = automaton.order_parameter.len();
                let entry = &automaton.order_parameter[m - 1];
                proof {
                    assert(hist.last() == entry@);
                    assert(out@ =~= prefix + op_cells_upto(hist.last(), denom as int, comma, 0));
                }
                let mut j: usize = 0;
                while j < entry.len()
                    invariant
                        automaton.wf(),
                        1 <= m == automaton.order_parameter@.len(),
                        entry@ == automaton.order_parameter@[m - 1]@,
                        entry@ == hist.last(),
                        6 <= denom <= 0x8000_0000,
                        denom == 6 * (automaton.spec_size() * automaton.spec_size()
                            * automaton.spec_size()),
                        comma == experiment.decimal_comma,
                        j <= entry@.len(),
                        out@ == prefix + op_cells_upto(hist.last(), denom as int, comma, j as int),
                    decreases entry@.len() - j,
                {
                    let v = entry[j];
                    proof {
                        assert(denom == 6 * (automaton.spec_size() * automaton.spec_size()
                            * automaton.spec_size()));
                        assert(entry@.len() == automaton.spec_k() + 1);
                        assert(0 <= j < automaton.spec_k() + 1);
                        assert(v == automaton.order_parameter@[m - 1]@[j as int]);
                        assert(-6 * (automaton.spec_size() * automaton.spec_size()
                            * automaton.spec_size()) <= automaton.order_parameter@[m - 1]@[j as int]
                            <= 6 * (automaton.spec_size() * automaton.spec_size()
                            * automaton.spec_size()));
                        let ghost s3: int = automaton.spec_size() * automaton.spec_size()
                            * automaton.spec_size();
                        assert(denom == 6 * s3);
                        assert(-6 * s3 <= v);
                        assert(v <= 6 * s3);
                        assert(-denom <= v <= denom) by (nonlinear_arith)
                            requires
                                denom == 6 * s3,
                                -6 * s3 <= v,
                                v <= 6 * s3,
                        ;
                    }
                    let eps = eps_milli_exec(v, denom);
                    push_fixed(&mut out, eps, comma);
                    out.push(59u8);
                    j = j + 1;
                    proof {
                        assert(out@ =~= prefix + op_cells_upto(
                            hist.last(),
                            denom as int,
                            comma,
                            j as int,
                        ));
                    }
                }
            },
            BatchAttribute::OrderParameterEvolution => {
                let m = automaton.order_parameter.len();
                let mut i: usize = 0;
                proof {
                    assert(out@ =~= prefix + op_evolution_upto(hist, denom as int, comma, 0));
                }
                while i < m
                    invariant
                        automaton.wf(),
                        hist == automaton.history(),
                        m == automaton.order_parameter@.len(),
                        6 <= denom <= 0x8000_0000,
                        denom == 6 * (automaton.spec_size() * automaton.spec_size()
                            * automaton.spec_size()),
                        comma == experiment.decimal_comma,
                        i <= m,
                        out@ == prefix + op_evolution_upto(hist, denom as int, comma, i as int),
                    decreases m - i,
                {
                    let entry = &automaton.order_parameter[i];
                    let ghost evprefix = out@;
                    proof {
                        assert(hist[i as int] == entry@);
                        assert(entry@ == automaton.order_parameter@[i as int]@);
                        assert(out@ =~= evprefix + op_cells_upto(
                            hist[i as int],
                            denom as int,
                            comma,
                            0,
                        ));
                    }
                    let mut j: usize = 0;
                    while j < entry.len()
                        invariant
                            automaton.wf(),
                            i < automaton.order_parameter@.len(),
                            entry@ == automaton.order_parameter@[i as int]@,
                            entry@ == hist[i as int],
                            6 <= denom <= 0x8000_0000,
                            denom == 6 * (automaton.spec_size() * automaton.spec_size()
                                * automaton.spec_size()),
                            comma == experiment.decimal_comma,
                            j <= entry@.len(),
                            out@ == evprefix + op_cells_upto(
                                hist[i as int],
                                denom as int,
                                comma,
                                j as int,
                            ),
                        decreases entry@.len() - j,
                    {
                        let v = entry[j];
                        proof {
                            assert(entry@.len() == automaton.spec_k() + 1);
                            assert(0 <= j < automaton.spec_k() + 1);
                            assert(v == automaton.order_parameter@[i as int]@[j as int]);
                            assert(-6 * (automaton.spec_size() * automaton.spec_size()
                                * automaton.spec_size()) <= automaton.order_parameter@[i as int]@[j as int]
                                <= 6 * (automaton.spec_size() * automaton.spec_size()
                                * automaton.spec_size()));
                            let ghost s3: int = automaton.spec_size() * automaton.spec_size()
                                * automaton.spec_size();
                            assert(denom == 6 * s3);
                            assert(-6 * s3 <= v);
                            assert(v <= 6 * s3);
                            assert(-denom <= v <= denom) by (nonlinear_arith)
                                requires
                                    denom == 6 * s3,
                                    -6 * s3 <= v,
                                    v <= 6 * s3,
                            ;
                        }
                        let eps = eps_milli_exec(v, denom);
                        push_fixed(&mut out, eps, comma);
                        out.push(59u8);
                        j = j + 1;
                        proof {
                            assert(out@ =~= evprefix + op_cells_upto(
                                hist[i as int],
                                denom as int,
                                comma,
                                j as int,
                            ));
                        }
                    }
                    i = i + 1;
                    proof {
                        assert(out@ =~= prefix + op_evolution_upto(
                            hist,
                            denom as int,
                            comma,
                            i as int,
                        ));
                    }
                }
            },
            BatchAttribute::Iterations => {
                push_digits(&mut out, automaton.get_iteration_count() as u64);
                out.push(59u8);
            },
            BatchAttribute::SimulationTime => {
                push_fixed(&mut out, sim_ms, comma);
                out.push(59u8);
            },
        }
        e = e + 1;
        proof {
            assert(out@ =~= results_row_upto(
                experiment.export_entries@,
                automaton.chemicals@,
                hist,
                automaton.iteration_count,
                sim_ms,
                denom as int,
                comma,
                e as int,
            ));
        }
    }
    out.push(13u8);
    out.push(10u8);
    proof {
        assert(out@ =~= results_row(
            experiment.export_entries@,
            automaton.chemicals@,
            hist,
            automaton.iteration_count,
            sim_ms,
            denom as int,
            comma,
        ));
    }
    out
}

/// The axes after the first, as their own vector.
fn copy_rest_entries(v: &Vec<BatchEntry>) -> (r: Vec<BatchEntry>)
    requires
        v@.len() >= 1,
    ensures
        r@ == v@.subrange(1, v@.len() as int),
{
    let mut r: Vec<BatchEntry> = Vec::new();
    let mut i: usize = 1;
    while i < v.len()
        invariant
            1 <= i <= v@.len(),
            r@ == v@.subrange(1, i as int),
        decreases v@.len() - i,
    {
        r.push(v[i]);
        i = i + 1;
        proof {
            assert(r@ =~= v@.subrange(1, i as int));
        }
    }
    r
}

/// A copy of the export list.
fn copy_exports(v: &Vec<BatchExportEntry>) -> (r: Vec<BatchExportEntry>)
    ensures
        r@ == v@,
{
    let mut r: Vec<BatchExportEntry> = Vec::new();
    let mut i: usize = 0;
    while i < v.len()
        invariant
            i <= v@.len(),
            r@ == v@.subrange(0, i as int),
        decreases v@.len() - i,
    {
        r.push(v[i]);
        i = i + 1;
        proof {
            assert(r@ =~= v@.subrange(0, i as int));
        }
    }
    proof {
        assert(v@.subrange(0, v@.len() as int) =~= v@);
    }
    r
}

/// Apply one axis value to the named parameter, rebuilding the neighbour
/// tables: exactly that slot takes the value, every other slot keeps its
/// value, and the grid is untouched.
fn apply_entry_value(automaton: &mut CellularAutomaton3D, e: &BatchEntry, val: i64)
    requires
        old(automaton).wf(),
        entry_ok(*e, old(automaton).spec_k()),
        e.min <= val <= e.max,
    ensures
        final(automaton).wf(),
        final(automaton).spec_size() == old(automaton).spec_size(),
        final(automaton).spec_k() == old(automaton).spec_k(),
        slot_value(final(automaton).chemicals@, e.species as int, e.chemical, e.variable)
            == val,
        forall|sp: int, c: BatchChemical, v: BatchVariable|
            0 <= sp < old(automaton).spec_k() && !(sp == e.species && c == e.chemical && v
                == e.variable) ==> #[trigger] slot_value(final(automaton).chemicals@, sp, c, v)
                == slot_value(old(automaton).chemicals@, sp, c, v),
        final(automaton).grid_view() == old(automaton).grid_view(),
{
    let mut cfg = automaton.get_species_configuration();
    let mut grp = cfg[e.species];
    match (e.chemical, e.variable) {
        (BatchChemical::Promotor, BatchVariable::Range) => {
            grp.promote.range = val;
        },
        (BatchChemical::Promotor, BatchVariable::Influence) => {
            grp.promote.influence = val;
        },
        (BatchChemical::Demotor, BatchVariable::Range) => {
            grp.demote.range = val;
        },
        (BatchChemical::Demotor, BatchVariable::Influence) => {
            grp.demote.influence = val;
        },
    }
    proof {
        assert(group_ok(automaton.chemicals@[e.species as int]));
        assert(group_ok(grp));
    }
    cfg[e.species] = grp;
    proof {
        assert forall|i: int| 0 <= i < cfg@.len() implies group_ok(#[trigger] cfg@[i]) by {
            if i != e.species {
                assert(cfg@[i] == automaton.chemicals@[i]);
                assert(group_ok(automaton.chemicals@[i]));
            }
        }
        assert(config_ok(cfg@));
    }
    let r = automaton.set_species_configuration(cfg);
    proof {
        assert(r matches Ok(u));
    }
}

/// Walk the Cartesian product of the experiment's axes.  At each leaf the
/// grid is reseeded, the iterations run under the clock, and one result row
/// is appended.  The contract pins: the number of appended rows (the
/// product over axes of floor((max - min) / step) + 1, zero for an empty
/// axis); that earlier rows stay untouched; that every appended row is the
/// rendered result row of some admissible configuration, some history of
/// one record per iteration plus the seeded state, and some non-negative
/// clock reading; that after a non-empty sweep the engine has run exactly
/// the requested iterations since its last seeding; that parameters no axis
/// sweeps keep their values; and that every axis no later axis overwrites
/// ends at its last swept value.
#[verifier::rlimit(100)]
pub fn run_experiment(
    automaton: &mut CellularAutomaton3D,
    experiment: &BatchExperiment,
    rng: &mut rand::rngs::StdRng,
    out: &mut Vec<Vec<u8>>,
)
    requires
        old(automaton).wf(),
        experiment_ok(
            experiment.entries@,
            experiment.iterations as int,
            old(automaton).spec_k(),
        ),
    ensures
        final(automaton).wf(),
        final(automaton).spec_size() == old(automaton).spec_size(),
        final(automaton).spec_k() == old(automaton).spec_k(),
        final(out)@.len() == old(out)@.len() + leaf_count(experiment.entries@),
        forall|j: int| 0 <= j < old(out)@.len() ==> (#[trigger] final(out)@[j])@ == old(out)@[j]@,
        forall|j: int|
            old(out)@.len() <= j < final(out)@.len() ==> is_leaf_row(
                (#[trigger] final(out)@[j])@,
                experiment.export_entries@,
                old(automaton).spec_k(),
                old(automaton).spec_size(),
                experiment.iterations as int,
                experiment.decimal_comma,
            ),
        leaf_count(experiment.entries@) > 0 ==> final(automaton).iteration_count
            == experiment.iterations && final(automaton).history().len() == experiment.iterations
            + 1,
        forall|sp: int, c: BatchChemical, v: BatchVariable|
            0 <= sp < old(automaton).spec_k() && !addresses(experiment.entries@, sp, c, v)
                ==> #[trigger] slot_value(final(automaton).chemicals@, sp, c, v) == slot_value(
                old(automaton).chemicals@,
                sp,
                c,
                v,
            ),
        leaf_count(experiment.entries@) > 0 ==> forall|i: int|
            0 <= i < experiment.entries@.len() && no_later_same_slot(experiment.entries@, i)
                ==> slot_value(
                final(automaton).chemicals@,
                (#[trigger] experiment.entries@[i]).species as int,
                experiment.entries@[i].chemical,
                experiment.entries@[i].variable,
            ) == axis_last_value(experiment.entries@[i]),
    decreases experiment.entries@.len(),
{
    if experiment.entries.len() == 0 {
        let k = automaton.chemicals.len();
        automaton.spread_chemicals_randomly(rng, (k as u32) + 1);
        let t0 = crate::clock::now_instant();
        let iterations = experiment.iterations;
        let mut it: usize = 0;
        while it < iterations
            invariant
                automaton.wf(),
                automaton.spec_size() == old(automaton).spec_size(),
                automaton.spec_k() == old(automaton).spec_k(),
                automaton.chemicals@ == old(automaton).chemicals@,
                it <= iterations <= 0xffff_ffff,
                automaton.iteration_count == it,
                automaton.history().len() == 1 + it,
            decreases iterations - it,
        {
            automaton.run_iteration();
            it = it + 1;
        }
        let d = crate::clock::elapsed_of(&t0);
        let ms128 = crate::clock::millis_of(&d);
        let ms: i64 = if ms128 > 0x7fff_ffff_ffff_ffff {
            0x7fff_ffff_ffff_ffffi64
        } else {
            ms128 as i64
        };
        let row = write_results(automaton, experiment, ms);
        proof {
            let cfgw = automaton.chemicals@;
            let histw = automaton.history();
            let kw = old(automaton).spec_k();
            let nw = old(automaton).spec_size();
            assert(config_ok(cfgw) && cfgw.len() == kw);
            assert(histw.len() == experiment.iterations + 1);
            assert(automaton.iteration_count == (experiment.iterations as int) as u32);
            assert(row@ == results_row(
                experiment.export_entries@,
                cfgw,
                histw,
                (experiment.iterations as int) as u32,
                ms,
                6 * (nw * nw * nw),
                experiment.decimal_comma,
            ));
            assert(is_leaf_row(
                row@,
                experiment.export_entries@,
                kw,
                nw,
                experiment.iterations as int,
                experiment.decimal_comma,
            ));
        }
        out.push(row);
    } else {
        let varying = experiment.entries[0];
        let rest = copy_rest_entries(&experiment.entries);
        let ghost rest_entries = rest@;
        let recursive_experiment = BatchExperiment {
            entries: rest,
            export_entries: copy_exports(&experiment.export_entries),
            iterations: experiment.iterations,
            decimal_comma: experiment.decimal_comma,
        };
        proof {
            assert forall|i: int| 0 <= i < rest_entries.len() implies entry_ok(
                #[trigger] rest_entries[i],
                old(automaton).spec_k(),
            ) by {
                assert(rest_entries[i] == experiment.entries@[i + 1]);
            }
            assert(entry_ok(varying, old(automaton).spec_k()));
        }
        let ghost k0 = old(automaton).spec_k();
        let ghost n0 = old(automaton).spec_size();
        let ghost lc = leaf_count(rest_entries);
        proof {
            assert forall|i: int| 0 <= i < rest_entries.len() implies 1 <= (
            #[trigger] rest_entries[i]).step by {
                assert(entry_ok(rest_entries[i], old(automaton).spec_k()));
            }
            lemma_leaf_count_nonneg(rest_entries);
        }
        let ghost mut j: int = 0;
        let mut val: i64 = varying.min;
        while val <= varying.max
            invariant
                automaton.wf(),
                automaton.spec_size() == n0 == old(automaton).spec_size(),
                automaton.spec_k() == k0 == old(automaton).spec_k(),
                entry_ok(varying, k0),
                experiment_ok(
                    recursive_experiment.entries@,
                    recursive_experiment.iterations as int,
                    k0,
                ),
                recursive_experiment.entries@ == rest_entries,
                recursive_experiment.entries@.len() == experiment.entries@.len() - 1,
                recursive_experiment.export_entries@ == experiment.export_entries@,
                recursive_experiment.iterations == experiment.iterations,
                recursive_experiment.decimal_comma == experiment.decimal_comma,
                forall|i: int|
                    0 <= i < rest_entries.len() ==> #[trigger] rest_entries[i]
                        == experiment.entries@[i + 1],
                varying == experiment.entries@[0],
                lc == leaf_count(rest_entries),
                0 <= lc,
                val == varying.min + j * varying.step,
                0 <= j,
                j >= 1 ==> varying.min + (j - 1) * varying.step <= varying.max,
                out@.len() == old(out)@.len() + j * lc,
                forall|jj: int|
                    0 <= jj < old(out)@.len() ==> (#[trigger] out@[jj])@ == old(out)@[jj]@,
                forall|jj: int|
                    old(out)@.len() <= jj < out@.len() ==> is_leaf_row(
                        (#[trigger] out@[jj])@,
                        experiment.export_entries@,
                        k0,
                        n0,
                        experiment.iterations as int,
                        experiment.decimal_comma,
                    ),
                j >= 1 && lc > 0 ==> automaton.iteration_count == experiment.iterations
                    && automaton.history().len() == experiment.iterations + 1,
                forall|sp: int, c: BatchChemical, v: BatchVariable|
                    0 <= sp < k0 && !addresses(experiment.entries@, sp, c, v)
                        ==> #[trigger] slot_value(automaton.chemicals@, sp, c, v) == slot_value(
                        old(automaton).chemicals@,
                        sp,
                        c,
                        v,
                    ),
                j >= 1 && !addresses(
                    rest_entries,
                    varying.species as int,
                    varying.chemical,
                    varying.variable,
                ) ==> slot_value(
                    automaton.chemicals@,
                    varying.species as int,
                    varying.chemical,
                    varying.variable,
                ) == varying.min + (j - 1) * varying.step,
                j >= 1 && lc > 0 ==> forall|i: int|
                    0 <= i < rest_entries.len() && no_later_same_slot(rest_entries, i)
                        ==> slot_value(
                        automaton.chemicals@,
                        (#[trigger] rest_entries[i]).species as int,
                        rest_entries[i].chemical,
                        rest_entries[i].variable,
                    ) == axis_last_value(rest_entries[i]),
            decreases
                    (if val <= varying.max {
                        varying.max - val + 1
                    } else {
                        0int
                    }),
        {
            let ghost cfg_entry = automaton.chemicals@;
            apply_entry_value(automaton, &varying, val);
            let ghost cfg_applied = automaton.chemicals@;
            run_experiment(automaton, &recursive_experiment, rng, out);
            proof {
                assert((j + 1) * lc == j * lc + lc) by (nonlinear_arith);
                assert((j + 1) * varying.step == j * varying.step + varying.step)
                    by (nonlinear_arith);
                assert(0 <= j * lc) by (nonlinear_arith)
                    requires
                        0 <= j,
                        0 <= lc,
                ;
                // A slot no axis sweeps is untouched by the application of
                // the head axis and by the recursive sweep alike.
                assert forall|sp: int, c: BatchChemical, v: BatchVariable|
                    0 <= sp < k0 && !addresses(experiment.entries@, sp, c, v)
                        implies #[trigger] slot_value(automaton.chemicals@, sp, c, v)
                        == slot_value(old(automaton).chemicals@, sp, c, v) by {
                    assert(!(sp == varying.species && c == varying.chemical && v
                        == varying.variable)) by {
                        if sp == varying.species && c == varying.chemical && v
                            == varying.variable {
                            assert(experiment.entries@[0].species == sp
                                && experiment.entries@[0].chemical == c
                                && experiment.entries@[0].variable == v);
                            assert(addresses(experiment.entries@, sp, c, v));
                        }
                    }
                    assert(!addresses(rest_entries, sp, c, v)) by {
                        if addresses(rest_entries, sp, c, v) {
                            let w = choose|w: int|
                                0 <= w < rest_entries.len() && (#[trigger] rest_entries[w]).species
                                    == sp && rest_entries[w].chemical == c
                                    && rest_entries[w].variable == v;
                            assert(experiment.entries@[w + 1] == rest_entries[w]);
                            assert(addresses(experiment.entries@, sp, c, v));
                        }
                    }
                    assert(slot_value(cfg_applied, sp, c, v) == slot_value(cfg_entry, sp, c, v));
                }
                // The head axis's own slot carries the value just applied,
                // as long as no inner axis sweeps the same slot.
                if !addresses(
                    rest_entries,
                    varying.species as int,
                    varying.chemical,
                    varying.variable,
                ) {
                    assert(slot_value(
                        automaton.chemicals@,
                        varying.species as int,
                        varying.chemical,
                        varying.variable,
                    ) == val);
                }
                j = j + 1;
            }
            val = val + varying.step;
        }
        proof {
            lemma_sweep_count(varying, j);
            assert(experiment.entries@.subrange(1, experiment.entries@.len() as int)
                == rest_entries);
            assert(experiment.entries@[0] == varying);
            assert(leaf_count(experiment.entries@) == axis_count(varying) * lc);
            assert(j * lc == axis_count(varying) * lc);
            if leaf_count(experiment.entries@) > 0 {
                assert forall|i: int|
                    0 <= i < rest_entries.len() implies 1 <= (#[trigger] rest_entries[i]).step by {
                    assert(entry_ok(rest_entries[i], k0));
                }
                lemma_leaf_count_nonneg(rest_entries);
                assert(axis_count(varying) >= 0) by {
                    if varying.min <= varying.max {
                        vstd::arithmetic::div_mod::lemma_div_pos_is_pos(
                            varying.max - varying.min,
                            varying.step as int,
                        );
                    }
                }
                assert(axis_count(varying) > 0 && lc > 0) by (nonlinear_arith)
                    requires
                        axis_count(varying) * lc > 0,
                        axis_count(varying) >= 0,
                        lc >= 0,
                ;
                assert(j >= 1);
                // Every axis that no later axis overwrites ends at its last
                // swept value: the head from the loop's final application,
                // the inner axes from the final recursive sweep.
                assert forall|i: int|
                    0 <= i < experiment.entries@.len() && no_later_same_slot(
                        experiment.entries@,
                        i,
                    ) implies slot_value(
                    automaton.chemicals@,
                    (#[trigger] experiment.entries@[i]).species as int,
                    experiment.entries@[i].chemical,
                    experiment.entries@[i].variable,
                ) == axis_last_value(experiment.entries@[i]) by {
                    if i == 0 {
                        assert(!addresses(
                            rest_entries,
                            varying.species as int,
                            varying.chemical,
                            varying.variable,
                        )) by {
                            if addresses(
                                rest_entries,
                                varying.species as int,
                                varying.chemical,
                                varying.variable,
                            ) {
                                let w = choose|w: int|
                                    0 <= w < rest_entries.len() && (
                                    #[trigger] rest_entries[w]).species == varying.species
                                        && rest_entries[w].chemical == varying.chemical
                                        && rest_entries[w].variable == varying.variable;
                                assert(experiment.entries@[w + 1] == rest_entries[w]);
                                assert(same_slot(
                                    experiment.entries@[0],
                                    experiment.entries@[w + 1],
                                ));
                            }
                        }
                        assert(j - 1 == (varying.max - varying.min) / (varying.step as int));
                    } else {
                        assert(experiment.entries@[i] == rest_entries[i - 1]);
                        assert(no_later_same_slot(rest_entries, i - 1)) by {
                            assert forall|i2: int| i - 1 < i2 < rest_entries.len() implies
                                !same_slot(rest_entries[i - 1], #[trigger] rest_entries[i2]) by {
                                assert(rest_entries[i2] == experiment.entries@[i2 + 1]);
                                assert(!same_slot(
                                    experiment.entries@[i],
                                    experiment.entries@[i2 + 1],
                                ));
                            }
                        }
                    }
                }
            }
        }
    }
}

/// At the exit of the sweep loop the number of steps taken is exactly the
/// axis count.
proof fn lemma_sweep_count(e: BatchEntry, j: int)
    requires
        1 <= e.step,
        0 <= j,
        e.min + j * e.step > e.max,
        j >= 1 ==> e.min + (j - 1) * e.step <= e.max,
    ensures
        j == axis_count(e),
{
    if e.min > e.max {
        if j >= 1 {
            assert((j - 1) * e.step >= 0) by (nonlinear_arith)
                requires
                    j >= 1 && e.step >= 1,
            ;
        }
    } else {
        assert(j * e.step > 0);
        assert(j >= 1) by (nonlinear_arith)
            requires
                j * e.step > 0 && e.step >= 1 && j >= 0,
        ;
        let q = j - 1;
        let rem = e.max - e.min - q * e.step;
        assert(rem >= 0);
        assert(j * e.step == (j - 1) * e.step + e.step) by (nonlinear_arith);
        assert(rem < e.step) by (nonlinear_arith)
            requires
                rem == e.max - e.min - (j - 1) * e.step,
                e.min + j * e.step > e.max,
                j * e.step == (j - 1) * e.step + e.step,
        ;
        assert(e.max - e.min == q * e.step + rem);
        vstd::arithmetic::div_mod::lemma_fundamental_div_mod_converse_div(
            e.max - e.min,
            e.step as int,
            q,
            rem,
        );
    }
}

} // verus!
