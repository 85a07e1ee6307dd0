use cell_sorting::batch::{
    run_experiment, write_results, write_types, BatchAttribute, BatchChemical, BatchEntry,
    BatchExperiment, BatchExportEntry, BatchVariable,
};
use cell_sorting::chem::{CAChemical, CAChemicalGroup};
use cell_sorting::kernel::CellularAutomaton3D;
use rand::rngs::StdRng;
use rand::SeedableRng;

fn group(pr: i64, pi: i64, dr: i64, di: i64) -> CAChemicalGroup {
    CAChemicalGroup {
        promote: CAChemical { range: pr, influence: pi },
        demote: CAChemical { range: dr, influence: di },
    }
}

fn export(attribute: BatchAttribute) -> BatchExportEntry {
    BatchExportEntry { attribute }
}

fn columns(row: &[u8]) -> Vec<String> {
    let text = String::from_utf8(row.to_vec()).expect("rows are ASCII");
    let line = text.strip_suffix("\r\n").expect("rows end in CRLF");
    line.split(';').map(|c| c.to_string()).collect()
}

#[test]
fn sweep_emits_one_row_per_leaf_with_the_iteration_count() {
    let mut a = CellularAutomaton3D::new(4, vec![group(1100, 1_000_000, 2000, -350_000)])
        .expect("admissible configuration");
    let experiment = BatchExperiment {
        entries: vec![BatchEntry {
            species: 0,
            chemical: BatchChemical::Promotor,
            variable: BatchVariable::Range,
            min: 1000,
            max: 2000,
            step: 500,
        }],
        export_entries: vec![
            export(BatchAttribute::Iterations),
            export(BatchAttribute::SimulationTime),
        ],
        iterations: 3,
        decimal_comma: false,
    };
    let header = write_types(&a, &experiment);
    assert_eq!(header, b"Number of iterations;Simulation time;\r\n".to_vec());
    let mut rng = StdRng::seed_from_u64(9);
    let mut rows: Vec<Vec<u8>> = Vec::new();
    run_experiment(&mut a, &experiment, &mut rng, &mut rows);
    assert_eq!(rows.len(), 3);
    for row in &rows {
        let cols = columns(row);
        assert_eq!(cols.len(), 3);
        assert_eq!(cols[0], "3");
        assert_eq!(cols[2], "");
    }
    // The swept parameter ends at its last applied value.
    assert_eq!(a.get_species_configuration()[0].promote.range, 2000);
}

#[test]
fn empty_axis_gives_no_rows() {
    let mut a = CellularAutomaton3D::new(4, vec![group(1100, 1_000_000, 2000, -350_000)])
        .expect("admissible configuration");
    let experiment = BatchExperiment {
        entries: vec![BatchEntry {
            species: 0,
            chemical: BatchChemical::Demotor,
            variable: BatchVariable::Influence,
            min: 500,
            max: 400,
            step: 100,
        }],
        export_entries: vec![export(BatchAttribute::Iterations)],
        iterations: 1,
        decimal_comma: false,
    };
    let mut rng = StdRng::seed_from_u64(9);
    let mut rows: Vec<Vec<u8>> = Vec::new();
    run_experiment(&mut a, &experiment, &mut rng, &mut rows);
    assert_eq!(rows.len(), 0);
}

#[test]
fn two_axes_multiply_their_counts() {
    let mut a = CellularAutomaton3D::new(4, vec![group(1100, 1_000_000, 2000, -350_000)])
        .expect("admissible configuration");
    let experiment = BatchExperiment {
        entries: vec![
            BatchEntry {
                species: 0,
                chemical: BatchChemical::Promotor,
                variable: BatchVariable::Range,
                min: 1000,
                max: 2000,
                step: 500,
            },
            BatchEntry {
                species: 0,
                chemical: BatchChemical::Demotor,
                variable: BatchVariable::Influence,
                min: -400_000,
                max: -200_000,
                step: 200_000,
            },
        ],
        export_entries: vec![export(BatchAttribute::NumberOfSpecies)],
        iterations: 1,
        decimal_comma: false,
    };
    let mut rng = StdRng::seed_from_u64(1);
    let mut rows: Vec<Vec<u8>> = Vec::new();
    run_experiment(&mut a, &experiment, &mut rng, &mut rows);
    // Three range values times two influence values.
    assert_eq!(rows.len(), 6);
    for row in &rows {
        assert_eq!(columns(row)[0], "1");
    }
    // Both swept slots end at their last value; the unswept slots keep
    // theirs.
    let cfg = a.get_species_configuration();
    assert_eq!(cfg[0].promote.range, 2000);
    assert_eq!(cfg[0].demote.influence, -200_000);
    assert_eq!(cfg[0].promote.influence, 1_000_000);
    assert_eq!(cfg[0].demote.range, 2000);
}

#[test]
fn header_names_the_chemical_value_columns() {
    let a = CellularAutomaton3D::new(4, vec![group(1100, 1_000_000, 2000, -350_000)])
        .expect("admissible configuration");
    let experiment = BatchExperiment {
        entries: vec![],
        export_entries: vec![export(BatchAttribute::ChemValues)],
        iterations: 2,
        decimal_comma: false,
    };
    let header = write_types(&a, &experiment);
    assert_eq!(
        header,
        b"S0 Promotor Range;S0 Promotor Influence;S0 Demotor Range;S0 Demotor Influence;\r\n"
            .to_vec()
    );
    let evolution = BatchExperiment {
        entries: vec![],
        export_entries: vec![export(BatchAttribute::OrderParameterEvolution)],
        iterations: 2,
        decimal_comma: false,
    };
    assert_eq!(write_types(&a, &evolution), b"OP iter 0;OP iter 1;\r\n".to_vec());
}

#[test]
fn result_rows_render_fixed_point_columns_exactly() {
    let mut a = CellularAutomaton3D::new(4, vec![group(1100, 1_000_000, 2200, -350_000)])
        .expect("admissible configuration");
    // Record the order parameter of the all-zero grid by importing it into
    // a fresh engine of the same shape.
    let b = CellularAutomaton3D::new(4, vec![group(1100, 1_000_000, 2200, -350_000)])
        .expect("admissible configuration");
    a.import_data_from_automaton(&b);
    let experiment = BatchExperiment {
        entries: vec![],
        export_entries: vec![
            export(BatchAttribute::NumberOfSpecies),
            export(BatchAttribute::ChemValues),
            export(BatchAttribute::OrderParameter),
            export(BatchAttribute::Iterations),
            export(BatchAttribute::SimulationTime),
        ],
        iterations: 0,
        decimal_comma: false,
    };
    let row = write_results(&a, &experiment, 1234);
    assert_eq!(
        row,
        b"1;1.1;1000;2.2;-350;1;0;0;1.234;\r\n".to_vec()
    );
    // The comma form replaces the decimal separator.
    let comma_experiment = BatchExperiment {
        entries: vec![],
        export_entries: vec![export(BatchAttribute::SimulationTime)],
        iterations: 0,
        decimal_comma: true,
    };
    assert_eq!(write_results(&a, &comma_experiment, 1500), b"1,5;\r\n".to_vec());
}
