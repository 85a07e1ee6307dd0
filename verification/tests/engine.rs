use cell_sorting::chem::{CAChemical, CAChemicalGroup, CAError};
use cell_sorting::voxel::{CAVoxel, Voxel};
use cell_sorting::grid::wrap;
use cell_sorting::kernel::CellularAutomaton3D;
use rand::rngs::StdRng;
use rand::SeedableRng;

fn group(pr: i64, pi: i64, dr: i64, di: i64) -> CAChemicalGroup {
    CAChemicalGroup {
        promote: CAChemical { range: pr, influence: pi },
        demote: CAChemical { range: dr, influence: di },
    }
}

fn engine(size: usize, groups: Vec<CAChemicalGroup>) -> CellularAutomaton3D {
    CellularAutomaton3D::new(size, groups).expect("admissible configuration")
}

#[test]
fn zero_grid_stays_zero_and_records_full_order() {
    // One species whose bands are empty (range 0.5 reaches no neighbour):
    // every influence is zero, so every voxel carries its previous label.
    let mut a = engine(4, vec![group(500, 1_000_000, 500, -1_000_000)]);
    a.run_iteration();
    for x in 0..4 {
        for y in 0..4 {
            for z in 0..4 {
                assert_eq!(a.get(x, y, z), 0);
            }
        }
    }
    // One record, with the undifferentiated tally at the full 6 * 4^3 and
    // species 1 at zero.
    let op = a.get_order_parameters();
    assert_eq!(op.len(), 2);
    assert_eq!(op[0], vec![6 * 64]);
    assert_eq!(op[1], vec![0]);
}

#[test]
fn wrap_probe_marks_the_six_face_neighbours() {
    // Range 1.1 admits exactly the six axis neighbours; influence 1 pulls
    // any voxel with a species-1 neighbour toward species 1.
    let mut a = engine(4, vec![group(1100, 1_000_000, 1100, 0)]);
    a.set(0, 0, 0, 1);
    a.run_iteration();
    let ones = [(3, 0, 0), (1, 0, 0), (0, 3, 0), (0, 1, 0), (0, 0, 3), (0, 0, 1)];
    for x in 0..4usize {
        for y in 0..4usize {
            for z in 0..4usize {
                let expected = if ones.contains(&(x, y, z)) {
                    1
                } else if (x, y, z) == (0, 0, 0) {
                    // The origin's own influences balance to zero, so it
                    // carries its previous label.
                    1
                } else {
                    0
                };
                assert_eq!(a.get(x, y, z), expected, "voxel ({x},{y},{z})");
            }
        }
    }
}

#[test]
fn seeded_runs_are_deterministic() {
    let groups = vec![
        group(1500, 1_000_000, 2500, -350_000),
        group(1100, 800_000, 2000, -200_000),
    ];
    let mut a = engine(6, groups.clone());
    let mut b = engine(6, groups);
    let mut rng_a = StdRng::seed_from_u64(42);
    let mut rng_b = StdRng::seed_from_u64(42);
    a.spread_chemicals_randomly(&mut rng_a, 3);
    b.spread_chemicals_randomly(&mut rng_b, 3);
    for _ in 0..25 {
        a.run_iteration();
        b.run_iteration();
    }
    assert!(a.compare(&b));
    assert_eq!(a.get_iteration_count(), 25);
    assert_eq!(b.get_iteration_count(), 25);
}

#[test]
fn homogeneous_grid_scores_one_and_is_stable() {
    // The demote influence is zero so the promoting pull dominates and the
    // uniform grid is a fixed point.
    let groups = vec![group(1100, 1_000_000, 2000, 0), group(1100, 1_000_000, 2000, 0)];
    let mut a = engine(6, groups.clone());
    for x in 0..6 {
        for y in 0..6 {
            for z in 0..6 {
                a.set(x, y, z, 1);
            }
        }
    }
    // Importing into a fresh engine records the order parameter of the
    // uniform state: species 1 at the full 6 * 6^3, all others at zero.
    let mut b = engine(6, groups);
    b.import_data_from_automaton(&a);
    let op = b.get_order_parameters();
    assert_eq!(op.len(), 3);
    assert_eq!(op[0], vec![0]);
    assert_eq!(op[1], vec![6 * 216]);
    assert_eq!(op[2], vec![0]);
    // Under a promoting rule the uniform grid is a fixed point.
    a.run_iteration();
    for x in 0..6 {
        for y in 0..6 {
            for z in 0..6 {
                assert_eq!(a.get(x, y, z), 1);
            }
        }
    }
}

#[test]
fn import_round_trip_preserves_labels_and_iterations() {
    let groups = vec![group(1500, 1_000_000, 2500, -350_000), group(1100, 500_000, 2000, -100_000)];
    let mut a = engine(5, groups.clone());
    let mut rng = StdRng::seed_from_u64(7);
    a.spread_chemicals_randomly(&mut rng, 2);
    for _ in 0..10 {
        a.run_iteration();
    }
    let mut b = engine(5, groups);
    b.import_data_from_automaton(&a);
    assert!(a.compare(&b));
    assert_eq!(b.get_iteration_count(), 10);
}

#[test]
fn wrap_follows_the_double_mod_form() {
    assert_eq!(wrap(0, -1, 4), 3);
    assert_eq!(wrap(3, 1, 4), 0);
    assert_eq!(wrap(3, 5, 4), 0);
    assert_eq!(wrap(0, 9, 4), 1);
    assert_eq!(wrap(1, -9, 4), 0);
    assert_eq!(wrap(2, -100, 7), 0);
    assert_eq!(wrap(2, 2, 4), 0);
}

#[test]
fn every_label_stays_in_range_after_every_operation() {
    let groups = vec![group(1500, 1_000_000, 2500, -350_000), group(1100, 500_000, 2000, -100_000)];
    let k = groups.len() as u32;
    let mut a = engine(5, groups);
    let mut rng = StdRng::seed_from_u64(3);
    a.spread_chemicals_randomly(&mut rng, 3);
    for _ in 0..5 {
        a.run_iteration();
        for x in 0..5 {
            for y in 0..5 {
                for z in 0..5 {
                    assert!(a.get(x, y, z) <= k);
                }
            }
        }
    }
    a.clear_all_voxels();
    for x in 0..5 {
        for y in 0..5 {
            for z in 0..5 {
                assert_eq!(a.get(x, y, z), 0);
            }
        }
    }
}

#[test]
fn run_iteration_counts_one_step_and_one_record() {
    let mut a = engine(4, vec![group(1100, 1_000_000, 2000, -350_000)]);
    let mut rng = StdRng::seed_from_u64(0);
    a.spread_chemicals_randomly(&mut rng, 2);
    assert_eq!(a.get_iteration_count(), 0);
    assert_eq!(a.get_order_parameters()[0].len(), 1);
    a.run_iteration();
    assert_eq!(a.get_iteration_count(), 1);
    assert_eq!(a.get_order_parameters()[0].len(), 2);
    a.run_iteration();
    assert_eq!(a.get_iteration_count(), 2);
    assert_eq!(a.get_order_parameters()[0].len(), 3);
}

#[test]
fn order_records_stay_within_their_bound() {
    let mut a = engine(5, vec![group(1500, 1_000_000, 2500, -350_000)]);
    let mut rng = StdRng::seed_from_u64(11);
    a.spread_chemicals_randomly(&mut rng, 2);
    for _ in 0..6 {
        a.run_iteration();
    }
    let bound = 6 * 125;
    for row in a.get_order_parameters() {
        for v in row {
            assert!(-bound <= v && v <= bound);
        }
    }
}

#[test]
fn promote_and_demote_bands_are_disjoint() {
    let a = engine(6, vec![group(1100, 1_000_000, 2500, -350_000)]);
    let promote = &a.tables.promote[0];
    let demote = &a.tables.demote[0];
    assert!(!promote.is_empty());
    assert!(!demote.is_empty());
    for o in promote {
        assert!(!demote.contains(o), "offset {o:?} in both bands");
    }
    // The promote band of range 1.1 is exactly the six axis neighbours.
    let mut sorted: Vec<(i32, i32, i32)> = promote.clone();
    sorted.sort();
    assert_eq!(
        sorted,
        vec![(-1, 0, 0), (0, -1, 0), (0, 0, -1), (0, 0, 1), (0, 1, 0), (1, 0, 0)]
    );
}

#[test]
fn raising_promote_influence_pulls_neighbours_in() {
    // With zero promote influence nothing moves; with a positive one the
    // face neighbours of a seed voxel adopt its species.
    let mut low = engine(4, vec![group(1100, 0, 1100, 0)]);
    low.set(0, 0, 0, 1);
    low.run_iteration();
    assert_eq!(low.get(1, 0, 0), 0);
    let mut high = engine(4, vec![group(1100, 1_000_000, 1100, 0)]);
    high.set(0, 0, 0, 1);
    high.run_iteration();
    assert_eq!(high.get(1, 0, 0), 1);
}

#[test]
fn inadmissible_configurations_are_rejected() {
    assert_eq!(CellularAutomaton3D::new(4, vec![]).err(), Some(CAError::ConfigInvalid));
    assert_eq!(
        CellularAutomaton3D::new(0, vec![group(500, 0, 500, 0)]).err(),
        Some(CAError::ConfigInvalid)
    );
    assert_eq!(
        CellularAutomaton3D::new(4, vec![group(-1, 0, 500, 0)]).err(),
        Some(CAError::ConfigInvalid)
    );
    let too_many: Vec<CAChemicalGroup> = (0..21).map(|_| group(500, 0, 500, 0)).collect();
    assert_eq!(CellularAutomaton3D::new(4, too_many).err(), Some(CAError::ConfigInvalid));
    assert!(CellularAutomaton3D::new(4, vec![group(500, 0, 500, 0)]).is_ok());
}

#[test]
fn reset_rebuilds_a_single_species_engine() {
    let mut a = engine(4, vec![group(1100, 1_000_000, 2000, -350_000)]);
    a.set(0, 0, 0, 1);
    a.run_iteration();
    assert!(a.reset(5, 900, 1_000_000, 1400, -350_000).is_ok());
    assert_eq!(a.size(), 5);
    assert_eq!(a.get_iteration_count(), 0);
    for x in 0..5 {
        for y in 0..5 {
            for z in 0..5 {
                assert_eq!(a.get(x, y, z), 0);
            }
        }
    }
    assert!(a.reset(0, 900, 1_000_000, 1400, -350_000).is_err());
}

#[test]
fn shrinking_the_configuration_under_live_labels_is_rejected() {
    let groups = vec![group(1100, 1_000_000, 2000, -350_000), group(900, 500_000, 1500, -100_000)];
    let mut a = engine(4, groups);
    a.set(1, 1, 1, 2);
    let smaller = vec![group(1100, 1_000_000, 2000, -350_000)];
    assert_eq!(a.set_species_configuration(smaller.clone()).err(), Some(CAError::ConfigInvalid));
    a.clear_all_voxels();
    assert!(a.set_species_configuration(smaller).is_ok());
    assert_eq!(a.get_species_configuration().len(), 1);
}

#[test]
fn spread_with_one_chemical_zeroes_the_grid() {
    // gen_below promises a value under the bound, so a bound of one can
    // only ever produce the undifferentiated label.
    let mut a = engine(4, vec![group(1100, 1_000_000, 2000, -350_000)]);
    a.set(2, 2, 2, 1);
    let mut rng = StdRng::seed_from_u64(5);
    a.spread_chemicals_randomly(&mut rng, 1);
    for x in 0..4 {
        for y in 0..4 {
            for z in 0..4 {
                assert_eq!(a.get(x, y, z), 0);
            }
        }
    }
    assert_eq!(a.get_iteration_count(), 0);
}

#[test]
fn export_matches_get_in_flat_order() {
    let mut a = engine(3, vec![group(1100, 1_000_000, 2000, -350_000)]);
    a.set(1, 0, 0, 1);
    a.set(0, 2, 1, 1);
    let flat = a.export();
    assert_eq!(flat.len(), 27);
    for x in 0..3usize {
        for y in 0..3usize {
            for z in 0..3usize {
                assert_eq!(flat[x + 3 * y + 9 * z] as u32, a.get(x, y, z));
            }
        }
    }
}

#[test]
fn capture_selection_is_kept() {
    let mut a = engine(4, vec![group(1100, 1_000_000, 2000, -350_000)]);
    assert_eq!(a.get_captured_chemical(), 0);
    a.capture_chemical(1);
    assert_eq!(a.get_captured_chemical(), 1);
}

#[test]
fn chunks_hold_bare_labels() {
    let mut c = cell_sorting::chunk::CellularAutomaton3DChunk::new(4);
    assert_eq!(c.size(), 4);
    assert_eq!(c.get(1, 2, 3), 0);
    c.set(1, 2, 3, 5);
    assert_eq!(c.get(1, 2, 3), 5);
    c.clear_all_voxels();
    assert_eq!(c.get(1, 2, 3), 0);
}

#[test]
fn voxels_read_back_their_value() {
    let mut v = CAVoxel { id: 0 };
    assert_eq!(v.get(), 0);
    v.set(7);
    assert_eq!(v.get(), 7);
}

#[test]
fn total_influence_weighs_band_matches() {
    // A single species-1 voxel at the origin: each face neighbour sees one
    // promote-band match, so its influence equals the promote influence;
    // the origin itself sees none.
    let mut a = engine(4, vec![group(1100, 1_000_000, 1100, 0)]);
    a.set(0, 0, 0, 1);
    assert_eq!(a.total_influence(1, 0, 0), 1_000_000);
    assert_eq!(a.total_influence(0, 0, 0), 0);
    assert_eq!(a.total_influence(2, 2, 2), 0);
}

#[test]
fn iteration_counter_can_be_set_directly() {
    let mut a = engine(4, vec![group(1100, 1_000_000, 2000, -350_000)]);
    a.set_iteration_count(17);
    assert_eq!(a.get_iteration_count(), 17);
}
