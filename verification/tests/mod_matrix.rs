use stepper_synth::config::MOD_MATRIX_SIZE;
use stepper_synth::mod_matrix::{
    EnvParam, LfoParam, LowPass, LowPassParam, ModKind, ModMatrix, ModMatrixDest, ModMatrixItem,
    ModMatrixSrc, OscParam,
};

fn route(src: ModMatrixSrc, dest: ModMatrixDest, amt: f32) -> ModMatrixItem {
    ModMatrixItem { src, dest, amt: amt.to_bits(), bipolar: false }
}

fn onto(slot: usize, amt: f32) -> ModMatrixItem {
    route(ModMatrixSrc::Lfo(0), ModMatrixDest::ModMatrixEntryModAmt(slot), amt)
}

fn volume(amt: f32) -> ModMatrixItem {
    route(ModMatrixSrc::Velocity, ModMatrixDest::SynthVolume, amt)
}

fn occupied(matrix: &ModMatrix) -> usize {
    (0..MOD_MATRIX_SIZE).filter(|i| matrix.get(*i).is_some()).count()
}

#[test]
fn new_matrix_is_empty() {
    let matrix = ModMatrix::new();
    assert_eq!(occupied(&matrix), 0);
    assert_eq!(matrix.get(MOD_MATRIX_SIZE), None);
    assert_eq!(MOD_MATRIX_SIZE, 255);
}

#[test]
fn add_fills_the_first_empty_slot() {
    let mut matrix = ModMatrix::new();
    assert_eq!(matrix.add(volume(1.0)), Some(0));
    assert_eq!(matrix.add(volume(0.5)), Some(1));
    assert_eq!(matrix.get(0), Some(volume(1.0)));
    assert_eq!(matrix.get(1), Some(volume(0.5)));
    assert_eq!(matrix.get(1).unwrap().amt, 0.5f32.to_bits());
    assert_eq!(matrix.get(2), None);
}

#[test]
fn add_to_a_full_matrix_is_dropped() {
    let mut matrix = ModMatrix::new();
    for i in 0..MOD_MATRIX_SIZE {
        assert_eq!(matrix.add(volume(i as f32)), Some(i));
    }
    assert_eq!(matrix.add(volume(-1.0)), None);
    assert_eq!(occupied(&matrix), MOD_MATRIX_SIZE);
    assert_eq!(matrix.get(254), Some(volume(254.0)));
}

#[test]
fn add_refuses_a_reference_to_an_empty_slot() {
    let mut matrix = ModMatrix::new();
    assert_eq!(matrix.add(onto(0, 1.0)), None);
    assert_eq!(matrix.add(onto(300, 1.0)), None);
    assert_eq!(occupied(&matrix), 0);
    assert_eq!(matrix.add(volume(1.0)), Some(0));
    assert_eq!(matrix.add(onto(0, 1.0)), Some(1));
}

#[test]
fn modify_replaces_a_slot_and_refuses_a_bad_reference() {
    let mut matrix = ModMatrix::new();
    matrix.add(volume(1.0));
    assert!(matrix.modify(0, volume(0.25)));
    assert_eq!(matrix.get(0), Some(volume(0.25)));
    assert!(matrix.modify(7, volume(0.75)));
    assert_eq!(matrix.get(7), Some(volume(0.75)));
    assert!(!matrix.modify(0, onto(0, 1.0)));
    assert!(!matrix.modify(0, onto(3, 1.0)));
    assert!(!matrix.modify(MOD_MATRIX_SIZE, volume(1.0)));
    assert_eq!(matrix.get(0), Some(volume(0.25)));
    assert!(matrix.modify(0, onto(7, 1.0)));
    assert_eq!(matrix.get(0), Some(onto(7, 1.0)));
}

#[test]
fn delete_moves_later_slots_down() {
    let mut matrix = ModMatrix::new();
    matrix.add(volume(0.0));
    matrix.add(volume(1.0));
    matrix.add(volume(2.0));
    assert_eq!(matrix.delete(0), 1);
    assert_eq!(matrix.get(0), Some(volume(1.0)));
    assert_eq!(matrix.get(1), Some(volume(2.0)));
    assert_eq!(matrix.get(2), None);
    assert_eq!(occupied(&matrix), 2);
}

#[test]
fn delete_renumbers_references_to_later_slots() {
    let mut matrix = ModMatrix::new();
    matrix.add(volume(0.0));
    matrix.add(volume(1.0));
    matrix.add(volume(2.0));
    matrix.add(onto(2, 0.5));
    matrix.add(onto(0, 0.25));
    assert_eq!(matrix.delete(1), 1);
    assert_eq!(matrix.get(0), Some(volume(0.0)));
    assert_eq!(matrix.get(1), Some(volume(2.0)));
    assert_eq!(matrix.get(2), Some(onto(1, 0.5)));
    assert_eq!(matrix.get(3), Some(onto(0, 0.25)));
    assert_eq!(matrix.get(4), None);
}

#[test]
fn delete_takes_what_modulates_the_deleted_slot() {
    let mut matrix = ModMatrix::new();
    matrix.add(volume(0.0));
    matrix.add(onto(0, 1.0));
    matrix.add(onto(1, 2.0));
    matrix.add(route(
        ModMatrixSrc::Gate,
        ModMatrixDest::Osc { osc: 0, param: OscParam::Level },
        3.0,
    ));
    matrix.add(onto(3, 4.0));
    assert_eq!(matrix.delete(0), 3);
    assert_eq!(
        matrix.get(0),
        Some(route(
            ModMatrixSrc::Gate,
            ModMatrixDest::Osc { osc: 0, param: OscParam::Level },
            3.0
        ))
    );
    assert_eq!(matrix.get(1), Some(onto(0, 4.0)));
    assert_eq!(matrix.get(2), None);
    assert_eq!(occupied(&matrix), 2);
}

#[test]
fn delete_follows_chains_in_any_order_of_slots() {
    let mut matrix = ModMatrix::new();
    matrix.add(volume(0.0));
    matrix.add(volume(1.0));
    matrix.add(volume(2.0));
    matrix.add(volume(3.0));
    assert!(matrix.modify(0, onto(3, 0.0)));
    assert!(matrix.modify(1, onto(0, 1.0)));
    assert_eq!(matrix.delete(3), 3);
    assert_eq!(matrix.get(0), Some(volume(2.0)));
    assert_eq!(occupied(&matrix), 1);
}

#[test]
fn delete_ends_on_routes_that_modulate_each_other() {
    let mut matrix = ModMatrix::new();
    matrix.add(volume(0.0));
    matrix.add(volume(1.0));
    matrix.add(volume(2.0));
    assert!(matrix.modify(0, onto(1, 0.0)));
    assert!(matrix.modify(1, onto(0, 1.0)));
    assert_eq!(matrix.delete(0), 2);
    assert_eq!(matrix.get(0), Some(volume(2.0)));
    assert_eq!(occupied(&matrix), 1);
}

#[test]
fn delete_leaves_a_pair_that_does_not_reach_the_deleted_slot() {
    let mut matrix = ModMatrix::new();
    matrix.add(volume(0.0));
    matrix.add(volume(1.0));
    matrix.add(volume(2.0));
    assert!(matrix.modify(1, onto(2, 1.0)));
    assert!(matrix.modify(2, onto(1, 2.0)));
    assert_eq!(matrix.delete(0), 1);
    assert_eq!(matrix.get(0), Some(onto(1, 1.0)));
    assert_eq!(matrix.get(1), Some(onto(0, 2.0)));
}

#[test]
fn delete_of_the_last_slot_ends() {
    let mut matrix = ModMatrix::new();
    for i in 0..MOD_MATRIX_SIZE {
        matrix.add(volume(i as f32));
    }
    assert!(matrix.modify(254, onto(253, 1.0)));
    assert!(matrix.modify(253, onto(254, 1.0)));
    assert_eq!(matrix.delete(254), 2);
    assert_eq!(occupied(&matrix), 253);
    assert_eq!(matrix.get(252), Some(volume(252.0)));
    assert_eq!(matrix.get(253), None);
    assert_eq!(matrix.get(254), None);
}

#[test]
fn delete_beyond_the_matrix_changes_nothing() {
    let mut matrix = ModMatrix::new();
    matrix.add(volume(1.0));
    assert_eq!(matrix.delete(MOD_MATRIX_SIZE), 0);
    assert_eq!(matrix.delete(usize::MAX), 0);
    assert_eq!(matrix.get(0), Some(volume(1.0)));
}

#[test]
fn delete_of_an_empty_slot_closes_the_gap() {
    let mut matrix = ModMatrix::new();
    assert!(matrix.modify(2, volume(2.0)));
    assert!(matrix.modify(5, onto(2, 5.0)));
    assert_eq!(matrix.delete(0), 1);
    assert_eq!(matrix.get(1), Some(volume(2.0)));
    assert_eq!(matrix.get(4), Some(onto(1, 5.0)));
    assert_eq!(matrix.get(2), None);
    assert_eq!(matrix.get(5), None);
}

#[test]
fn no_reference_dangles_after_many_deletes() {
    let mut matrix = ModMatrix::new();
    for i in 0..40 {
        matrix.add(volume(i as f32));
    }
    for i in 0..40usize {
        matrix.add(onto((i * 7) % 40, i as f32));
    }
    for i in 0..30usize {
        matrix.add(onto(40 + (i * 11) % 40, i as f32));
    }
    for id in [3usize, 50, 0, 17, 17, 60, 2, 99, 1] {
        matrix.delete(id);
        for slot in 0..MOD_MATRIX_SIZE {
            if let Some(item) = matrix.get(slot) {
                if let ModMatrixDest::ModMatrixEntryModAmt(n) = item.dest {
                    assert!(n < MOD_MATRIX_SIZE);
                    assert_ne!(n, slot);
                    assert!(matrix.get(n).is_some());
                }
            }
        }
    }
}

#[test]
fn a_kept_reference_still_points_at_the_same_route() {
    let mut matrix = ModMatrix::new();
    matrix.add(volume(10.0));
    matrix.add(volume(11.0));
    matrix.add(route(
        ModMatrixSrc::Env(1),
        ModMatrixDest::Env { env: 2, param: EnvParam::Rel },
        12.0,
    ));
    matrix.add(route(
        ModMatrixSrc::Lfo(3),
        ModMatrixDest::Lfo { lfo: 1, param: LfoParam::Speed },
        13.0,
    ));
    matrix.add(onto(3, 0.5));
    matrix.delete(1);
    let kept = matrix.get(3).unwrap();
    assert_eq!(kept.amt, 0.5f32.to_bits());
    let target = match kept.dest {
        ModMatrixDest::ModMatrixEntryModAmt(n) => n,
        _ => panic!("the reference was lost"),
    };
    assert_eq!(target, 2);
    assert_eq!(matrix.get(target).unwrap().amt, 13.0f32.to_bits());
    assert_eq!(matrix.get(target).unwrap().src, ModMatrixSrc::Lfo(3));
}

#[test]
fn levels_are_scaled_and_the_rest_is_added_to() {
    assert_eq!(ModMatrixDest::SynthVolume.mod_kind(), ModKind::Scale);
    assert_eq!(ModMatrixDest::Osc { osc: 1, param: OscParam::Level }.mod_kind(), ModKind::Scale);
    assert_eq!(ModMatrixDest::Env { env: 0, param: EnvParam::Sus }.mod_kind(), ModKind::Scale);
    assert_eq!(ModMatrixDest::Osc { osc: 1, param: OscParam::Tune }.mod_kind(), ModKind::Add);
    assert_eq!(ModMatrixDest::Env { env: 0, param: EnvParam::Atk }.mod_kind(), ModKind::Add);
    assert_eq!(ModMatrixDest::Env { env: 0, param: EnvParam::Dcy }.mod_kind(), ModKind::Add);
    assert_eq!(ModMatrixDest::Env { env: 0, param: EnvParam::Rel }.mod_kind(), ModKind::Add);
    assert_eq!(ModMatrixDest::Lfo { lfo: 0, param: LfoParam::Speed }.mod_kind(), ModKind::Add);
    assert_eq!(ModMatrixDest::ModMatrixEntryModAmt(3).mod_kind(), ModKind::Add);
    assert_eq!(
        ModMatrixDest::LowPass { low_pass: LowPass::LP1, param: LowPassParam::Mix }.mod_kind(),
        ModKind::Add
    );
}
