use stepper_synth::config::{MOD_MATRIX_SIZE, N_ENV, N_OSC, POLYPHONY};
use stepper_synth::envelope::{EnvStage, EnvTime, DEFAULT_RELEASE};
use stepper_synth::mod_matrix::{ModMatrixDest, ModMatrixItem, ModMatrixSrc, OscParam};
use stepper_synth::synth_engines::wave_table::voice::Voice;
use stepper_synth::synth_engines::wave_table::{App, WaveTableEngine, UNITY};

fn held(app: &App) -> usize {
    (0..POLYPHONY).filter(|i| app.voice(*i).playing().is_some()).count()
}

#[test]
fn unity_is_the_number_one() {
    assert_eq!(UNITY, 1.0f32.to_bits());
}

#[test]
fn voice_is_free_when_all_envelopes_rest() {
    let mut voice = Voice::new();
    voice.set_env_time(1, EnvTime::Release, 10);
    voice.press(60, 99);
    assert_eq!(voice.playing(), Some(60));
    assert_eq!(voice.velocity(), 99);
    for n in 0..N_ENV {
        assert_eq!(voice.env(n).stage(), EnvStage::Attack);
    }
    voice.release();
    for _ in 0..10 {
        voice.tick();
    }
    assert!(voice.env(1).is_idle());
    assert_eq!(voice.env(0).stage(), EnvStage::Release);
    assert_eq!(voice.playing(), Some(60));
    for _ in 10..DEFAULT_RELEASE {
        voice.tick();
    }
    assert_eq!(voice.playing(), None);
}

#[test]
fn voice_oscillators_start_switched_on() {
    let mut voice = Voice::new();
    for n in 0..N_OSC {
        assert!(voice.osc_on(n));
    }
    voice.set_osc_on(1, false);
    assert!(voice.osc_on(0));
    assert!(!voice.osc_on(1));
}

#[test]
fn app_play_records_key_velocity_and_order() {
    let mut app = App::new();
    assert_eq!(app.play(60, 127), Some(0));
    assert_eq!(app.play(64, 1), Some(1));
    assert_eq!(app.note(0), Some((60, 127)));
    assert_eq!(app.note(1), Some((64, 1)));
    assert_eq!(app.note(2), None);
    assert_eq!(app.osc_order(), &vec![0, 1]);
    assert_eq!(app.voice(0).velocity(), 127);
    assert_eq!(app.voice(1).velocity(), 1);
}

#[test]
fn app_ignores_a_key_that_already_sounds() {
    let mut app = App::new();
    assert_eq!(app.play(60, 100), Some(0));
    assert_eq!(app.play(60, 50), None);
    assert_eq!(held(&app), 1);
    assert_eq!(app.voice(0).velocity(), 100);
}

#[test]
fn app_drops_the_key_beyond_its_polyphony() {
    let mut app = App::new();
    for i in 0..POLYPHONY {
        assert_eq!(app.play(30 + i as u8, 100), Some(i));
    }
    assert_eq!(app.play(100, 100), None);
    assert_eq!(held(&app), POLYPHONY);
    assert_eq!(app.osc_order().len(), POLYPHONY);
}

#[test]
fn app_stop_releases_and_leaves_the_order() {
    let mut app = App::new();
    app.play(60, 100);
    app.play(62, 100);
    app.play(64, 100);
    assert!(!app.stop(62));
    assert_eq!(app.osc_order(), &vec![0, 2]);
    assert_eq!(app.note(1), None);
    assert_eq!(app.voice(1).playing(), Some(62));
    assert_eq!(app.voice(1).env(0).stage(), EnvStage::Release);
    assert!(!app.stop(60));
    assert!(app.stop(64));
    assert!(app.osc_order().is_empty());
    assert!(app.stop(64));
}

#[test]
fn app_voice_comes_free_after_release_and_is_taken_again() {
    let mut app = App::new();
    for i in 0..POLYPHONY {
        app.play(30 + i as u8, 100);
    }
    app.stop(32);
    assert_eq!(app.play(90, 100), None);
    for _ in 0..DEFAULT_RELEASE {
        app.tick();
    }
    assert_eq!(app.voice(2).playing(), None);
    assert_eq!(app.play(90, 77), Some(2));
    assert_eq!(app.note(2), Some((90, 77)));
    assert_eq!(app.osc_order().last(), Some(&2));
    assert_eq!(held(&app), POLYPHONY);
}

#[test]
fn app_held_key_survives_a_second_of_ticks() {
    let mut app = App::new();
    app.play(60, 100);
    for _ in 0..48_000 {
        app.tick();
    }
    assert_eq!(app.voice(0).playing(), Some(60));
    assert_eq!(app.note(0), Some((60, 100)));
    assert_eq!(app.voice(0).env(0).stage(), EnvStage::Sustain);
}

#[test]
fn app_settings_reach_every_voice() {
    let mut app = App::new();
    app.set_osc_on(2, false);
    app.set_env_time(0, EnvTime::Attack, 5);
    for i in 0..POLYPHONY {
        assert!(!app.voice(i).osc_on(2));
        assert!(app.voice(i).osc_on(0));
    }
    app.play(60, 1);
    assert_eq!(app.voice(0).env(0).stage_len(), Some(5));
    assert_eq!(app.voice(0).env(1).stage_len(), Some(480));
}

#[test]
fn engine_starts_with_velocity_routes() {
    let engine = WaveTableEngine::new();
    let matrix = engine.synth.mod_matrix();
    let full = |dest| ModMatrixItem {
        src: ModMatrixSrc::Velocity,
        dest,
        amt: 1.0f32.to_bits(),
        bipolar: false,
    };
    assert_eq!(matrix.get(0), Some(full(ModMatrixDest::SynthVolume)));
    for osc in 0..N_OSC {
        assert_eq!(
            matrix.get(osc + 1),
            Some(full(ModMatrixDest::Osc { osc, param: OscParam::Level }))
        );
    }
    for slot in N_OSC + 1..MOD_MATRIX_SIZE {
        assert_eq!(matrix.get(slot), None);
    }
    assert_eq!(engine.name(), "WaveTable");
}

#[test]
fn velocity_route_to_volume_sees_each_velocity() {
    let mut app = App::new();
    let route = ModMatrixItem {
        src: ModMatrixSrc::Velocity,
        dest: ModMatrixDest::SynthVolume,
        amt: 1.0f32.to_bits(),
        bipolar: false,
    };
    assert_eq!(app.mod_matrix_add(route), Some(0));
    assert_eq!(app.mod_matrix().get(0), Some(route));
    app.play(60, 127);
    app.play(61, 1);
    let amount = f32::from_bits(app.mod_matrix().get(0).unwrap().amt);
    let loud = app.note(0).unwrap().1 as f32 / 127.0 * amount;
    let soft = app.note(1).unwrap().1 as f32 / 127.0 * amount;
    assert_eq!(loud, 1.0);
    assert_eq!(soft, 1.0 / 127.0);
    assert!(loud > 100.0 * soft);
}

#[test]
fn app_matrix_edits_go_to_the_matrix() {
    let mut app = App::new();
    let to = |dest| ModMatrixItem { src: ModMatrixSrc::Gate, dest, amt: 0, bipolar: true };
    assert_eq!(app.mod_matrix_add(to(ModMatrixDest::SynthVolume)), Some(0));
    assert_eq!(app.mod_matrix_add(to(ModMatrixDest::ModMatrixEntryModAmt(0))), Some(1));
    assert_eq!(app.mod_matrix_add(to(ModMatrixDest::ModMatrixEntryModAmt(9))), None);
    assert!(app.mod_matrix_mod(4, to(ModMatrixDest::ModMatrixEntryModAmt(1))));
    assert!(!app.mod_matrix_mod(4, to(ModMatrixDest::ModMatrixEntryModAmt(4))));
    assert_eq!(app.mod_matrix_del(0), 3);
    assert_eq!(app.mod_matrix().get(0), None);
    assert_eq!(app.mod_matrix_del(900), 0);
}

#[test]
fn lfos_start_over_with_each_key_that_takes_a_voice() {
    let mut app = App::new();
    assert!(!app.lfo_running());
    assert_eq!(app.lfo_epoch(), 0);
    assert!(app.stop(60));
    assert!(app.lfo_running());
    app.play(60, 100);
    assert_eq!(app.lfo_epoch(), 1);
    app.play(60, 100);
    assert_eq!(app.lfo_epoch(), 1);
    app.play(62, 100);
    assert_eq!(app.lfo_epoch(), 2);
    app.stop(60);
    app.stop(62);
    assert_eq!(app.lfo_epoch(), 2);
    assert!(app.lfo_running());
}

#[test]
fn default_app_is_the_new_app() {
    let mut app = App::default();
    assert!(app.osc_order().is_empty());
    assert_eq!(app.mod_matrix().get(0), None);
    assert_eq!(app.play(60, 100), Some(0));
}
