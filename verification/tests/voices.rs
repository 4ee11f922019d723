use stepper_synth::envelope::{EnvStage, DEFAULT_ATTACK, DEFAULT_RELEASE};
use stepper_synth::synth_engines::organ::{Organ, VOICES};
use stepper_synth::synth_engines::synth::synth::{transpose, OscType, Synth, BANKS};
use stepper_synth::synth_engines::synth::OscType as Shape;
use stepper_synth::synth_engines::synth_common::Oscillator;
use stepper_synth::synth_engines::wurlitzer::note_osc::{
    WurliNoteOsc, TIMBRE_DECAY, VOLUME_DECAY, WURLI_ATTACK,
};
use stepper_synth::synth_engines::wurlitzer::WurlitzerEngine;

fn sounding(organ: &Organ) -> usize {
    (0..VOICES).filter(|i| organ.voice(*i).playing().is_some()).count()
}

#[test]
fn oscillator_press_tick_release() {
    let mut osc = Oscillator::new();
    assert_eq!(osc.playing(), None);
    assert!(!osc.is_pressed());
    osc.press(60);
    assert_eq!(osc.playing(), Some(60));
    assert_eq!(osc.pitch(), 60);
    assert!(osc.is_pressed());
    osc.release();
    assert_eq!(osc.playing(), Some(60));
    assert!(!osc.is_pressed());
    for _ in 0..DEFAULT_RELEASE {
        osc.tick();
    }
    assert_eq!(osc.playing(), None);
    assert!(osc.env_filter().is_idle());
}

#[test]
fn oscillator_press_tuned_keeps_key_and_pitch_apart() {
    let mut osc = Oscillator::new();
    osc.press_tuned(60, 48);
    assert_eq!(osc.playing(), Some(60));
    assert_eq!(osc.pitch(), 48);
}

#[test]
fn organ_play_takes_first_free_voice() {
    let mut organ = Organ::new();
    organ.play(60, 100);
    organ.play(64, 100);
    assert_eq!(organ.voice(0).playing(), Some(60));
    assert_eq!(organ.voice(1).playing(), Some(64));
    assert_eq!(organ.voice(2).playing(), None);
    assert_eq!(organ.voice(0).env_filter().stage(), EnvStage::Attack);
    assert_eq!(sounding(&organ), 2);
}

#[test]
fn organ_ignores_a_key_that_already_sounds() {
    let mut organ = Organ::new();
    organ.play(60, 100);
    organ.play(60, 30);
    assert_eq!(sounding(&organ), 1);
    organ.stop(60);
    organ.play(60, 100);
    assert_eq!(sounding(&organ), 1);
    assert_eq!(organ.voice(0).env_filter().stage(), EnvStage::Release);
}

#[test]
fn organ_drops_the_eleventh_key() {
    let mut organ = Organ::new();
    for note in 0..VOICES as u8 {
        organ.play(40 + note, 100);
    }
    assert_eq!(sounding(&organ), VOICES);
    organ.play(100, 100);
    assert_eq!(sounding(&organ), VOICES);
    for i in 0..VOICES {
        assert_eq!(organ.voice(i).playing(), Some(40 + i as u8));
    }
}

#[test]
fn organ_voice_is_reused_after_its_release() {
    let mut organ = Organ::new();
    for note in 0..VOICES as u8 {
        organ.play(40 + note, 100);
    }
    organ.stop(43);
    for _ in 0..DEFAULT_RELEASE {
        organ.tick();
    }
    assert_eq!(organ.voice(3).playing(), None);
    assert_eq!(sounding(&organ), VOICES - 1);
    organ.play(100, 100);
    assert_eq!(organ.voice(3).playing(), Some(100));
    assert_eq!(sounding(&organ), VOICES);
}

#[test]
fn organ_held_note_sounds_for_a_second() {
    let mut organ = Organ::new();
    organ.play(60, 100);
    for sample in 0..48_000u32 {
        organ.tick();
        let voice = organ.voice(0);
        assert_eq!(voice.playing(), Some(60));
        let stage = voice.env_filter().stage();
        assert!(stage != EnvStage::Idle && stage != EnvStage::Release);
        if sample + 1 == DEFAULT_ATTACK {
            assert_eq!(stage, EnvStage::Decay);
        }
    }
    assert_eq!(organ.voice(0).env_filter().stage(), EnvStage::Sustain);
}

#[test]
fn organ_note_stopped_at_once_dies_within_release_time() {
    let mut organ = Organ::new();
    organ.play(60, 100);
    organ.stop(60);
    assert_eq!(organ.voice(0).env_filter().stage(), EnvStage::Release);
    let mut last = 0;
    for _ in 0..DEFAULT_RELEASE - 1 {
        organ.tick();
        let env = organ.voice(0).env_filter();
        assert_eq!(env.stage(), EnvStage::Release);
        assert_eq!(env.elapsed(), last + 1);
        last = env.elapsed();
    }
    organ.tick();
    assert_eq!(organ.voice(0).playing(), None);
    assert!(organ.voice(0).env_filter().is_idle());
    organ.tick();
    assert_eq!(organ.voice(0).playing(), None);
}

#[test]
fn organ_stop_of_unknown_key_changes_nothing() {
    let mut organ = Organ::new();
    organ.play(60, 100);
    organ.stop(61);
    assert_eq!(organ.voice(0).env_filter().stage(), EnvStage::Attack);
}

#[test]
fn organ_envelope_times_reach_every_voice() {
    let mut organ = Organ::new();
    organ.set_atk(7);
    organ.set_decay(8);
    organ.set_release(9);
    organ.play(60, 1);
    assert_eq!(organ.voice(0).env_filter().stage_len(), Some(7));
    organ.stop(60);
    assert_eq!(organ.voice(0).env_filter().stage_len(), Some(9));
    organ.play(61, 1);
    for _ in 0..7 {
        organ.tick();
    }
    assert_eq!(organ.voice(1).env_filter().stage(), EnvStage::Decay);
    assert_eq!(organ.voice(1).env_filter().stage_len(), Some(8));
    assert_eq!(organ.name(), "Organ");
}

#[test]
fn transpose_lowers_by_the_low_byte_of_the_offset() {
    assert_eq!(transpose(60, 0), 60);
    assert_eq!(transpose(60, 12), 48);
    assert_eq!(transpose(5, 12), 5);
    assert_eq!(transpose(60, 256 + 12), 48);
    assert_eq!(transpose(250, -12), 6);
    assert_eq!(transpose(60, -12), 60);
    assert_eq!(transpose(60, i16::MIN), 60);
    assert_eq!(transpose(255, -1), 0);
}

#[test]
fn sub_synth_plays_a_key_on_both_banks() {
    let mut synth = Synth::new();
    synth.set_offset(1, 12);
    synth.play(60, 100);
    assert_eq!(synth.bank(0).voice(0).playing(), Some(60));
    assert_eq!(synth.bank(0).voice(0).pitch(), 60);
    assert_eq!(synth.bank(1).voice(0).playing(), Some(60));
    assert_eq!(synth.bank(1).voice(0).pitch(), 48);
    assert_eq!(synth.bank(1).offset(), 12);
    assert_eq!(BANKS, 2);
}

#[test]
fn sub_synth_ignores_a_held_key_but_replays_a_released_one() {
    let mut synth = Synth::new();
    synth.play(60, 100);
    synth.play(60, 100);
    assert_eq!(synth.bank(0).voice(1).playing(), None);
    synth.stop(60);
    assert_eq!(synth.bank(0).voice(0).env_filter().stage(), EnvStage::Release);
    assert_eq!(synth.bank(1).voice(0).env_filter().stage(), EnvStage::Release);
    synth.play(60, 100);
    assert_eq!(synth.bank(0).voice(1).playing(), Some(60));
    assert_eq!(synth.bank(0).voice(1).env_filter().stage(), EnvStage::Attack);
    synth.stop(60);
    assert_eq!(synth.bank(0).voice(1).env_filter().stage(), EnvStage::Release);
}

#[test]
fn sub_synth_shapes_and_times() {
    let mut synth = Synth::new();
    assert_eq!(synth.osc_type(0), OscType::Sin);
    assert_eq!(synth.osc_type(1), OscType::Saw);
    synth.set_osc_type(0, 2);
    synth.set_osc_type(1, 17);
    assert_eq!(synth.osc_type(0), OscType::Sqr);
    assert_eq!(synth.osc_type(1), OscType::Saw);
    assert_eq!(OscType::from_index(1), OscType::Tri);
    assert_eq!(OscType::Tri.index(), 1);
    synth.set_atk(3);
    synth.set_decay(4);
    synth.set_release(5);
    synth.play(70, 1);
    for _ in 0..3 {
        synth.tick();
    }
    assert_eq!(synth.bank(1).voice(0).env_filter().stage(), EnvStage::Decay);
    synth.stop(70);
    for _ in 0..5 {
        synth.tick();
    }
    assert_eq!(synth.bank(0).voice(0).playing(), None);
    assert_eq!(synth.bank(1).voice(0).playing(), None);
    assert_eq!(synth.name(), "Synth");
}

#[test]
fn wurli_voice_runs_both_envelopes() {
    let mut osc = WurliNoteOsc::new();
    assert_eq!(osc.vol_env().stage(), EnvStage::Idle);
    osc.press(60, 90);
    assert_eq!(osc.playing(), Some(60));
    assert_eq!(osc.vel(), 90);
    assert!(osc.is_pressed());
    assert_eq!(osc.vol_env().stage_len(), Some(WURLI_ATTACK));
    assert_eq!(osc.param_env().stage(), EnvStage::Attack);
    for _ in 0..WURLI_ATTACK {
        osc.tick();
    }
    assert_eq!(osc.vol_env().stage_len(), Some(VOLUME_DECAY));
    assert_eq!(osc.param_env().stage_len(), Some(TIMBRE_DECAY));
    osc.release();
    assert!(!osc.is_pressed());
    for _ in 0..DEFAULT_RELEASE {
        osc.tick();
    }
    assert_eq!(osc.playing(), None);
}

#[test]
fn wurlitzer_engine_allocates_like_the_organ() {
    let mut engine = WurlitzerEngine::new();
    engine.play(60, 10);
    engine.play(60, 20);
    engine.play(62, 30);
    assert_eq!(engine.voice(0).playing(), Some(60));
    assert_eq!(engine.voice(0).vel(), 10);
    assert_eq!(engine.voice(1).playing(), Some(62));
    assert_eq!(engine.voice(1).vel(), 30);
    assert_eq!(engine.voice(2).playing(), None);
    engine.stop(60);
    for _ in 0..DEFAULT_RELEASE {
        engine.tick();
    }
    assert_eq!(engine.voice(0).playing(), None);
    assert_eq!(engine.voice(1).playing(), Some(62));
    assert_eq!(engine.name(), "Wurlitzer");
}

#[test]
fn shapes_come_from_numbers() {
    assert_eq!(OscType::from(0usize), OscType::Sin);
    assert_eq!(OscType::from(3usize), OscType::Saw);
    assert_eq!(OscType::from(9usize), OscType::Saw);
    assert_eq!(Shape::from(0usize), Shape::Sin);
    assert_eq!(Shape::from(1usize), Shape::Saw);
    assert_eq!(Shape::from_index(5), Shape::Saw);
    assert_eq!(Shape::Saw.index(), 1);
}
