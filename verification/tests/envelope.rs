use stepper_synth::envelope::{
    EnvStage, EnvTime, ADSR, DEFAULT_ATTACK, DEFAULT_DECAY, DEFAULT_RELEASE,
};

#[test]
fn new_envelope_is_idle() {
    let env = ADSR::new();
    assert_eq!(env.stage(), EnvStage::Idle);
    assert!(env.is_idle());
    assert!(!env.pressed());
    assert_eq!(env.elapsed(), 0);
    assert_eq!(env.stage_len(), None);
}

#[test]
fn attack_lasts_its_length_in_ticks() {
    let mut env = ADSR::with_times(3, 2, 4);
    env.press();
    assert_eq!(env.stage(), EnvStage::Attack);
    assert_eq!(env.stage_len(), Some(3));
    env.tick();
    env.tick();
    assert_eq!(env.stage(), EnvStage::Attack);
    assert_eq!(env.elapsed(), 2);
    env.tick();
    assert_eq!(env.stage(), EnvStage::Decay);
    assert_eq!(env.elapsed(), 0);
    env.tick();
    env.tick();
    assert_eq!(env.stage(), EnvStage::Sustain);
}

#[test]
fn sustain_holds_until_release() {
    let mut env = ADSR::with_times(1, 1, 2);
    env.press();
    env.tick();
    env.tick();
    assert_eq!(env.stage(), EnvStage::Sustain);
    for _ in 0..100_000 {
        env.tick();
    }
    assert_eq!(env.stage(), EnvStage::Sustain);
    assert!(env.pressed());
}

#[test]
fn release_runs_to_idle_in_release_time() {
    let mut env = ADSR::with_times(5, 5, 4);
    env.press();
    env.tick();
    env.release();
    assert_eq!(env.stage(), EnvStage::Release);
    assert_eq!(env.elapsed(), 0);
    for _ in 0..3 {
        env.tick();
        assert_eq!(env.stage(), EnvStage::Release);
    }
    env.tick();
    assert_eq!(env.stage(), EnvStage::Idle);
    assert!(env.is_idle());
}

#[test]
fn release_of_idle_envelope_changes_nothing() {
    let mut env = ADSR::new();
    env.release();
    assert_eq!(env.stage(), EnvStage::Idle);
    env.tick();
    assert_eq!(env.stage(), EnvStage::Idle);
}

#[test]
fn second_release_does_not_restart_the_release() {
    let mut env = ADSR::with_times(2, 2, 10);
    env.press();
    env.release();
    env.tick();
    env.tick();
    env.tick();
    assert_eq!(env.elapsed(), 3);
    env.release();
    assert_eq!(env.stage(), EnvStage::Release);
    assert_eq!(env.elapsed(), 3);
}

#[test]
fn press_during_release_restarts_the_attack() {
    let mut env = ADSR::with_times(4, 4, 4);
    env.press();
    env.tick();
    env.release();
    env.tick();
    env.press();
    assert_eq!(env.stage(), EnvStage::Attack);
    assert_eq!(env.elapsed(), 0);
    assert!(env.pressed());
}

#[test]
fn stage_of_length_zero_takes_one_tick() {
    let mut env = ADSR::with_times(0, 0, 0);
    env.press();
    assert_eq!(env.stage(), EnvStage::Attack);
    env.tick();
    assert_eq!(env.stage(), EnvStage::Decay);
    env.tick();
    assert_eq!(env.stage(), EnvStage::Sustain);
    env.release();
    env.tick();
    assert_eq!(env.stage(), EnvStage::Idle);
}

#[test]
fn default_times_are_ten_and_hundred_milliseconds() {
    assert_eq!(DEFAULT_ATTACK, 480);
    assert_eq!(DEFAULT_DECAY, 4_800);
    assert_eq!(DEFAULT_RELEASE, 4_800);
    let mut env = ADSR::new();
    env.press();
    assert_eq!(env.stage_len(), Some(480));
    for _ in 0..480 {
        env.tick();
    }
    assert_eq!(env.stage(), EnvStage::Decay);
    assert_eq!(env.stage_len(), Some(4_800));
}

#[test]
fn shortening_a_running_stage_ends_it_at_the_next_tick() {
    let mut env = ADSR::with_times(100, 10, 10);
    env.press();
    for _ in 0..50 {
        env.tick();
    }
    assert_eq!(env.elapsed(), 50);
    env.set_atk(20);
    assert_eq!(env.stage(), EnvStage::Attack);
    assert_eq!(env.elapsed(), 0);
    assert_eq!(env.stage_len(), Some(20));
    env.set_time(EnvTime::Attack, 1);
    env.tick();
    assert_eq!(env.stage(), EnvStage::Decay);
}

#[test]
fn setting_another_stage_leaves_the_count() {
    let mut env = ADSR::with_times(100, 10, 10);
    env.press();
    for _ in 0..50 {
        env.tick();
    }
    env.set_decay(3);
    env.set_release(7);
    assert_eq!(env.elapsed(), 50);
    assert_eq!(env.stage_len(), Some(100));
}

#[test]
fn times_are_read_back() {
    let mut env = ADSR::with_times(1, 2, 3);
    assert_eq!(env.time(EnvTime::Attack), 1);
    assert_eq!(env.time(EnvTime::Decay), 2);
    assert_eq!(env.time(EnvTime::Release), 3);
    env.set_time(EnvTime::Decay, 9);
    assert_eq!(env.time(EnvTime::Decay), 9);
}
