use stepper_synth::effects::chorus::{Chorus, ChorusParam, ChorusTap, CHORUS_SIZE, DEFAULT_STEP};
use stepper_synth::SAMPLE_RATE;

#[test]
fn new_chorus_is_silent_with_an_eighth_second_stride() {
    let mut chorus = Chorus::new();
    assert_eq!(CHORUS_SIZE, SAMPLE_RATE as usize);
    assert_eq!(chorus.step(), DEFAULT_STEP);
    assert_eq!(DEFAULT_STEP, (48_000.0f32 * (0.25 * 0.5)) as usize);
    assert_eq!(chorus.insert_i(), 0);
    assert_eq!(chorus.get_i(), 0);
    assert_eq!(chorus.get_sample(), ChorusTap { delayed: 0, direct: 0 });
}

#[test]
fn write_cursor_moves_by_one_and_wraps() {
    let mut chorus = Chorus::new();
    chorus.take_input(7);
    assert_eq!(chorus.insert_i(), 1);
    for _ in 1..CHORUS_SIZE {
        chorus.take_input(0);
    }
    assert_eq!(chorus.insert_i(), 0);
    chorus.take_input(9);
    assert_eq!(chorus.insert_i(), 1);
    assert_eq!(chorus.get_sample().delayed, 9);
}

#[test]
fn read_cursor_moves_by_the_stride_and_wraps() {
    let mut chorus = Chorus::new();
    chorus.set_step(20_000);
    chorus.get_sample();
    assert_eq!(chorus.get_i(), 20_000);
    chorus.get_sample();
    assert_eq!(chorus.get_i(), 40_000);
    chorus.get_sample();
    assert_eq!(chorus.get_i(), 12_000);
}

#[test]
fn huge_stride_wraps_without_overflow() {
    let mut chorus = Chorus::new();
    chorus.set_step(usize::MAX);
    chorus.get_sample();
    chorus.get_sample();
    let once = (usize::MAX % CHORUS_SIZE) as u128;
    assert_eq!(chorus.get_i() as u128, (2 * once) % CHORUS_SIZE as u128);
}

#[test]
fn zero_stride_freezes_the_read_cursor() {
    let mut chorus = Chorus::new();
    chorus.set_step(0);
    chorus.take_input(5);
    chorus.take_input(6);
    for _ in 0..10 {
        assert_eq!(chorus.get_sample().delayed, 5);
        assert_eq!(chorus.get_i(), 0);
    }
}

#[test]
fn impulse_echoes_when_the_read_cursor_comes_round() {
    let impulse = 1.0f32.to_bits();
    let volume = 0.75f32;
    let scaled = (f32::from_bits(impulse) * volume).to_bits();
    let step = (SAMPLE_RATE as f32 * (0.25 * 0.5)) as usize;
    assert_eq!(step, 6_000);
    let mut chorus = Chorus::new();
    chorus.set_step(step);
    let mut heard = Vec::new();
    for sample in 0..17 {
        chorus.take_input(if sample == 0 { scaled } else { 0.0f32.to_bits() });
        let tap = chorus.get_sample();
        if sample == 0 {
            assert_eq!(tap.direct, scaled);
        }
        if sample == 1 {
            assert_eq!(chorus.get_i(), 2 * step);
        }
        let out = (f32::from_bits(tap.delayed) + f32::from_bits(tap.direct)).tanh();
        heard.push((tap.delayed, out));
    }
    let per_round = CHORUS_SIZE / step;
    for (sample, (delayed, out)) in heard.iter().enumerate() {
        if sample % per_round == 0 {
            assert_eq!(*delayed, scaled);
            let direct = if sample == 0 { volume } else { 0.0 };
            assert_eq!(*out, (volume + direct).tanh());
        } else {
            assert_eq!(*delayed, 0.0f32.to_bits());
            assert_eq!(*out, 0.0);
        }
    }
}

#[test]
fn two_runs_give_the_same_output() {
    let inputs: Vec<u32> = (0..5_000u32).map(|i| i.wrapping_mul(2_654_435_761)).collect();
    let run = |inputs: &Vec<u32>| {
        let mut chorus = Chorus::new();
        chorus.set_step(1_234);
        let mut out = Vec::new();
        for value in inputs {
            chorus.take_input(*value);
            out.push(chorus.get_sample());
        }
        out
    };
    assert_eq!(run(&inputs), run(&inputs));
}

#[test]
fn chorus_parameters_have_numbers_and_names() {
    assert_eq!(ChorusParam::from_index(0), Some(ChorusParam::Volume));
    assert_eq!(ChorusParam::from_index(1), Some(ChorusParam::Speed));
    assert_eq!(ChorusParam::from_index(2), None);
    assert_eq!(ChorusParam::Volume.name(), "Vol.");
    assert_eq!(Chorus::new().get_param_list(), vec!["Vol.".to_string(), "Speed".to_string()]);
}
