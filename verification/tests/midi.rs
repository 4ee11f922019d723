use stepper_synth::effects::chorus::ChorusTap;
use stepper_synth::effects::reverb::{Reverb, ReverbParam};
use stepper_synth::effects::{EffectType, EffectsModule, EffectsModules};
use stepper_synth::envelope::EnvStage;
use stepper_synth::midi::{bend_raw, decode, MidiEvent};
use stepper_synth::params::{Control, GuiParam, Knob, LfoInput, Param, SynthEngineType};
use stepper_synth::synth_engines::midi_out_engine::MidiOutEngine;
use stepper_synth::synth_engines::{MidiAction, Synth, SynthChannel, SynthModule};

#[test]
fn decode_reads_notes() {
    assert_eq!(decode(&[144, 59, 88]), MidiEvent::NoteOn { channel: 0, key: 59, value: 88 });
    assert_eq!(decode(&[0x93, 60, 1]), MidiEvent::NoteOn { channel: 3, key: 60, value: 1 });
    assert_eq!(decode(&[128, 60, 0]), MidiEvent::NoteOff { channel: 0, key: 60, value: 0 });
    assert_eq!(decode(&[0x8F, 2, 3]), MidiEvent::NoteOff { channel: 15, key: 2, value: 3 });
}

#[test]
fn decode_reads_controls_and_bends() {
    assert_eq!(
        decode(&[176, 114, 65]),
        MidiEvent::ControlChange { channel: 0, control: 114, value: 65 }
    );
    assert_eq!(decode(&[224, 0, 76]), MidiEvent::PitchBend { channel: 0, lsb: 0, msb: 76 });
    assert_eq!(decode(&[0xE9, 1, 2, 3]), MidiEvent::PitchBend { channel: 9, lsb: 1, msb: 2 });
}

#[test]
fn decode_of_short_or_unknown_bytes_is_invalid() {
    assert_eq!(decode(&[]), MidiEvent::Invalid);
    assert_eq!(decode(&[0]), MidiEvent::Invalid);
    assert_eq!(decode(&[144, 59]), MidiEvent::Invalid);
    assert_eq!(decode(&[0x10, 1, 2]), MidiEvent::Invalid);
    assert_eq!(decode(&[0x7F, 1, 2]), MidiEvent::Invalid);
    assert_eq!(decode(&[0xF8, 0, 0]), MidiEvent::Invalid);
    assert_eq!(decode(&[0xFF, 0, 0]), MidiEvent::Invalid);
    assert_eq!(decode(&[0xF0, 0]), MidiEvent::Invalid);
}

#[test]
fn decode_passes_over_other_messages() {
    assert_eq!(decode(&[0xA0, 1, 2]), MidiEvent::Other);
    assert_eq!(decode(&[0xC5, 1, 2]), MidiEvent::Other);
    assert_eq!(decode(&[0xD0, 1, 2]), MidiEvent::Other);
    assert_eq!(decode(&[0xF0, 0, 1]), MidiEvent::Other);
    assert_eq!(decode(&[240, 30, 127, 66, 2, 0, 0, 16, 127, 247]), MidiEvent::Other);
}

#[test]
fn bend_raw_joins_the_bytes_as_little_endian() {
    assert_eq!(bend_raw(0, 0), 0);
    assert_eq!(bend_raw(0, 64), 16_384);
    assert_eq!(bend_raw(0x80, 0x3E), 16_000);
    assert_eq!(bend_raw(255, 127), i16::MAX);
    assert_eq!(bend_raw(0, 128), i16::MIN);
    assert_eq!(bend_raw(255, 255), -1);
    for (lsb, msb) in [(1u8, 2u8), (200, 100), (7, 250)] {
        assert_eq!(bend_raw(lsb, msb), i16::from_le_bytes([lsb, msb]));
    }
}

#[test]
fn knobs_answer_to_controls_70_to_77() {
    assert_eq!(Knob::from_control(69), None);
    assert_eq!(Knob::from_control(70), Some(Knob::One));
    assert_eq!(Knob::from_control(73), Some(Knob::Four));
    assert_eq!(Knob::from_control(77), Some(Knob::Eight));
    assert_eq!(Knob::from_control(78), None);
    assert_eq!(Knob::Eight.index(), 7);
}

#[test]
fn engine_types_have_places_and_names() {
    assert_eq!(SynthEngineType::B3Organ.index(), 0);
    assert_eq!(SynthEngineType::SubSynth.index(), 1);
    assert_eq!(SynthEngineType::Wurlitzer.index(), 2);
    assert_eq!(SynthEngineType::WaveTable.index(), 3);
    assert_eq!(SynthEngineType::SubSynth.name(), "Subtract");
    assert_eq!(SynthEngineType::B3Organ.name(), "Organ");
    assert_eq!(SynthEngineType::Wurlitzer.name(), "Wurlitzer");
    assert_eq!(SynthEngineType::WaveTable.name(), "WaveTable");
    assert_eq!(EffectType::Reverb.name(), "Reverb");
    assert_eq!(EffectType::Chorus.name(), "Chorus");
    assert_eq!(EffectType::Delay.name(), "Delay");
}

#[test]
fn midi_out_engine_names_its_device() {
    let mut engine = MidiOutEngine::new();
    assert_eq!(engine.name(), "Midi Out ANY");
    engine.output_dev = Some("Keys 1".to_string());
    assert_eq!(engine.name(), "Midi Out Keys 1");
    assert_eq!(SynthModule::MidiOutEngine(engine).name(), "Midi Out Keys 1");
}

#[test]
fn lfo_input_connects_and_disconnects() {
    let mut input = LfoInput::new();
    assert_eq!(input.target, None);
    input.lfo_connect(Param::Knob(Knob::One));
    assert!(input.drives(Param::Knob(Knob::One)));
    assert!(!input.drives(Param::Knob(Knob::Two)));
    input.lfo_disconnect();
    assert!(!input.drives(Param::Knob(Knob::One)));
}

#[test]
fn reverb_gain_follows_the_lfo_on_knob_one() {
    let mut reverb = Reverb::new();
    assert!(!reverb.gain_modulated());
    reverb.lfo_input.lfo_connect(Param::Knob(Knob::Two));
    assert!(!reverb.gain_modulated());
    reverb.lfo_input.lfo_connect(Param::Knob(Knob::One));
    assert!(reverb.gain_modulated());
    assert_eq!(
        reverb.get_param_list(),
        vec!["Gain".to_string(), "Decay".to_string(), "Damping".to_string(), "Cutoff".to_string()]
    );
    assert_eq!(ReverbParam::from_index(2), Some(ReverbParam::Damping));
    assert_eq!(ReverbParam::from_index(4), None);
    assert_eq!(ReverbParam::Cutoff.knob(), Knob::Four);
}

#[test]
fn effect_selection_skips_the_delay() {
    let mut effects = EffectsModules::new();
    assert_eq!(effects.effect(), EffectType::Reverb);
    effects.set(EffectType::Chorus);
    assert_eq!(effects.effect(), EffectType::Chorus);
    assert_eq!(effects.selected().effect_type(), EffectType::Chorus);
    effects.set(EffectType::Delay);
    assert_eq!(effects.effect(), EffectType::Chorus);
    effects.take_input(7);
    assert_eq!(effects.get_sample(), Some(ChorusTap { delayed: 7, direct: 7 }));
    assert_eq!(effects.get_sample(), Some(ChorusTap { delayed: 0, direct: 7 }));
    effects.set(EffectType::Reverb);
    effects.take_input(9);
    assert_eq!(effects.get_sample(), None);
    assert_eq!(effects.selected().effect_type(), EffectType::Reverb);
    assert_eq!(usize::from(SynthEngineType::Wurlitzer), 2);
    assert_eq!(EffectsModule::new(EffectType::Delay).effect_type(), EffectType::Chorus);
}

#[test]
fn channel_runs_effects_in_slot_order() {
    let mut channel = SynthChannel::new(SynthEngineType::B3Organ);
    assert!(channel.active_effects().is_empty());
    channel.set_effect(1, Some(EffectType::Chorus));
    assert_eq!(channel.effect(1), Some((EffectType::Chorus, false)));
    assert!(channel.active_effects().is_empty());
    channel.set_effect_power(1, true);
    channel.set_effect_power(0, true);
    assert_eq!(channel.effect(0), None);
    assert_eq!(channel.active_effects(), vec![1]);
    channel.set_effect(0, Some(EffectType::Reverb));
    channel.set_effect_power(0, true);
    assert_eq!(channel.active_effects(), vec![0, 1]);
    channel.set_effect(1, Some(EffectType::Reverb));
    assert_eq!(channel.effect(1), Some((EffectType::Reverb, true)));
    channel.set_effect(0, None);
    assert_eq!(channel.active_effects(), vec![1]);
}

#[test]
fn channel_chorus_takes_and_gives_samples() {
    let mut channel = SynthChannel::new(SynthEngineType::B3Organ);
    channel.set_effect(0, Some(EffectType::Chorus));
    channel.set_effect(1, Some(EffectType::Reverb));
    channel.take_input(0, 42);
    channel.take_input(1, 42);
    assert_eq!(channel.get_sample(0), Some(ChorusTap { delayed: 42, direct: 42 }));
    assert_eq!(channel.get_sample(1), None);
    assert_eq!(channel.get_sample(0), Some(ChorusTap { delayed: 0, direct: 42 }));
    assert!(channel.set_chorus_step(0, 0));
    assert!(!channel.set_chorus_step(1, 0));
    channel.set_effect(0, Some(EffectType::Chorus));
    assert_eq!(channel.get_sample(0), Some(ChorusTap { delayed: 0, direct: 0 }));
}

#[test]
fn switching_the_engine_gives_a_fresh_one() {
    let mut channel = SynthChannel::new(SynthEngineType::B3Organ);
    channel.play(60, 100);
    assert!(!channel.set_engine(SynthEngineType::B3Organ));
    match channel.engine() {
        SynthModule::B3Organ(organ) => assert_eq!(organ.voice(0).playing(), Some(60)),
        _ => panic!("the engine changed"),
    }
    assert!(channel.set_engine(SynthEngineType::Wurlitzer));
    assert_eq!(channel.engine_type(), SynthEngineType::Wurlitzer);
    assert!(channel.set_engine(SynthEngineType::B3Organ));
    match channel.engine() {
        SynthModule::B3Organ(organ) => assert_eq!(organ.voice(0).playing(), None),
        _ => panic!("the engine is no organ"),
    }
}

#[test]
fn synth_starts_with_two_organs() {
    let synth = Synth::new();
    assert_eq!(synth.n_channels(), 2);
    assert_eq!(synth.active_channel(), 0);
    assert_eq!(synth.get_channel().engine_type(), SynthEngineType::B3Organ);
    assert_eq!(synth.get_channel_engine(5).engine_type(), SynthEngineType::B3Organ);
    assert_eq!(synth.get_engine().name(), "Organ");
}

#[test]
fn synth_routes_notes_to_the_active_channel() {
    let mut synth = Synth::new();
    let on = MidiEvent::NoteOn { channel: 7, key: 60, value: 100 };
    assert_eq!(synth.midi_input(&on), MidiAction::Nothing);
    assert!(synth.set_active_channel(1));
    assert!(!synth.set_active_channel(2));
    assert_eq!(synth.midi_input(&MidiEvent::NoteOn { channel: 0, key: 62, value: 1 }), MidiAction::Nothing);
    let first = |synth: &Synth, channel: usize| match synth.get_channel_engine(channel).engine() {
        SynthModule::B3Organ(organ) => (organ.voice(0).playing(), organ.voice(0).env_filter().stage()),
        _ => panic!("no organ"),
    };
    assert_eq!(first(&synth, 0), (Some(60), EnvStage::Attack));
    assert_eq!(first(&synth, 1), (Some(62), EnvStage::Attack));
    synth.midi_input(&MidiEvent::NoteOff { channel: 0, key: 62, value: 0 });
    assert_eq!(first(&synth, 1), (Some(62), EnvStage::Release));
    assert_eq!(first(&synth, 0), (Some(60), EnvStage::Attack));
    synth.tick();
    assert_eq!(first(&synth, 0).1, EnvStage::Attack);
}

#[test]
fn synth_hands_bends_and_controls_back() {
    let mut synth = Synth::new();
    assert_eq!(synth.midi_input(&MidiEvent::Invalid), MidiAction::Invalid);
    assert_eq!(synth.midi_input(&MidiEvent::Other), MidiAction::Nothing);
    assert_eq!(
        synth.midi_input(&MidiEvent::PitchBend { channel: 0, lsb: 0x80, msb: 0x3E }),
        MidiAction::Bend { raw: 16_000 }
    );
    assert_eq!(
        synth.midi_input(&MidiEvent::ControlChange { channel: 0, control: 72, value: 64 }),
        MidiAction::Knob { knob: Knob::Three, control: Control::Overtone(2), value: 64 }
    );
    assert!(synth.set_channel_engine(0, SynthEngineType::SubSynth));
    assert_eq!(
        synth.midi_input(&MidiEvent::ControlChange { channel: 0, control: 74, value: 1 }),
        MidiAction::Knob { knob: Knob::Five, control: Control::Cutoff, value: 1 }
    );
    assert!(synth.set_channel_engine(0, SynthEngineType::B3Organ));
    assert_eq!(
        synth.midi_input(&MidiEvent::ControlChange { channel: 0, control: 1, value: 127 }),
        MidiAction::VolumeSwell { value: 127 }
    );
    assert_eq!(
        synth.midi_input(&MidiEvent::ControlChange { channel: 0, control: 115, value: 127 }),
        MidiAction::Nothing
    );
    assert!(synth.set_channel_engine(0, SynthEngineType::WaveTable));
    assert!(!synth.set_channel_engine(0, SynthEngineType::WaveTable));
    assert_eq!(
        synth.midi_input(&MidiEvent::ControlChange { channel: 0, control: 72, value: 64 }),
        MidiAction::Nothing
    );
}

#[test]
fn synth_plays_sequencer_channels_round_its_channels() {
    let mut synth = Synth::new();
    synth.play_on(3, 60, 100);
    synth.play_on(2, 61, 100);
    let keys = |synth: &Synth, channel: usize| match synth.get_channel_engine(channel).engine() {
        SynthModule::B3Organ(organ) => organ.voice(0).playing(),
        _ => panic!("no organ"),
    };
    assert_eq!(keys(&synth, 1), Some(60));
    assert_eq!(keys(&synth, 0), Some(61));
    synth.stop_on(1, 60);
    synth.channel_mut(0).set_target_effects(true);
    synth.channel_mut(1).set_effect(0, Some(EffectType::Chorus));
    assert_eq!(synth.get_channel_engine(1).effect(0), Some((EffectType::Chorus, false)));
}

#[test]
fn every_engine_takes_notes() {
    for kind in [
        SynthEngineType::B3Organ,
        SynthEngineType::SubSynth,
        SynthEngineType::Wurlitzer,
        SynthEngineType::WaveTable,
        SynthEngineType::MidiOut,
    ] {
        let mut engine = SynthModule::new(kind);
        assert_eq!(engine.engine_type(), kind);
        engine.play(60, 100);
        engine.tick();
        engine.stop(60);
        engine.tick();
        let sounding = match &engine {
            SynthModule::B3Organ(organ) => organ.voice(0).playing(),
            SynthModule::SubSynth(synth) => synth.bank(1).voice(0).playing(),
            SynthModule::Wurli(wurli) => wurli.voice(0).playing(),
            SynthModule::WaveTable(engine) => engine.synth.voice(0).playing(),
            SynthModule::MidiOutEngine(_) => Some(60),
        };
        assert_eq!(sounding, Some(60));
    }
}

#[test]
fn knobs_and_editor_controls_by_engine() {
    let organ = SynthEngineType::B3Organ;
    let sub = SynthEngineType::SubSynth;
    assert_eq!(Control::for_knob(organ, Knob::One), Control::Overtone(0));
    assert_eq!(Control::for_knob(organ, Knob::Eight), Control::Overtone(7));
    assert_eq!(Control::for_knob(sub, Knob::One), Control::Attack);
    assert_eq!(Control::for_knob(sub, Knob::Two), Control::Decay);
    assert_eq!(Control::for_knob(sub, Knob::Three), Control::Sustain);
    assert_eq!(Control::for_knob(sub, Knob::Four), Control::Release);
    assert_eq!(Control::for_knob(sub, Knob::Five), Control::Cutoff);
    assert_eq!(Control::for_knob(sub, Knob::Six), Control::Resonance);
    assert_eq!(Control::for_knob(sub, Knob::Seven), Control::Unused);
    assert_eq!(Control::for_knob(SynthEngineType::Wurlitzer, Knob::One), Control::Unused);
    assert_eq!(Control::for_gui(organ, GuiParam::A), Control::Attack);
    assert_eq!(Control::for_gui(organ, GuiParam::C), Control::Sustain);
    assert_eq!(Control::for_gui(organ, GuiParam::E), Control::Unused);
    assert_eq!(Control::for_gui(sub, GuiParam::A), Control::Shape(0));
    assert_eq!(Control::for_gui(sub, GuiParam::B), Control::Shape(1));
    assert_eq!(Control::for_gui(sub, GuiParam::C), Control::Mix);
    assert_eq!(Control::for_gui(sub, GuiParam::D), Control::Offset);
    assert_eq!(Control::for_gui(SynthEngineType::WaveTable, GuiParam::A), Control::Unused);
}
