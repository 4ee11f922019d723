use stepper_synth::midi::MidiEvent;
use stepper_synth::sequencer::{
    send_channel, send_midi, stop_all, targets_same, toggle, PerChannelMidi, Sequence,
    SequenceChannel, SequenceIndex, SequencerIntake, Step, StepCmd, DEFAULT_BPM, DEFAULT_STEPS,
};
use stepper_synth::synth_engines::{Synth, SynthModule};

fn note_on(key: u8, value: u8) -> MidiEvent {
    MidiEvent::NoteOn { channel: 9, key, value }
}

fn note_off(key: u8) -> MidiEvent {
    MidiEvent::NoteOff { channel: 9, key, value: 0 }
}

fn control(control: u8) -> MidiEvent {
    MidiEvent::ControlChange { channel: 0, control, value: 127 }
}

fn first_key(synth: &Synth, channel: usize) -> Option<u8> {
    match synth.get_channel_engine(channel).engine() {
        SynthModule::B3Organ(organ) => organ.voice(0).playing(),
        _ => panic!("no organ"),
    }
}

#[test]
fn commands_about_the_same_thing() {
    let play = StepCmd::Play { note: 60, vel: 1 };
    assert!(targets_same(&play, &StepCmd::Play { note: 60, vel: 99 }));
    assert!(!targets_same(&play, &StepCmd::Play { note: 61, vel: 1 }));
    assert!(!targets_same(&play, &StepCmd::Stop { note: 60 }));
    assert!(targets_same(&StepCmd::Stop { note: 3 }, &StepCmd::Stop { note: 3 }));
    assert!(targets_same(&StepCmd::CC { code: 7, value: 0 }, &StepCmd::CC { code: 7, value: 9 }));
    assert!(!targets_same(&StepCmd::CC { code: 7, value: 0 }, &StepCmd::CC { code: 8, value: 0 }));
}

#[test]
fn toggle_adds_then_removes() {
    let mut messages = Vec::new();
    toggle(&mut messages, 2, StepCmd::Play { note: 60, vel: 10 });
    toggle(&mut messages, 2, StepCmd::Play { note: 62, vel: 20 });
    toggle(&mut messages, 2, StepCmd::Stop { note: 60 });
    assert_eq!(
        messages,
        vec![
            (2, StepCmd::Play { note: 60, vel: 10 }),
            (2, StepCmd::Play { note: 62, vel: 20 }),
            (2, StepCmd::Stop { note: 60 }),
        ]
    );
    toggle(&mut messages, 2, StepCmd::Play { note: 60, vel: 99 });
    assert_eq!(
        messages,
        vec![(2, StepCmd::Play { note: 62, vel: 20 }), (2, StepCmd::Stop { note: 60 })]
    );
}

#[test]
fn toggle_removes_every_command_about_the_same_thing() {
    let mut messages = vec![
        (0, StepCmd::Play { note: 60, vel: 10 }),
        (1, StepCmd::Play { note: 60, vel: 10 }),
        (0, StepCmd::Play { note: 61, vel: 10 }),
    ];
    toggle(&mut messages, 3, StepCmd::Play { note: 60, vel: 50 });
    assert_eq!(messages, vec![(0, StepCmd::Play { note: 61, vel: 10 })]);
}

#[test]
fn channels_have_numbers_and_neighbours() {
    assert_eq!(SequenceChannel::A.into_u8(), 0);
    assert_eq!(SequenceChannel::D.into_u8(), 3);
    assert_eq!(SequenceChannel::from_usize(0), SequenceChannel::A);
    assert_eq!(SequenceChannel::from_usize(2), SequenceChannel::C);
    assert_eq!(SequenceChannel::from_usize(3), SequenceChannel::D);
    assert_eq!(SequenceChannel::from_usize(99), SequenceChannel::D);
    assert!(SequenceChannel::B.matches(b"b"));
    assert!(!SequenceChannel::B.matches(b"a"));
    assert!(!SequenceChannel::B.matches(b"bb"));
    let mut head = SequenceIndex::new();
    head.prev_channel();
    assert_eq!(head.get_channel(), SequenceChannel::D);
    head.next_channel();
    head.next_channel();
    assert_eq!(head.get_channel(), SequenceChannel::B);
    head.set_channel(SequenceChannel::C);
    assert_eq!(head.channel, SequenceChannel::C);
}

#[test]
fn head_moves_between_sequences() {
    let mut head = SequenceIndex::new();
    head.step = 5;
    head.next_sequence();
    assert_eq!(head.get_sequence(), 1);
    assert_eq!(head.step, 0);
    head.step = 5;
    head.prev_sequence();
    assert_eq!(head.get_sequence(), 0);
    assert_eq!(head.step, 0);
}

#[test]
fn new_sequencer_has_four_sequences_of_sixteen_steps() {
    let intake = SequencerIntake::new();
    assert_eq!(intake.n_sequences(), 4);
    assert_eq!(intake.get_sequence().steps.len(), DEFAULT_STEPS);
    assert_eq!(intake.get_sequence().human_name, None);
    assert_eq!(intake.bpm(), DEFAULT_BPM);
    assert_eq!(intake.bpm(), 120);
    assert!(!intake.state().playing);
    assert!(!intake.state().recording);
    assert_eq!(intake.get_cursor(false), 0);
    assert_eq!(intake.get_cursor(true), 0);
    assert_eq!(intake.get_name(), "0");
    assert!(intake.get_step(false).on_enter.channel_a.is_empty());
    assert_eq!(Sequence::new().steps.len(), 16);
    assert!(Step::new().on_exit.channel_d.is_empty());
}

#[test]
fn steps_wrap_round_the_sequence() {
    let mut intake = SequencerIntake::new();
    intake.prev_step();
    assert_eq!(intake.get_cursor(false), 15);
    intake.next_step();
    assert_eq!(intake.get_cursor(false), 0);
    intake.next_step();
    assert_eq!(intake.get_cursor(false), 1);
    intake.add_step();
    assert_eq!(intake.get_sequence().steps.len(), 17);
    intake.prev_step();
    intake.prev_step();
    assert_eq!(intake.get_cursor(false), 16);
    intake.del_step();
    intake.del_step();
    assert_eq!(intake.get_sequence().steps.len(), 15);
    intake.next_step();
    assert_eq!(intake.get_cursor(false), 2);
    intake.rewind();
    assert_eq!(intake.get_cursor(false), 0);
}

#[test]
fn sequences_wrap_and_names_follow_the_head() {
    let mut intake = SequencerIntake::new();
    intake.prev_sequence();
    assert_eq!(intake.rw_head().sequence, 3);
    assert_eq!(intake.get_name(), "3");
    intake.next_sequence();
    assert_eq!(intake.rw_head().sequence, 0);
    intake.set_rec_head_seq(6);
    assert_eq!(intake.rw_head().sequence, 2);
    intake.set_sequence(9);
    assert_eq!(intake.rw_head().sequence, 2);
    intake.set_sequence(1);
    assert_eq!(intake.rw_head().sequence, 1);
    intake.new_sequence();
    assert_eq!(intake.n_sequences(), 5);
    intake.del_sequence(7);
    assert_eq!(intake.n_sequences(), 5);
    intake.del_sequence(4);
    assert_eq!(intake.n_sequences(), 4);
    assert_eq!(intake.rw_head().sequence, 1);
    assert_eq!(intake.view_head().sequence, 0);
}

#[test]
fn deleting_an_earlier_sequence_moves_the_head_back() {
    let mut intake = SequencerIntake::new();
    intake.set_sequence(2);
    intake.add_step();
    intake.del_sequence(2);
    assert_eq!(intake.rw_head().sequence, 1);
    assert_eq!(intake.n_sequences(), 3);
    assert_eq!(intake.get_sequence().steps.len(), 16);
}

#[test]
fn tempo_stays_between_one_and_the_top() {
    let mut intake = SequencerIntake::new();
    intake.tempo_up();
    assert_eq!(intake.bpm(), 121);
    intake.tempo_down();
    intake.tempo_down();
    assert_eq!(intake.bpm(), 119);
    for _ in 0..200 {
        intake.tempo_down();
    }
    assert_eq!(intake.bpm(), 1);
    for _ in 0..65_533 {
        intake.tempo_up();
    }
    assert_eq!(intake.bpm(), 65_534);
    intake.tempo_up();
    assert_eq!(intake.bpm(), 1);
}

#[test]
fn transport_controls_switch_playing_and_recording() {
    let mut intake = SequencerIntake::new();
    intake.midi_input(&control(119));
    assert!(intake.state().recording && !intake.state().playing);
    intake.midi_input(&control(118));
    assert!(!intake.state().recording && intake.state().playing);
    intake.midi_input(&control(117));
    assert!(!intake.state().recording && !intake.state().playing);
    intake.midi_input(&control(116));
    intake.midi_input(&control(116));
    assert_eq!(intake.get_cursor(false), 2);
    intake.midi_input(&control(115));
    assert_eq!(intake.get_cursor(false), 1);
    intake.midi_input(&control(115));
    intake.midi_input(&control(115));
    assert_eq!(intake.get_cursor(false), 15);
    intake.midi_input(&control(70));
    assert_eq!(intake.get_cursor(false), 15);
    intake.start_recording();
    intake.start_playing();
    assert!(!intake.state().recording && intake.state().playing);
    intake.start_recording();
    assert!(intake.state().recording && intake.state().playing);
    intake.stop_seq();
    assert!(!intake.state().recording && !intake.state().playing);
}

#[test]
fn notes_are_recorded_only_while_recording() {
    let mut intake = SequencerIntake::new();
    intake.midi_input(&note_on(60, 100));
    assert!(intake.get_step(false).on_enter.channel_a.is_empty());
    intake.start_recording();
    intake.set_rec_channel(SequenceChannel::C);
    intake.midi_input(&note_on(60, 100));
    intake.midi_input(&note_off(60));
    intake.midi_input(&MidiEvent::PitchBend { channel: 0, lsb: 0, msb: 64 });
    let step = intake.get_step(false);
    assert_eq!(step.on_enter.channel_c, vec![(2, StepCmd::Play { note: 60, vel: 100 })]);
    assert_eq!(step.on_exit.channel_c, vec![(2, StepCmd::Stop { note: 60 })]);
    assert!(step.on_enter.channel_a.is_empty());
    assert_eq!(step.on_enter.get(SequenceChannel::C).len(), 1);
    assert_eq!(step.on_enter.by_channel()[2].len(), 1);
    intake.midi_input(&note_on(60, 5));
    assert!(intake.get_step(false).on_enter.channel_c.is_empty());
    intake.next_channel();
    assert_eq!(intake.rw_head().channel, SequenceChannel::D);
    intake.prev_channel();
    assert_eq!(intake.rw_head().channel, SequenceChannel::C);
}

#[test]
fn sending_commands_plays_and_tracks_keys() {
    let mut synth = Synth::new();
    let mut playing = Vec::new();
    let messages = vec![
        (0, StepCmd::Play { note: 60, vel: 100 }),
        (1, StepCmd::Play { note: 64, vel: 100 }),
        (0, StepCmd::CC { code: 1, value: 2 }),
        (0, StepCmd::Play { note: 60, vel: 100 }),
    ];
    send_midi(&mut synth, &messages, &mut playing);
    assert_eq!(playing, vec![(0, 60), (1, 64)]);
    assert_eq!(first_key(&synth, 0), Some(60));
    assert_eq!(first_key(&synth, 1), Some(64));
    send_midi(&mut synth, &vec![(0, StepCmd::Stop { note: 60 })], &mut playing);
    assert_eq!(playing, vec![(1, 64)]);
    stop_all(&mut synth, &playing);
    for _ in 0..4_800 {
        synth.tick();
    }
    assert_eq!(first_key(&synth, 0), None);
    assert_eq!(first_key(&synth, 1), None);
}

#[test]
fn a_beat_sends_the_last_exit_then_the_entry() {
    let mut intake = SequencerIntake::new();
    intake.start_recording();
    intake.midi_input(&note_on(60, 100));
    intake.midi_input(&note_off(60));
    intake.next_step();
    intake.set_rec_channel(SequenceChannel::B);
    intake.midi_input(&note_on(62, 100));
    intake.rewind();
    let mut synth = Synth::new();
    let mut playing = Vec::new();
    let nothing = PerChannelMidi::new();
    let on_exit = intake.play_step(&mut synth, &nothing, &mut playing);
    assert_eq!(playing, vec![(0, 60)]);
    assert_eq!(on_exit.channel_a, vec![(0, StepCmd::Stop { note: 60 })]);
    let last = PerChannelMidi {
        channel_a: on_exit.channel_a.clone(),
        channel_b: Vec::new(),
        channel_c: Vec::new(),
        channel_d: Vec::new(),
    };
    intake.next_step();
    intake.play_step(&mut synth, &last, &mut playing);
    assert_eq!(playing, vec![(1, 62)]);
    assert_eq!(first_key(&synth, 1), Some(62));
    send_channel(&mut synth, &last, &mut playing);
    assert_eq!(playing, vec![(1, 62)]);
}

#[test]
fn sequencer_says_which_events_it_can_take() {
    let mut intake = SequencerIntake::new();
    assert!(intake.has_step(intake.rw_head()));
    assert!(intake.takes_event(&note_on(60, 1)));
    assert!(intake.takes_event(&control(115)));
    for _ in 0..16 {
        intake.del_step();
    }
    assert!(!intake.has_step(intake.rw_head()));
    assert!(intake.takes_event(&note_on(60, 1)));
    assert!(!intake.takes_event(&control(115)));
    assert!(!intake.takes_event(&control(116)));
    assert!(intake.takes_event(&control(119)));
    intake.start_recording();
    assert!(!intake.takes_event(&note_on(60, 1)));
    assert!(!intake.takes_event(&note_off(60)));
    assert!(intake.takes_event(&MidiEvent::Other));
    intake.add_step();
    assert!(intake.takes_event(&note_on(60, 1)));
}

#[test]
fn conversions_and_defaults_agree_with_the_named_functions() {
    assert_eq!(SequenceChannel::from(1usize), SequenceChannel::B);
    assert_eq!(SequenceChannel::from(7usize), SequenceChannel::D);
    assert_eq!(u8::from(SequenceChannel::C), 2);
    let number: u8 = SequenceChannel::D.into();
    assert_eq!(number, 3);
    assert_eq!(SequenceIndex::default(), SequenceIndex::new());
    assert_eq!(Sequence::default().steps.len(), DEFAULT_STEPS);
    assert!(Step::default().on_enter.channel_b.is_empty());
    assert!(PerChannelMidi::default().channel_c.is_empty());
}
