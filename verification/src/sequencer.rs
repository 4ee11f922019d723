//! The step sequencer: sequences of steps, the heads that walk them, and
//! the recording of notes into a step.
use crate::midi::MidiEvent;
use crate::mod_names::{decimal, push_decimal};
use crate::synth_engines::{Synth, SynthState};
use vstd::prelude::*;

verus! {

pub type MidiControlCode = u8;

pub type MidiInt = u8;

/// Steps of a new sequence.
pub const DEFAULT_STEPS: usize = 16;

/// Sequences of a new sequencer.
pub const DEFAULT_SEQUENCES: usize = 4;

/// Beats per minute of a new sequencer.
pub const DEFAULT_BPM: u16 = 120;

/// Controller number that moves the record head one step back.
pub const CC_STEP_BACK: u8 = 115;

/// Controller number that moves the record head one step on.
pub const CC_STEP_ON: u8 = 116;

/// Controller number that stops playing and recording.
pub const CC_HALT: u8 = 117;

/// Controller number that starts playing.
pub const CC_PLAY: u8 = 118;

/// Controller number that starts recording.
pub const CC_RECORD: u8 = 119;

/// What a step tells a channel to do.
#[derive(Debug, Clone, Copy, PartialEq, Eq, Structural, Hash)]
pub enum StepCmd {
    Play { note: u8, vel: u8 },
    Stop { note: u8 },
    CC { code: MidiControlCode, value: MidiInt },
}

/// The commands recorded for one sequencer channel, each with the number of
/// the channel that it goes to.  None occurs twice; what was recorded first
/// comes first.
pub type MidiMessages = Vec<(u8, StepCmd)>;

/// Two commands are about the same thing: both play the same note, both
/// stop the same note, or both set the same controller.
pub open spec fn same_target(a: StepCmd, b: StepCmd) -> bool {
    match (a, b) {
        (StepCmd::Play { note: n1, .. }, StepCmd::Play { note: n2, .. }) => n1 == n2,
        (StepCmd::Stop { note: n1 }, StepCmd::Stop { note: n2 }) => n1 == n2,
        (StepCmd::CC { code: c1, .. }, StepCmd::CC { code: c2, .. }) => c1 == c2,
        _ => false,
    }
}

/// Some command among the first `n` is about the same thing as `cmd`.
pub open spec fn recorded_below(messages: Seq<(u8, StepCmd)>, cmd: StepCmd, n: int) -> bool
    decreases n,
{
    if n <= 0 {
        false
    } else {
        recorded_below(messages, cmd, n - 1) || same_target(messages[n - 1].1, cmd)
    }
}

/// Those of the first `n` commands that are not about the same thing as
/// `cmd`, in their order.
pub open spec fn without_below(messages: Seq<(u8, StepCmd)>, cmd: StepCmd, n: int) -> Seq<
    (u8, StepCmd),
>
    decreases n,
{
    if n <= 0 {
        Seq::empty()
    } else if same_target(messages[n - 1].1, cmd) {
        without_below(messages, cmd, n - 1)
    } else {
        without_below(messages, cmd, n - 1).push(messages[n - 1])
    }
}

/// The commands after `cmd` was recorded for `channel`: a command that is
/// not yet there is added; one that is there already takes away every
/// command about the same thing.
pub open spec fn toggled(messages: Seq<(u8, StepCmd)>, channel: u8, cmd: StepCmd) -> Seq<
    (u8, StepCmd),
> {
    if recorded_below(messages, cmd, messages.len() as int) {
        without_below(messages, cmd, messages.len() as int)
    } else {
        messages.push((channel, cmd))
    }
}

/// `recorded_below` says whether there is such a command; `without_below`
/// keeps the other commands, and repeats none where none was repeated.
pub proof fn lemma_toggle_parts(messages: Seq<(u8, StepCmd)>, cmd: StepCmd, n: int)
    requires
        0 <= n <= messages.len(),
    ensures
        recorded_below(messages, cmd, n) <==> exists|i: int|
            0 <= i < n && same_target((#[trigger] messages[i]).1, cmd),
        forall|a: int|
            0 <= a < without_below(messages, cmd, n).len() ==> {
                let e = #[trigger] without_below(messages, cmd, n)[a];
                !same_target(e.1, cmd) && exists|j: int| 0 <= j < n && #[trigger] messages[j] == e
            },
        forall|j: int|
            0 <= j < n && !same_target((#[trigger] messages[j]).1, cmd) ==> without_below(
                messages,
                cmd,
                n,
            ).contains(messages[j]),
        messages.no_duplicates() ==> without_below(messages, cmd, n).no_duplicates(),
    decreases n,
{
    if n > 0 {
        lemma_toggle_parts(messages, cmd, n - 1);
        let rest = without_below(messages, cmd, n - 1);
        let out = without_below(messages, cmd, n);
        if recorded_below(messages, cmd, n) {
            if same_target(messages[n - 1].1, cmd) {
                assert(same_target(messages[n - 1].1, cmd));
            } else {
                let i = choose|i: int|
                    0 <= i < n - 1 && same_target((#[trigger] messages[i]).1, cmd);
                assert(same_target(messages[i].1, cmd));
            }
        }
        assert forall|j: int|
            0 <= j < n && !same_target((#[trigger] messages[j]).1, cmd) implies out.contains(
            messages[j],
        ) by {
            if j == n - 1 {
                assert(out[out.len() - 1] == messages[j]);
            } else {
                assert(rest.contains(messages[j]));
                let a = choose|a: int| 0 <= a < rest.len() && rest[a] == messages[j];
                assert(out[a] == messages[j]);
            }
        }
        assert forall|a: int| 0 <= a < out.len() implies {
            let e = #[trigger] out[a];
            !same_target(e.1, cmd) && exists|j: int| 0 <= j < n && #[trigger] messages[j] == e
        } by {
            if a < rest.len() {
                let e = rest[a];
                let j = choose|j: int| 0 <= j < n - 1 && #[trigger] messages[j] == e;
                assert(messages[j] == out[a]);
            } else {
                assert(messages[n - 1] == out[a]);
            }
        }
        if messages.no_duplicates() {
            assert forall|a: int, b: int|
                0 <= a < out.len() && 0 <= b < out.len() && a != b implies out[a] != out[b] by {
                if a < rest.len() && b < rest.len() {
                } else if a < rest.len() {
                    let e = rest[a];
                    let j = choose|j: int| 0 <= j < n - 1 && #[trigger] messages[j] == e;
                    assert(messages[j] != messages[n - 1]);
                } else if b < rest.len() {
                    let e = rest[b];
                    let j = choose|j: int| 0 <= j < n - 1 && #[trigger] messages[j] == e;
                    assert(messages[j] != messages[n - 1]);
                }
            }
        }
    }
}

/// Recording keeps the commands free of repeats, and afterwards a command
/// about the same thing is there exactly if none was there before.
pub proof fn lemma_toggle(messages: Seq<(u8, StepCmd)>, channel: u8, cmd: StepCmd)
    requires
        messages.no_duplicates(),
    ensures
        toggled(messages, channel, cmd).no_duplicates(),
        recorded_below(
            toggled(messages, channel, cmd),
            cmd,
            toggled(messages, channel, cmd).len() as int,
        ) == !recorded_below(messages, cmd, messages.len() as int),
{
    let n = messages.len() as int;
    let out = toggled(messages, channel, cmd);
    lemma_toggle_parts(messages, cmd, n);
    lemma_toggle_parts(out, cmd, out.len() as int);
    if recorded_below(messages, cmd, n) {
        if recorded_below(out, cmd, out.len() as int) {
            let i = choose|i: int| 0 <= i < out.len() && same_target((#[trigger] out[i]).1, cmd);
            assert(!same_target(out[i].1, cmd));
        }
    } else {
        assert(out[n] == (channel, cmd));
        assert(same_target(out[n].1, cmd));
        assert forall|a: int, b: int|
            0 <= a < out.len() && 0 <= b < out.len() && a != b implies out[a] != out[b] by {
            if a < n && b < n {
            } else if a < n {
                assert(!same_target(messages[a].1, cmd));
            } else if b < n {
                assert(!same_target(messages[b].1, cmd));
            }
        }
    }
}

/// Whether two commands are about the same thing.
pub fn targets_same(a: &StepCmd, b: &StepCmd) -> (same: bool)
    ensures
        same == same_target(*a, *b),
{
    match (*a, *b) {
        (StepCmd::Play { note: n1, vel: _ }, StepCmd::Play { note: n2, vel: _ }) => n1 == n2,
        (StepCmd::Stop { note: n1 }, StepCmd::Stop { note: n2 }) => n1 == n2,
        (StepCmd::CC { code: c1, value: _ }, StepCmd::CC { code: c2, value: _ }) => c1 == c2,
        _ => false,
    }
}

/// Records `cmd` for `channel` among `messages`.
pub fn toggle(messages: &mut Vec<(u8, StepCmd)>, channel: u8, cmd: StepCmd)
    ensures
        final(messages)@ == toggled(old(messages)@, channel, cmd),
        old(messages)@.no_duplicates() ==> final(messages)@.no_duplicates(),
{
    let ghost before = messages@;
    let n = messages.len();
    let mut found = false;
    let mut i: usize = 0;
    while i < n
        invariant
            i <= n,
            n == messages@.len(),
            messages@ == before,
            found == recorded_below(before, cmd, i as int),
        decreases n - i,
    {
        if targets_same(&messages[i].1, &cmd) {
            found = true;
        }
        i = i + 1;
    }
    proof {
        if before.no_duplicates() {
            lemma_toggle(before, channel, cmd);
        }
    }
    if !found {
        messages.push((channel, cmd));
    } else {
        let mut kept: Vec<(u8, StepCmd)> = Vec::new();
        let mut k: usize = 0;
        while k < n
            invariant
                k <= n,
                n == messages@.len(),
                messages@ == before,
                kept@ == without_below(before, cmd, k as int),
            decreases n - k,
        {
            if !targets_same(&messages[k].1, &cmd) {
                kept.push(messages[k]);
            }
            k = k + 1;
        }
        *messages = kept;
    }
}

/// The four channels of the sequencer.
#[derive(Debug, Clone, Copy, PartialEq, Eq, Structural)]
pub enum SequenceChannel {
    A,
    B,
    C,
    D,
}

impl SequenceChannel {
    /// The channel's number.
    pub open spec fn number(self) -> u8 {
        match self {
            SequenceChannel::A => 0,
            SequenceChannel::B => 1,
            SequenceChannel::C => 2,
            SequenceChannel::D => 3,
        }
    }

    /// The channel with the given number; every number above two is the
    /// last channel.
    pub open spec fn of_number(value: usize) -> SequenceChannel {
        if value == 0 {
            SequenceChannel::A
        } else if value == 1 {
            SequenceChannel::B
        } else if value == 2 {
            SequenceChannel::C
        } else {
            SequenceChannel::D
        }
    }

    /// The channel after this one; after the last comes the first.
    pub open spec fn next(self) -> SequenceChannel {
        match self {
            SequenceChannel::A => SequenceChannel::B,
            SequenceChannel::B => SequenceChannel::C,
            SequenceChannel::C => SequenceChannel::D,
            SequenceChannel::D => SequenceChannel::A,
        }
    }

    /// The channel before this one; before the first comes the last.
    pub open spec fn prev(self) -> SequenceChannel {
        match self {
            SequenceChannel::A => SequenceChannel::D,
            SequenceChannel::B => SequenceChannel::A,
            SequenceChannel::C => SequenceChannel::B,
            SequenceChannel::D => SequenceChannel::C,
        }
    }

    pub fn into_u8(self) -> (number: u8)
        ensures
            number == self.number(),
    {
        match self {
            SequenceChannel::A => 0,
            SequenceChannel::B => 1,
            SequenceChannel::C => 2,
            SequenceChannel::D => 3,
        }
    }

    pub fn from_usize(value: usize) -> (channel: SequenceChannel)
        ensures
            channel == Self::of_number(value),
    {
        if value == 0 {
            SequenceChannel::A
        } else if value == 1 {
            SequenceChannel::B
        } else if value == 2 {
            SequenceChannel::C
        } else {
            SequenceChannel::D
        }
    }

    /// Whether `name` is the channel's letter, in lower case.
    pub fn matches(&self, name: &[u8]) -> (yes: bool)
        ensures
            yes == (name@.len() == 1 && name@[0] == 'a' as u8 + self.number()),
    {
        if name.len() != 1 {
            return false;
        }
        name[0] == 'a' as u8 + self.into_u8()
    }
}

impl From<usize> for SequenceChannel {
    fn from(value: usize) -> (channel: SequenceChannel) {
        SequenceChannel::from_usize(value)
    }
}

impl vstd::std_specs::convert::FromSpecImpl<usize> for SequenceChannel {
    open spec fn obeys_from_spec() -> bool {
        true
    }

    open spec fn from_spec(value: usize) -> SequenceChannel {
        SequenceChannel::of_number(value)
    }
}

impl From<SequenceChannel> for u8 {
    fn from(channel: SequenceChannel) -> (number: u8) {
        channel.into_u8()
    }
}

impl vstd::std_specs::convert::FromSpecImpl<SequenceChannel> for u8 {
    open spec fn obeys_from_spec() -> bool {
        true
    }

    open spec fn from_spec(channel: SequenceChannel) -> u8 {
        channel.number()
    }
}

/// A channel's number leads back to the channel, and going on and back
/// undo each other.
pub proof fn lemma_channels(channel: SequenceChannel)
    ensures
        SequenceChannel::of_number(channel.number() as usize) == channel,
        channel.next().prev() == channel,
        channel.prev().next() == channel,
        channel.next().next().next().next() == channel,
{
}

/// The commands of a step for each of the four channels.
pub struct PerChannelMidi {
    pub channel_a: MidiMessages,
    pub channel_b: MidiMessages,
    pub channel_c: MidiMessages,
    pub channel_d: MidiMessages,
}

/// Mathematical value of `PerChannelMidi`.
pub struct PerChannelState {
    pub channel_a: Seq<(u8, StepCmd)>,
    pub channel_b: Seq<(u8, StepCmd)>,
    pub channel_c: Seq<(u8, StepCmd)>,
    pub channel_d: Seq<(u8, StepCmd)>,
}

impl PerChannelState {
    pub open spec fn empty() -> PerChannelState {
        PerChannelState {
            channel_a: Seq::empty(),
            channel_b: Seq::empty(),
            channel_c: Seq::empty(),
            channel_d: Seq::empty(),
        }
    }

    /// No command occurs twice for a channel.
    pub open spec fn wf(self) -> bool {
        &&& self.channel_a.no_duplicates()
        &&& self.channel_b.no_duplicates()
        &&& self.channel_c.no_duplicates()
        &&& self.channel_d.no_duplicates()
    }

    /// The commands for `channel`.
    pub open spec fn of(self, channel: SequenceChannel) -> Seq<(u8, StepCmd)> {
        match channel {
            SequenceChannel::A => self.channel_a,
            SequenceChannel::B => self.channel_b,
            SequenceChannel::C => self.channel_c,
            SequenceChannel::D => self.channel_d,
        }
    }

    /// The commands after `cmd` was recorded for `channel`, under that
    /// channel's number.
    pub open spec fn record(self, channel: SequenceChannel, cmd: StepCmd) -> PerChannelState {
        let new = toggled(self.of(channel), channel.number(), cmd);
        match channel {
            SequenceChannel::A => PerChannelState { channel_a: new, ..self },
            SequenceChannel::B => PerChannelState { channel_b: new, ..self },
            SequenceChannel::C => PerChannelState { channel_c: new, ..self },
            SequenceChannel::D => PerChannelState { channel_d: new, ..self },
        }
    }
}

impl View for PerChannelMidi {
    type V = PerChannelState;

    open spec fn view(&self) -> PerChannelState {
        PerChannelState {
            channel_a: self.channel_a@,
            channel_b: self.channel_b@,
            channel_c: self.channel_c@,
            channel_d: self.channel_d@,
        }
    }
}

impl PerChannelMidi {
    /// No commands for any channel.
    pub fn new() -> (midi: PerChannelMidi)
        ensures
            midi@ == PerChannelState::empty(),
            midi@.wf(),
    {
        PerChannelMidi {
            channel_a: Vec::new(),
            channel_b: Vec::new(),
            channel_c: Vec::new(),
            channel_d: Vec::new(),
        }
    }

    /// The commands for `channel`.
    pub fn get(&self, channel: SequenceChannel) -> (messages: &MidiMessages)
        ensures
            messages@ == self@.of(channel),
    {
        match channel {
            SequenceChannel::A => &self.channel_a,
            SequenceChannel::B => &self.channel_b,
            SequenceChannel::C => &self.channel_c,
            SequenceChannel::D => &self.channel_d,
        }
    }

    /// The commands of the four channels, in the order of the channels.
    pub fn by_channel(&self) -> (lists: Vec<&MidiMessages>)
        ensures
            lists@.len() == 4,
            forall|i: int|
                0 <= i < 4 ==> (#[trigger] lists@[i])@ == self@.of(
                    SequenceChannel::of_number(i as usize),
                ),
    {
        let mut lists: Vec<&MidiMessages> = Vec::new();
        lists.push(&self.channel_a);
        lists.push(&self.channel_b);
        lists.push(&self.channel_c);
        lists.push(&self.channel_d);
        lists
    }

    /// Records `cmd` for `channel`.
    pub fn record(&mut self, channel: SequenceChannel, cmd: StepCmd)
        ensures
            final(self)@ == old(self)@.record(channel, cmd),
            old(self)@.wf() ==> final(self)@.wf(),
    {
        let number = channel.into_u8();
        match channel {
            SequenceChannel::A => toggle(&mut self.channel_a, number, cmd),
            SequenceChannel::B => toggle(&mut self.channel_b, number, cmd),
            SequenceChannel::C => toggle(&mut self.channel_c, number, cmd),
            SequenceChannel::D => toggle(&mut self.channel_d, number, cmd),
        }
    }
}

/// One step: what its channels are told when the step begins and when it
/// ends.
pub struct Step {
    pub on_enter: PerChannelMidi,
    pub on_exit: PerChannelMidi,
}

/// Mathematical value of a step.
pub struct StepState {
    pub on_enter: PerChannelState,
    pub on_exit: PerChannelState,
}

impl StepState {
    pub open spec fn empty() -> StepState {
        StepState { on_enter: PerChannelState::empty(), on_exit: PerChannelState::empty() }
    }

    pub open spec fn wf(self) -> bool {
        self.on_enter.wf() && self.on_exit.wf()
    }

    /// The step after `cmd` was recorded for `channel`: a note that begins
    /// goes to the step's beginning, one that ends to its end.
    pub open spec fn record(self, on_enter: bool, channel: SequenceChannel, cmd: StepCmd)
        -> StepState {
        if on_enter {
            StepState { on_enter: self.on_enter.record(channel, cmd), ..self }
        } else {
            StepState { on_exit: self.on_exit.record(channel, cmd), ..self }
        }
    }
}

impl View for Step {
    type V = StepState;

    open spec fn view(&self) -> StepState {
        StepState { on_enter: self.on_enter@, on_exit: self.on_exit@ }
    }
}

impl Step {
    /// A step that tells nothing.
    pub fn new() -> (step: Step)
        ensures
            step@ == StepState::empty(),
            step@.wf(),
    {
        Step { on_enter: PerChannelMidi::new(), on_exit: PerChannelMidi::new() }
    }

    /// Records `cmd` for `channel`, at the step's beginning or its end.
    pub fn record(&mut self, on_enter: bool, channel: SequenceChannel, cmd: StepCmd)
        ensures
            final(self)@ == old(self)@.record(on_enter, channel, cmd),
            old(self)@.wf() ==> final(self)@.wf(),
    {
        if on_enter {
            self.on_enter.record(channel, cmd);
        } else {
            self.on_exit.record(channel, cmd);
        }
    }
}

/// The values of a list of steps.
pub open spec fn steps_view(steps: Seq<Step>) -> Seq<StepState> {
    Seq::new(steps.len(), |i: int| steps[i]@)
}

/// A sequence of steps, with the name that its user gave it.
pub struct Sequence {
    pub human_name: Option<String>,
    pub steps: Vec<Step>,
}

/// Mathematical value of a sequence.
pub struct SequenceState {
    pub human_name: Option<Seq<char>>,
    pub steps: Seq<StepState>,
}

impl SequenceState {
    /// A nameless sequence of sixteen steps that tell nothing.
    pub open spec fn initial() -> SequenceState {
        SequenceState {
            human_name: None,
            steps: Seq::new(DEFAULT_STEPS as nat, |i: int| StepState::empty()),
        }
    }

    pub open spec fn wf(self) -> bool {
        forall|i: int| 0 <= i < self.steps.len() ==> (#[trigger] self.steps[i]).wf()
    }
}

impl View for Sequence {
    type V = SequenceState;

    open spec fn view(&self) -> SequenceState {
        SequenceState {
            human_name: match self.human_name {
                Some(name) => Some(name@),
                None => None,
            },
            steps: steps_view(self.steps@),
        }
    }
}

impl Sequence {
    /// A nameless sequence of sixteen steps that tell nothing.
    pub fn new() -> (sequence: Sequence)
        ensures
            sequence@ == SequenceState::initial(),
            sequence@.wf(),
    {
        let mut steps: Vec<Step> = Vec::new();
        let mut i: usize = 0;
        while i < DEFAULT_STEPS
            invariant
                i <= DEFAULT_STEPS,
                steps@.len() == i,
                forall|j: int| 0 <= j < i ==> (#[trigger] steps@[j])@ == StepState::empty(),
            decreases DEFAULT_STEPS - i,
        {
            steps.push(Step::new());
            i = i + 1;
        }
        let sequence = Sequence { human_name: None, steps };
        assert(sequence@.steps =~= SequenceState::initial().steps);
        sequence
    }
}

/// Where a head of the sequencer stands.
#[derive(Debug, Clone, Copy, PartialEq, Eq, Structural)]
pub struct SequenceIndex {
    pub sequence: usize,
    pub step: usize,
    pub channel: SequenceChannel,
}

impl SequenceIndex {
    /// The first step of the first sequence, on the first channel.
    pub fn new() -> (head: SequenceIndex)
        ensures
            head == (SequenceIndex { sequence: 0, step: 0, channel: SequenceChannel::A }),
    {
        SequenceIndex { sequence: 0, step: 0, channel: SequenceChannel::A }
    }

    pub fn get_sequence(&self) -> (sequence: usize)
        ensures
            sequence == self.sequence,
    {
        self.sequence
    }

    pub fn get_channel(&self) -> (channel: SequenceChannel)
        ensures
            channel == self.channel,
    {
        self.channel
    }

    /// Moves to the first step of the next sequence.
    pub fn next_sequence(&mut self)
        requires
            old(self).sequence < usize::MAX,
        ensures
            *final(self) == (SequenceIndex {
                sequence: (old(self).sequence + 1) as usize,
                step: 0,
                ..*old(self)
            }),
    {
        self.sequence = self.sequence + 1;
        self.step = 0;
    }

    /// Moves to the first step of the sequence before.
    pub fn prev_sequence(&mut self)
        requires
            old(self).sequence > 0,
        ensures
            *final(self) == (SequenceIndex {
                sequence: (old(self).sequence - 1) as usize,
                step: 0,
                ..*old(self)
            }),
    {
        self.sequence = self.sequence - 1;
        self.step = 0;
    }

    pub fn set_channel(&mut self, channel: SequenceChannel)
        ensures
            *final(self) == (SequenceIndex { channel, ..*old(self) }),
    {
        self.channel = channel;
    }

    pub fn prev_channel(&mut self)
        ensures
            *final(self) == (SequenceIndex { channel: old(self).channel.prev(), ..*old(self) }),
    {
        self.channel =
        match self.channel {
            SequenceChannel::A => SequenceChannel::D,
            SequenceChannel::B => SequenceChannel::A,
            SequenceChannel::C => SequenceChannel::B,
            SequenceChannel::D => SequenceChannel::C,
        };
    }

    pub fn next_channel(&mut self)
        ensures
            *final(self) == (SequenceIndex { channel: old(self).channel.next(), ..*old(self) }),
    {
        self.channel =
        match self.channel {
            SequenceChannel::A => SequenceChannel::B,
            SequenceChannel::B => SequenceChannel::C,
            SequenceChannel::C => SequenceChannel::D,
            SequenceChannel::D => SequenceChannel::A,
        };
    }
}

impl Default for SequenceIndex {
    fn default() -> (head: SequenceIndex)
        ensures
            head == (SequenceIndex { sequence: 0, step: 0, channel: SequenceChannel::A }),
    {
        SequenceIndex::new()
    }
}

impl Default for Sequence {
    fn default() -> (sequence: Sequence)
        ensures
            sequence@ == SequenceState::initial(),
            sequence@.wf(),
    {
        Sequence::new()
    }
}

impl Default for Step {
    fn default() -> (step: Step)
        ensures
            step@ == StepState::empty(),
            step@.wf(),
    {
        Step::new()
    }
}

impl Default for PerChannelMidi {
    fn default() -> (midi: PerChannelMidi)
        ensures
            midi@ == PerChannelState::empty(),
            midi@.wf(),
    {
        PerChannelMidi::new()
    }
}

/// Whether the sequencer records, and whether it plays.
#[derive(Debug, Clone, Copy, PartialEq, Eq, Structural)]
pub struct StepperState {
    pub recording: bool,
    pub playing: bool,
}

/// The values of a list of sequences.
pub open spec fn sequences_view(sequences: Seq<Sequence>) -> Seq<SequenceState> {
    Seq::new(sequences.len(), |i: int| sequences[i]@)
}

/// Mathematical value of the sequencer.
pub struct SequencerState {
    pub sequences: Seq<SequenceState>,
    /// The head that records and plays.
    pub rw_head: SequenceIndex,
    /// The head that the display follows.
    pub view_head: SequenceIndex,
    pub state: StepperState,
    /// Beats per minute.
    pub bpm: u16,
}

impl SequencerState {
    /// Four new sequences, both heads at the start, neither playing nor
    /// recording, at 120 beats per minute.
    pub open spec fn initial() -> SequencerState {
        SequencerState {
            sequences: Seq::new(DEFAULT_SEQUENCES as nat, |i: int| SequenceState::initial()),
            rw_head: SequenceIndex { sequence: 0, step: 0, channel: SequenceChannel::A },
            view_head: SequenceIndex { sequence: 0, step: 0, channel: SequenceChannel::A },
            state: StepperState { recording: false, playing: false },
            bpm: DEFAULT_BPM,
        }
    }

    /// No step holds a command twice.
    pub open spec fn wf(self) -> bool {
        forall|i: int| 0 <= i < self.sequences.len() ==> (#[trigger] self.sequences[i]).wf()
    }

    /// The record head stands on a sequence.
    pub open spec fn on_sequence(self) -> bool {
        self.rw_head.sequence < self.sequences.len()
    }

    /// The steps of the sequence that the record head stands on.
    pub open spec fn steps(self) -> Seq<StepState> {
        self.sequences[self.rw_head.sequence as int].steps
    }

    /// `head` stands on a step.
    pub open spec fn on_step(self, head: SequenceIndex) -> bool {
        head.sequence < self.sequences.len() && head.step
            < self.sequences[head.sequence as int].steps.len()
    }

    /// The head that plays, or the head that records.
    pub open spec fn head(self, play: bool) -> SequenceIndex {
        if play {
            self.view_head
        } else {
            self.rw_head
        }
    }

    /// The sequencer with the record head on step `step`.
    pub open spec fn at_step(self, step: int) -> SequencerState {
        SequencerState { rw_head: SequenceIndex { step: step as usize, ..self.rw_head }, ..self }
    }

    /// The sequencer with the record head on sequence `sequence`.
    pub open spec fn at_sequence(self, sequence: int) -> SequencerState {
        SequencerState {
            rw_head: SequenceIndex { sequence: sequence as usize, ..self.rw_head },
            ..self
        }
    }

    /// The sequencer with the steps of the record head's sequence replaced.
    pub open spec fn with_steps(self, steps: Seq<StepState>) -> SequencerState {
        SequencerState {
            sequences: self.sequences.update(
                self.rw_head.sequence as int,
                SequenceState { steps, ..self.sequences[self.rw_head.sequence as int] },
            ),
            ..self
        }
    }

    /// The step after the record head's, round the sequence.
    pub open spec fn step_on(self) -> int {
        (self.rw_head.step + 1) % (self.steps().len() as int)
    }

    /// The step before the record head's, round the sequence.
    pub open spec fn step_back(self) -> int {
        if self.rw_head.step == 0 {
            self.steps().len() - 1
        } else {
            self.rw_head.step - 1
        }
    }

    /// The sequencer with playing and recording switched.
    pub open spec fn transport(self, playing: bool, recording: bool) -> SequencerState {
        SequencerState { state: StepperState { recording, playing }, ..self }
    }

    /// The sequencer after the controller `control` was moved: the numbers
    /// 115 to 119 step back, step on, halt, play and record.
    pub open spec fn controlled(self, control: u8) -> SequencerState {
        if control == CC_STEP_BACK {
            self.at_step(self.step_back())
        } else if control == CC_STEP_ON {
            self.at_step(self.step_on())
        } else if control == CC_HALT {
            self.transport(false, false)
        } else if control == CC_PLAY {
            self.transport(true, false)
        } else if control == CC_RECORD {
            self.transport(false, true)
        } else {
            self
        }
    }

    /// The sequencer after a note was recorded into the record head's step,
    /// for the record head's channel.
    pub open spec fn recorded(self, on_enter: bool, cmd: StepCmd) -> SequencerState {
        self.with_steps(
            self.steps().update(
                self.rw_head.step as int,
                self.steps()[self.rw_head.step as int].record(on_enter, self.rw_head.channel, cmd),
            ),
        )
    }

    /// The sequencer after a MIDI event.  A control change works the
    /// transport.  While the sequencer records, a note-on is recorded at the
    /// beginning and a note-off at the end of the record head's step.
    pub open spec fn midi_input(self, event: MidiEvent) -> SequencerState {
        let moved = match event {
            MidiEvent::ControlChange { control, .. } => self.controlled(control),
            _ => self,
        };
        if !moved.state.recording {
            moved
        } else {
            match event {
                MidiEvent::NoteOn { key, value, .. } => moved.recorded(
                    true,
                    StepCmd::Play { note: key, vel: value },
                ),
                MidiEvent::NoteOff { key, .. } => moved.recorded(false, StepCmd::Stop { note: key }),
                _ => moved,
            }
        }
    }

    /// What `midi_input` needs of the sequencer to take `event`: a control
    /// change that moves the record head needs a sequence with a step under
    /// it; a note that is recorded needs a step under the record head.
    pub open spec fn takes(self, event: MidiEvent) -> bool {
        match event {
            MidiEvent::ControlChange { control, .. } => (control == CC_STEP_BACK || control
                == CC_STEP_ON) ==> self.on_sequence() && self.steps().len() > 0
                && self.rw_head.step < usize::MAX,
            MidiEvent::NoteOn { .. } | MidiEvent::NoteOff { .. } => self.state.recording
                ==> self.on_step(self.rw_head),
            _ => true,
        }
    }
}

/// The step sequencer.
pub struct SequencerIntake {
    sequences: Vec<Sequence>,
    rw_head: SequenceIndex,
    view_head: SequenceIndex,
    state: StepperState,
    bpm: u16,
}

impl View for SequencerIntake {
    type V = SequencerState;

    closed spec fn view(&self) -> SequencerState {
        SequencerState {
            sequences: sequences_view(self.sequences@),
            rw_head: self.rw_head,
            view_head: self.view_head,
            state: self.state,
            bpm: self.bpm,
        }
    }
}

impl SequencerIntake {
    pub fn new() -> (intake: SequencerIntake)
        ensures
            intake@ == SequencerState::initial(),
            intake@.wf(),
    {
        let mut sequences: Vec<Sequence> = Vec::new();
        let mut i: usize = 0;
        while i < DEFAULT_SEQUENCES
            invariant
                i <= DEFAULT_SEQUENCES,
                sequences@.len() == i,
                forall|j: int| 0 <= j < i ==> (#[trigger] sequences@[j])@ == SequenceState::initial(),
                forall|j: int| 0 <= j < i ==> (#[trigger] sequences@[j])@.wf(),
            decreases DEFAULT_SEQUENCES - i,
        {
            sequences.push(Sequence::new());
            i = i + 1;
        }
        let intake = SequencerIntake {
            sequences,
            rw_head: SequenceIndex::new(),
            view_head: SequenceIndex::new(),
            state: StepperState { recording: false, playing: false },
            bpm: DEFAULT_BPM,
        };
        assert(intake@.sequences =~= SequencerState::initial().sequences);
        intake
    }

    /// The head that records and plays.
    pub fn rw_head(&self) -> (head: SequenceIndex)
        ensures
            head == self@.rw_head,
    {
        self.rw_head
    }

    /// The head that the display follows.
    pub fn view_head(&self) -> (head: SequenceIndex)
        ensures
            head == self@.view_head,
    {
        self.view_head
    }

    pub fn state(&self) -> (state: StepperState)
        ensures
            state == self@.state,
    {
        self.state
    }

    pub fn bpm(&self) -> (bpm: u16)
        ensures
            bpm == self@.bpm,
    {
        self.bpm
    }

    /// How many sequences there are.
    pub fn n_sequences(&self) -> (n: usize)
        ensures
            n == self@.sequences.len(),
    {
        self.sequences.len()
    }

    /// The step under the playing or the recording head.
    pub fn get_step(&self, play: bool) -> (step: &Step)
        requires
            self@.on_step(self@.head(play)),
        ensures
            step@ == self@.sequences[self@.head(play).sequence as int].steps[self@.head(
                play,
            ).step as int],
    {
        let i = if play {
            self.view_head
        } else {
            self.rw_head
        };
        &self.sequences[i.sequence].steps[i.step]
    }

    /// The step that the playing or the recording head stands on.
    pub fn get_cursor(&self, play: bool) -> (step: usize)
        ensures
            step == self@.head(play).step,
    {
        if play {
            self.view_head.step
        } else {
            self.rw_head.step
        }
    }

    /// Adds a step that tells nothing to the end of the record head's
    /// sequence.
    pub fn add_step(&mut self)
        requires
            old(self)@.on_sequence(),
        ensures
            final(self)@ == old(self)@.with_steps(old(self)@.steps().push(StepState::empty())),
            old(self)@.wf() ==> final(self)@.wf(),
    {
        let s = self.rw_head.sequence;
        self.sequences[s].steps.push(Step::new());
        proof {
            let want = old(self)@.with_steps(old(self)@.steps().push(StepState::empty()));
            assert(self@.sequences[s as int].steps =~= want.sequences[s as int].steps);
            assert(self@.sequences =~= want.sequences);
        }
    }

    /// Takes the last step off the record head's sequence; a sequence
    /// without steps stays as it is.
    pub fn del_step(&mut self)
        requires
            old(self)@.on_sequence(),
        ensures
            final(self)@ == if old(self)@.steps().len() > 0 {
                old(self)@.with_steps(old(self)@.steps().drop_last())
            } else {
                old(self)@
            },
            old(self)@.wf() ==> final(self)@.wf(),
    {
        let s = self.rw_head.sequence;
        self.sequences[s].steps.pop();
        proof {
            if old(self)@.steps().len() > 0 {
                let want = old(self)@.with_steps(old(self)@.steps().drop_last());
                assert(self@.sequences[s as int].steps =~= want.sequences[s as int].steps);
                assert(self@.sequences =~= want.sequences);
            } else {
                assert(self@.sequences[s as int].steps =~= old(self)@.sequences[s as int].steps);
                assert(self@.sequences =~= old(self)@.sequences);
            }
        }
    }

    /// Moves the record head to the next sequence; after the last comes the
    /// first.
    pub fn next_sequence(&mut self)
        requires
            old(self)@.sequences.len() > 0,
        ensures
            final(self)@ == old(self)@.at_sequence(
                (old(self)@.rw_head.sequence + 1) % (old(self)@.sequences.len() as int),
            ),
    {
        let len = self.sequences.len();
        let at = self.rw_head.sequence % len;
        assert((self.rw_head.sequence + 1) % (len as int) == if at + 1 == len {
            0
        } else {
            at + 1
        }) by (nonlinear_arith)
            requires
                at == self.rw_head.sequence % len,
                len > 0,
        ;
        self.rw_head.sequence = if at + 1 == len {
            0
        } else {
            at + 1
        };
    }

    /// Moves the record head to the sequence before; before the first comes
    /// the last.
    pub fn prev_sequence(&mut self)
        requires
            old(self)@.sequences.len() > 0,
        ensures
            final(self)@ == old(self)@.at_sequence(
                if old(self)@.rw_head.sequence == 0 {
                    old(self)@.sequences.len() - 1
                } else {
                    old(self)@.rw_head.sequence - 1
                },
            ),
    {
        let len = self.sequences.len();
        if self.rw_head.sequence == 0 {
            self.rw_head.sequence = len - 1;
        } else {
            self.rw_head.sequence = self.rw_head.sequence - 1;
        }
    }

    /// Moves the record head one step on; after the last step comes the
    /// first.
    pub fn next_step(&mut self)
        requires
            old(self)@.on_sequence(),
            old(self)@.steps().len() > 0,
        ensures
            final(self)@ == old(self)@.at_step(old(self)@.step_on()),
    {
        let len = self.sequences[self.rw_head.sequence].steps.len();
        let at = self.rw_head.step % len;
        assert((self.rw_head.step + 1) % (len as int) == if at + 1 == len {
            0
        } else {
            at + 1
        }) by (nonlinear_arith)
            requires
                at == self.rw_head.step % len,
                len > 0,
        ;
        self.rw_head.step = if at + 1 == len {
            0
        } else {
            at + 1
        };
    }

    /// Moves the record head one step back; before the first step comes the
    /// last.
    pub fn prev_step(&mut self)
        requires
            old(self)@.on_sequence(),
            old(self)@.rw_head.step > 0 || old(self)@.steps().len() > 0,
        ensures
            final(self)@ == old(self)@.at_step(old(self)@.step_back()),
    {
        let len = self.sequences[self.rw_head.sequence].steps.len();
        if self.rw_head.step == 0 {
            self.rw_head.step = len - 1;
        } else {
            self.rw_head.step = self.rw_head.step - 1;
        }
    }

    /// The name of the record head's sequence: the name that its user gave
    /// it, or else its number.
    pub fn get_name(&self) -> (name: String)
        requires
            self@.on_sequence(),
        ensures
            name@ == match self@.sequences[self@.rw_head.sequence as int].human_name {
                Some(given) => given,
                None => decimal(self@.rw_head.sequence as nat),
            },
    {
        match &self.sequences[self.rw_head.sequence].human_name {
            Some(name) => name.clone(),
            None => {
                let mut name = String::new();
                push_decimal(&mut name, self.rw_head.sequence as u128);
                assert(name@ =~= decimal(self.rw_head.sequence as nat));
                name
            },
        }
    }

    /// Adds a new sequence at the end.
    pub fn new_sequence(&mut self)
        ensures
            final(self)@ == (SequencerState {
                sequences: old(self)@.sequences.push(SequenceState::initial()),
                ..old(self)@
            }),
            old(self)@.wf() ==> final(self)@.wf(),
    {
        self.sequences.push(Sequence::new());
        assert(self@.sequences =~= old(self)@.sequences.push(SequenceState::initial()));
    }

    /// Deletes sequence `at`, if there is one.  A head on that sequence or
    /// on a later one moves one sequence back.
    pub fn del_sequence(&mut self, at: usize)
        requires
            at < old(self)@.sequences.len() ==> {
                &&& !(at <= old(self)@.rw_head.sequence && old(self)@.rw_head.sequence == 0)
                &&& !(at <= old(self)@.view_head.sequence && old(self)@.view_head.sequence == 0)
            },
        ensures
            final(self)@ == if at < old(self)@.sequences.len() {
                SequencerState {
                    sequences: old(self)@.sequences.remove(at as int),
                    rw_head: SequenceIndex {
                        sequence: if at <= old(self)@.rw_head.sequence {
                            (old(self)@.rw_head.sequence - 1) as usize
                        } else {
                            old(self)@.rw_head.sequence
                        },
                        ..old(self)@.rw_head
                    },
                    view_head: SequenceIndex {
                        sequence: if at <= old(self)@.view_head.sequence {
                            (old(self)@.view_head.sequence - 1) as usize
                        } else {
                            old(self)@.view_head.sequence
                        },
                        ..old(self)@.view_head
                    },
                    ..old(self)@
                }
            } else {
                old(self)@
            },
            old(self)@.wf() ==> final(self)@.wf(),
    {
        if at >= self.sequences.len() {
            return ;
        }
        if at <= self.rw_head.sequence {
            self.rw_head.sequence = self.rw_head.sequence - 1;
        }
        if at <= self.view_head.sequence {
            self.view_head.sequence = self.view_head.sequence - 1;
        }
        self.sequences.remove(at);
        assert(self@.sequences =~= old(self)@.sequences.remove(at as int));
    }

    /// The sequence that the record head stands on.
    pub fn get_sequence(&self) -> (sequence: &Sequence)
        requires
            self@.on_sequence(),
        ensures
            sequence@ == self@.sequences[self@.rw_head.sequence as int],
    {
        &self.sequences[self.rw_head.sequence]
    }

    /// Moves the record head to the sequence that `seq` leads to round the
    /// sequences.
    pub fn set_rec_head_seq(&mut self, seq: i64)
        requires
            old(self)@.sequences.len() > 0,
            seq >= 0,
        ensures
            final(self)@ == old(self)@.at_sequence(seq as int % (old(self)@.sequences.len() as int)),
    {
        let len = self.sequences.len();
        let wide: u64 = seq as u64;
        self.rw_head.sequence = ((wide as u128) % (len as u128)) as usize;
    }

    /// Moves the record head to sequence `sequence`, if there is one.
    pub fn set_sequence(&mut self, sequence: usize)
        ensures
            final(self)@ == if sequence < old(self)@.sequences.len() {
                old(self)@.at_sequence(sequence as int)
            } else {
                old(self)@
            },
    {
        if sequence < self.sequences.len() {
            self.rw_head.sequence = sequence;
        }
    }

    pub fn set_rec_channel(&mut self, channel: SequenceChannel)
        ensures
            final(self)@ == (SequencerState {
                rw_head: SequenceIndex { channel, ..old(self)@.rw_head },
                ..old(self)@
            }),
    {
        self.rw_head.set_channel(channel);
    }

    /// Moves the record head to the channel before.
    pub fn prev_channel(&mut self)
        ensures
            final(self)@ == (SequencerState {
                rw_head: SequenceIndex {
                    channel: old(self)@.rw_head.channel.prev(),
                    ..old(self)@.rw_head
                },
                ..old(self)@
            }),
    {
        self.rw_head.prev_channel();
    }

    /// Moves the record head to the next channel.
    pub fn next_channel(&mut self)
        ensures
            final(self)@ == (SequencerState {
                rw_head: SequenceIndex {
                    channel: old(self)@.rw_head.channel.next(),
                    ..old(self)@.rw_head
                },
                ..old(self)@
            }),
    {
        self.rw_head.next_channel();
    }

    /// Starts recording.
    pub fn start_recording(&mut self)
        ensures
            final(self)@ == old(self)@.transport(old(self)@.state.playing, true),
    {
        self.state.recording = true;
    }

    /// Stops playing and recording.
    pub fn stop_seq(&mut self)
        ensures
            final(self)@ == old(self)@.transport(false, false),
    {
        self.state.playing = false;
        self.state.recording = false;
    }

    /// Starts playing and stops recording.
    pub fn start_playing(&mut self)
        ensures
            final(self)@ == old(self)@.transport(true, false),
    {
        self.state.playing = true;
        self.state.recording = false;
    }

    /// The tempo one beat per minute faster, round the tempos from 1 to
    /// 65534.
    pub open spec fn faster(bpm: u16) -> u16 {
        if (bpm + 1) % 65_535 == 0 {
            1
        } else {
            ((bpm + 1) % 65_535) as u16
        }
    }

    /// The tempo one beat per minute slower, and never below one.
    pub open spec fn slower(bpm: u16) -> u16 {
        if bpm <= 1 {
            1
        } else {
            (bpm - 1) as u16
        }
    }

    pub fn tempo_up(&mut self)
        requires
            old(self)@.bpm < u16::MAX,
        ensures
            final(self)@ == (SequencerState { bpm: Self::faster(old(self)@.bpm), ..old(self)@ }),
    {
        self.bpm = (self.bpm + 1) % u16::MAX;
        if self.bpm == 0 {
            self.bpm = 1;
        }
    }

    pub fn tempo_down(&mut self)
        ensures
            final(self)@ == (SequencerState { bpm: Self::slower(old(self)@.bpm), ..old(self)@ }),
    {
        if self.bpm > 0 {
            self.bpm = (self.bpm - 1) % u16::MAX;
        }
        if self.bpm == 0 {
            self.bpm = 1;
        }
    }

    /// Moves the record head back to the first step.
    pub fn rewind(&mut self)
        ensures
            final(self)@ == old(self)@.at_step(0),
    {
        self.rw_head.step = 0;
    }

    /// Whether `head` stands on a step.
    pub fn has_step(&self, head: SequenceIndex) -> (yes: bool)
        ensures
            yes == self@.on_step(head),
    {
        head.sequence < self.sequences.len() && head.step
            < self.sequences[head.sequence].steps.len()
    }

    /// Whether the sequencer is in a state to take `event`.
    pub fn takes_event(&self, event: &MidiEvent) -> (yes: bool)
        ensures
            yes == self@.takes(*event),
    {
        match *event {
            MidiEvent::ControlChange { channel: _, control, value: _ } => {
                if control == CC_STEP_BACK || control == CC_STEP_ON {
                    self.rw_head.sequence < self.sequences.len()
                        && self.sequences[self.rw_head.sequence].steps.len() > 0
                        && self.rw_head.step < usize::MAX
                } else {
                    true
                }
            },
            MidiEvent::NoteOn { channel: _, key: _, value: _ } => !self.state.recording
                || self.has_step(self.rw_head),
            MidiEvent::NoteOff { channel: _, key: _, value: _ } => !self.state.recording
                || self.has_step(self.rw_head),
            _ => true,
        }
    }

    /// Takes one MIDI event: a control change works the transport, and
    /// while the sequencer records, notes are recorded into the step under
    /// the record head.
    pub fn midi_input(&mut self, event: &MidiEvent)
        requires
            old(self)@.takes(*event),
        ensures
            final(self)@ == old(self)@.midi_input(*event),
            old(self)@.wf() ==> final(self)@.wf(),
    {
        match *event {
            MidiEvent::ControlChange { channel: _, control, value: _ } => {
                match control {
                    115 => {
                        self.prev_step();
                    },
                    116 => {
                        self.next_step();
                    },
                    117 => {
                        self.stop_seq();
                    },
                    118 => {
                        self.start_playing();
                    },
                    119 => {
                        self.state.playing = false;
                        self.state.recording = true;
                    },
                    _ => {},
                }
            },
            _ => {},
        }
        if !self.state.recording {
            return ;
        }
        let (cmd, on_enter) = match *event {
            MidiEvent::NoteOn { channel: _, key, value } => (
                StepCmd::Play { note: key, vel: value },
                true,
            ),
            MidiEvent::NoteOff { channel: _, key, value: _ } => (StepCmd::Stop { note: key }, false),
            _ => {
                return ;
            },
        };
        let head = self.rw_head;
        self.sequences[head.sequence].steps[head.step].record(on_enter, head.channel, cmd);
        proof {
            let want = old(self)@.midi_input(*event);
            assert(self@.sequences[head.sequence as int].steps =~= want.sequences[head.sequence as int].steps);
            assert(self@.sequences =~= want.sequences);
        }
    }
}

/// The keys that playback holds down, each with the number of its channel.
/// None occurs twice.
pub type SoundingKeys = Vec<(u8, u8)>;

/// Those of the first `n` keys that are not `key`, in their order.
pub open spec fn keys_without(keys: Seq<(u8, u8)>, key: (u8, u8), n: int) -> Seq<(u8, u8)>
    decreases n,
{
    if n <= 0 {
        Seq::empty()
    } else if keys[n - 1] == key {
        keys_without(keys, key, n - 1)
    } else {
        keys_without(keys, key, n - 1).push(keys[n - 1])
    }
}

/// The held keys after one command was sent: a key that is played joins
/// them unless it is among them, a key that is stopped leaves them.
pub open spec fn keys_after(keys: Seq<(u8, u8)>, message: (u8, StepCmd)) -> Seq<(u8, u8)> {
    match message.1 {
        StepCmd::Play { note, .. } => if keys.contains((message.0, note)) {
            keys
        } else {
            keys.push((message.0, note))
        },
        StepCmd::Stop { note } => keys_without(keys, (message.0, note), keys.len() as int),
        StepCmd::CC { .. } => keys,
    }
}

/// The synth after one command was sent: a note is played or stopped on the
/// channel that the command's channel number leads to; a control change
/// does nothing.
pub open spec fn synth_after(synth: SynthState, message: (u8, StepCmd)) -> SynthState {
    match message.1 {
        StepCmd::Play { note, vel } => synth.play_on(message.0 as int, note, vel),
        StepCmd::Stop { note } => synth.stop_on(message.0 as int, note),
        StepCmd::CC { .. } => synth,
    }
}

/// The synth after the first `n` commands were sent.
pub open spec fn synth_sent(synth: SynthState, messages: Seq<(u8, StepCmd)>, n: int) -> SynthState
    decreases n,
{
    if n <= 0 {
        synth
    } else {
        synth_after(synth_sent(synth, messages, n - 1), messages[n - 1])
    }
}

/// The held keys after the first `n` commands were sent.
pub open spec fn keys_sent(keys: Seq<(u8, u8)>, messages: Seq<(u8, StepCmd)>, n: int) -> Seq<
    (u8, u8),
>
    decreases n,
{
    if n <= 0 {
        keys
    } else {
        keys_after(keys_sent(keys, messages, n - 1), messages[n - 1])
    }
}

/// `keys_without` keeps the other keys, and repeats none where none was
/// repeated.
pub proof fn lemma_keys_without(keys: Seq<(u8, u8)>, key: (u8, u8), n: int)
    requires
        0 <= n <= keys.len(),
    ensures
        !keys_without(keys, key, n).contains(key),
        forall|a: int|
            0 <= a < keys_without(keys, key, n).len() ==> exists|j: int|
                0 <= j < n && #[trigger] keys[j] == #[trigger] keys_without(keys, key, n)[a],
        forall|j: int|
            0 <= j < n && (#[trigger] keys[j]) != key ==> keys_without(keys, key, n).contains(
                keys[j],
            ),
        keys.no_duplicates() ==> keys_without(keys, key, n).no_duplicates(),
    decreases n,
{
    if n > 0 {
        lemma_keys_without(keys, key, n - 1);
        let rest = keys_without(keys, key, n - 1);
        let out = keys_without(keys, key, n);
        if out.contains(key) {
            let a = choose|a: int| 0 <= a < out.len() && out[a] == key;
            if a < rest.len() {
                assert(rest[a] == key);
            }
        }
        assert forall|j: int| 0 <= j < n && (#[trigger] keys[j]) != key implies out.contains(
            keys[j],
        ) by {
            if j == n - 1 {
                assert(out[out.len() - 1] == keys[j]);
            } else {
                assert(rest.contains(keys[j]));
                let a = choose|a: int| 0 <= a < rest.len() && rest[a] == keys[j];
                assert(out[a] == keys[j]);
            }
        }
        assert forall|a: int| 0 <= a < out.len() implies exists|j: int|
            0 <= j < n && #[trigger] keys[j] == #[trigger] out[a] by {
            if a < rest.len() {
                let j = choose|j: int| 0 <= j < n - 1 && #[trigger] keys[j] == rest[a];
                assert(keys[j] == out[a]);
            } else {
                assert(keys[n - 1] == out[a]);
            }
        }
        if keys.no_duplicates() {
            assert forall|a: int, b: int|
                0 <= a < out.len() && 0 <= b < out.len() && a != b implies out[a] != out[b] by {
                if a < rest.len() && b < rest.len() {
                } else if a < rest.len() {
                    let j = choose|j: int| 0 <= j < n - 1 && #[trigger] keys[j] == rest[a];
                    assert(keys[j] != keys[n - 1]);
                } else if b < rest.len() {
                    let j = choose|j: int| 0 <= j < n - 1 && #[trigger] keys[j] == rest[b];
                    assert(keys[j] != keys[n - 1]);
                }
            }
        }
    }
}

/// Sending a command keeps the held keys free of repeats.
pub proof fn lemma_keys_after(keys: Seq<(u8, u8)>, message: (u8, StepCmd))
    requires
        keys.no_duplicates(),
    ensures
        keys_after(keys, message).no_duplicates(),
{
    match message.1 {
        StepCmd::Play { note, .. } => {
            let key = (message.0, note);
            if !keys.contains(key) {
                let out = keys.push(key);
                assert forall|a: int, b: int|
                    0 <= a < out.len() && 0 <= b < out.len() && a != b implies out[a]
                    != out[b] by {
                    if a < keys.len() && b < keys.len() {
                    } else if a < keys.len() {
                        assert(keys.contains(keys[a]));
                    } else if b < keys.len() {
                        assert(keys.contains(keys[b]));
                    }
                }
            }
        },
        StepCmd::Stop { note } => {
            lemma_keys_without(keys, (message.0, note), keys.len() as int);
        },
        StepCmd::CC { .. } => {},
    }
}

/// Whether `key` is among the held keys.
fn holds_key(keys: &SoundingKeys, key: (u8, u8)) -> (held: bool)
    ensures
        held == keys@.contains(key),
{
    let mut i: usize = 0;
    while i < keys.len()
        invariant
            i <= keys@.len(),
            forall|j: int| 0 <= j < i ==> keys@[j] != key,
        decreases keys@.len() - i,
    {
        if keys[i].0 == key.0 && keys[i].1 == key.1 {
            assert(keys@[i as int] == key);
            return true;
        }
        i = i + 1;
    }
    false
}

/// Takes `key` from the held keys.
fn drop_key(keys: &mut SoundingKeys, key: (u8, u8))
    ensures
        final(keys)@ == keys_without(old(keys)@, key, old(keys)@.len() as int),
{
    let ghost before = keys@;
    let n = keys.len();
    let mut kept: SoundingKeys = Vec::new();
    let mut i: usize = 0;
    while i < n
        invariant
            i <= n,
            n == keys@.len(),
            keys@ == before,
            kept@ == keys_without(before, key, i as int),
        decreases n - i,
    {
        if !(keys[i].0 == key.0 && keys[i].1 == key.1) {
            kept.push(keys[i]);
        }
        i = i + 1;
    }
    *keys = kept;
}

/// Sends the commands of one channel of a step to the synth, in their
/// order, and keeps the list of held keys.
pub fn send_midi(synth: &mut Synth, messages: &MidiMessages, playing: &mut SoundingKeys)
    requires
        old(synth).wf(),
    ensures
        final(synth).wf(),
        final(synth)@ == synth_sent(old(synth)@, messages@, messages@.len() as int),
        final(playing)@ == keys_sent(old(playing)@, messages@, messages@.len() as int),
{
    let mut i: usize = 0;
    while i < messages.len()
        invariant
            i <= messages@.len(),
            synth.wf(),
            synth@ == synth_sent(old(synth)@, messages@, i as int),
            playing@ == keys_sent(old(playing)@, messages@, i as int),
        decreases messages@.len() - i,
    {
        let (channel, cmd) = messages[i];
        match cmd {
            StepCmd::Play { note, vel } => {
                if !holds_key(playing, (channel, note)) {
                    playing.push((channel, note));
                }
                synth.play_on(channel as usize, note, vel);
            },
            StepCmd::Stop { note } => {
                drop_key(playing, (channel, note));
                synth.stop_on(channel as usize, note);
            },
            StepCmd::CC { code: _, value: _ } => {},
        }
        i = i + 1;
    }
}

/// The synth after the commands of the four channels were sent, channel by
/// channel.
pub open spec fn synth_sent_all(synth: SynthState, midi: PerChannelState) -> SynthState {
    let a = synth_sent(synth, midi.channel_a, midi.channel_a.len() as int);
    let b = synth_sent(a, midi.channel_b, midi.channel_b.len() as int);
    let c = synth_sent(b, midi.channel_c, midi.channel_c.len() as int);
    synth_sent(c, midi.channel_d, midi.channel_d.len() as int)
}

/// The held keys after the commands of the four channels were sent, channel
/// by channel.
pub open spec fn keys_sent_all(keys: Seq<(u8, u8)>, midi: PerChannelState) -> Seq<(u8, u8)> {
    let a = keys_sent(keys, midi.channel_a, midi.channel_a.len() as int);
    let b = keys_sent(a, midi.channel_b, midi.channel_b.len() as int);
    let c = keys_sent(b, midi.channel_c, midi.channel_c.len() as int);
    keys_sent(c, midi.channel_d, midi.channel_d.len() as int)
}

/// Sends the commands of all four channels to the synth, channel by
/// channel.
pub fn send_channel(synth: &mut Synth, seq_chan: &PerChannelMidi, playing: &mut SoundingKeys)
    requires
        old(synth).wf(),
    ensures
        final(synth).wf(),
        final(synth)@ == synth_sent_all(old(synth)@, seq_chan@),
        final(playing)@ == keys_sent_all(old(playing)@, seq_chan@),
{
    send_midi(synth, &seq_chan.channel_a, playing);
    send_midi(synth, &seq_chan.channel_b, playing);
    send_midi(synth, &seq_chan.channel_c, playing);
    send_midi(synth, &seq_chan.channel_d, playing);
}

/// The synth after each of the first `n` held keys was released.
pub open spec fn synth_released(synth: SynthState, keys: Seq<(u8, u8)>, n: int) -> SynthState
    decreases n,
{
    if n <= 0 {
        synth
    } else {
        synth_released(synth, keys, n - 1).stop_on(keys[n - 1].0 as int, keys[n - 1].1)
    }
}

/// Releases every held key, as playback does when it ends.
pub fn stop_all(synth: &mut Synth, playing: &SoundingKeys)
    requires
        old(synth).wf(),
    ensures
        final(synth).wf(),
        final(synth)@ == synth_released(old(synth)@, playing@, playing@.len() as int),
{
    let mut i: usize = 0;
    while i < playing.len()
        invariant
            i <= playing@.len(),
            synth.wf(),
            synth@ == synth_released(old(synth)@, playing@, i as int),
        decreases playing@.len() - i,
    {
        let (channel, note) = playing[i];
        synth.stop_on(channel as usize, note);
        i = i + 1;
    }
}

impl SequencerIntake {
    /// One beat of playback: what the last step left to be sent at its end
    /// is sent, then what the step under the record head sends at its
    /// beginning.  Returns what that step leaves to be sent at its end.
    pub fn play_step<'a>(
        &'a self,
        synth: &mut Synth,
        last_on_exit: &PerChannelMidi,
        playing: &mut SoundingKeys,
    ) -> (on_exit: &'a PerChannelMidi)
        requires
            old(synth).wf(),
            self@.on_step(self@.rw_head),
        ensures
            final(synth).wf(),
            final(synth)@ == synth_sent_all(
                synth_sent_all(old(synth)@, last_on_exit@),
                self@.steps()[self@.rw_head.step as int].on_enter,
            ),
            final(playing)@ == keys_sent_all(
                keys_sent_all(old(playing)@, last_on_exit@),
                self@.steps()[self@.rw_head.step as int].on_enter,
            ),
            on_exit@ == self@.steps()[self@.rw_head.step as int].on_exit,
    {
        let step = &self.sequences[self.rw_head.sequence].steps[self.rw_head.step];
        send_channel(synth, last_on_exit, playing);
        send_channel(synth, &step.on_enter, playing);
        &step.on_exit
    }
}

} // verus!
