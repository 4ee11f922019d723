//! The chorus: a delay line of one second that is written one sample at a
//! time and read in strides.
//!
//! Samples are bit patterns of 32-bit IEEE-754 numbers.  The delay line
//! stores and returns them; scaling a sample before it is written and mixing
//! and clipping what is read are the caller's arithmetic.
use crate::params::LfoInput;
use vstd::arithmetic::div_mod::{lemma_add_mod_noop, lemma_add_mod_noop_right, lemma_small_mod};
use vstd::prelude::*;

verus! {

/// The parameters of the chorus.
#[derive(Debug, Clone, Copy, Hash, PartialEq, Eq, Structural)]
pub enum ChorusParam {
    Volume,
    Speed,
}

impl ChorusParam {
    /// The parameter with the given number.
    pub open spec fn of_index(value: usize) -> Option<ChorusParam> {
        if value == 0 {
            Some(ChorusParam::Volume)
        } else if value == 1 {
            Some(ChorusParam::Speed)
        } else {
            None
        }
    }

    /// The name under which the parameter is shown.
    pub open spec fn spec_name(self) -> Seq<char> {
        match self {
            ChorusParam::Volume => "Vol."@,
            ChorusParam::Speed => "Speed"@,
        }
    }

    pub fn from_index(value: usize) -> (param: Option<ChorusParam>)
        ensures
            param == Self::of_index(value),
    {
        match value {
            0 => Some(ChorusParam::Volume),
            1 => Some(ChorusParam::Speed),
            _ => None,
        }
    }

    pub fn name(self) -> (name: String)
        ensures
            name@ == self.spec_name(),
    {
        match self {
            ChorusParam::Volume => "Vol.".to_string(),
            ChorusParam::Speed => "Speed".to_string(),
        }
    }
}

/// Samples that the delay line holds.
pub const CHORUS_SIZE: usize = 48_000;

/// Stride of the read cursor of a new chorus: an eighth of a second.
pub const DEFAULT_STEP: usize = 6_000;

/// Mathematical value of a chorus.
pub struct ChorusState {
    pub buff: Seq<u32>,
    /// Where the next sample is written.
    pub insert_i: nat,
    /// Where the next sample is read.
    pub get_i: nat,
    /// How far the read cursor moves per sample.
    pub step: nat,
    /// The sample that was written last.
    pub input: u32,
}

impl ChorusState {
    pub open spec fn wf(self) -> bool {
        &&& self.buff.len() == CHORUS_SIZE
        &&& self.insert_i < CHORUS_SIZE
        &&& self.get_i < CHORUS_SIZE
    }

    /// A silent delay line with both cursors at its start.
    pub open spec fn fresh() -> ChorusState {
        ChorusState {
            buff: Seq::new(CHORUS_SIZE as nat, |i: int| 0u32),
            insert_i: 0,
            get_i: 0,
            step: DEFAULT_STEP as nat,
            input: 0,
        }
    }

    /// The chorus after `value` was written: it stands at the write cursor,
    /// which has moved on by one and wraps at the end of the line.
    pub open spec fn take_input(self, value: u32) -> ChorusState {
        ChorusState {
            buff: self.buff.update(self.insert_i as int, value),
            insert_i: (self.insert_i + 1) % (CHORUS_SIZE as nat),
            input: value,
            ..self
        }
    }

    /// The sample under the read cursor.
    pub open spec fn delayed(self) -> u32 {
        self.buff[self.get_i as int]
    }

    /// The chorus after a read: the read cursor has moved on by the stride
    /// and wraps at the end of the line.
    pub open spec fn advance(self) -> ChorusState {
        ChorusState { get_i: (self.get_i + self.step) % (CHORUS_SIZE as nat), ..self }
    }

    /// The chorus after `n` reads.
    pub open spec fn advance_n(self, n: nat) -> ChorusState
        decreases n,
    {
        if n == 0 {
            self
        } else {
            self.advance().advance_n((n - 1) as nat)
        }
    }

    /// The chorus after `n` rounds, in each of which the next of `inputs` is
    /// written and one sample is read.
    pub open spec fn rounds(self, inputs: Seq<u32>, n: nat) -> ChorusState
        decreases n,
    {
        if n == 0 {
            self
        } else {
            self.rounds(inputs, (n - 1) as nat).take_input(inputs[n - 1]).advance()
        }
    }

    /// What the read of round `k` yields, counting rounds from zero.
    pub open spec fn tap_at(self, inputs: Seq<u32>, k: nat) -> ChorusTap {
        let written = self.rounds(inputs, k).take_input(inputs[k as int]);
        ChorusTap { delayed: written.delayed(), direct: written.input }
    }

    /// The chorus after the samples `values` were written.
    pub open spec fn take_inputs(self, values: Seq<u32>) -> ChorusState
        decreases values.len(),
    {
        if values.len() == 0 {
            self
        } else {
            self.take_input(values[0]).take_inputs(values.skip(1))
        }
    }
}

/// What one read of the chorus yields.
#[derive(Clone, Copy, Debug, PartialEq, Eq, Structural)]
pub struct ChorusTap {
    /// The sample under the read cursor.
    pub delayed: u32,
    /// The sample that was written last.
    pub direct: u32,
}

pub struct Chorus {
    buff: Vec<u32>,
    insert_i: usize,
    get_i: usize,
    step: usize,
    input: u32,
    lfo_input: LfoInput,
}

impl View for Chorus {
    type V = ChorusState;

    closed spec fn view(&self) -> ChorusState {
        ChorusState {
            buff: self.buff@,
            insert_i: self.insert_i as nat,
            get_i: self.get_i as nat,
            step: self.step as nat,
            input: self.input,
        }
    }
}

impl Chorus {
    pub open spec fn wf(&self) -> bool {
        self@.wf()
    }

    /// The control that the LFO is connected to.
    pub closed spec fn lfo_input(&self) -> LfoInput {
        self.lfo_input
    }

    pub fn new() -> (chorus: Chorus)
        ensures
            chorus.wf(),
            chorus@ == ChorusState::fresh(),
            chorus.lfo_input().target is None,
    {
        let mut buff: Vec<u32> = Vec::new();
        let mut i: usize = 0;
        while i < CHORUS_SIZE
            invariant
                i <= CHORUS_SIZE,
                buff@.len() == i,
                forall|j: int| 0 <= j < i ==> (#[trigger] buff@[j]) == 0u32,
            decreases CHORUS_SIZE - i,
        {
            buff.push(0);
            i = i + 1;
        }
        assert(buff@ =~= ChorusState::fresh().buff);
        Chorus {
            buff,
            insert_i: 0,
            get_i: 0,
            step: DEFAULT_STEP,
            input: 0,
            lfo_input: LfoInput::new(),
        }
    }

    /// Writes one sample at the write cursor.
    pub fn take_input(&mut self, value: u32)
        requires
            old(self).wf(),
        ensures
            final(self).wf(),
            final(self)@ == old(self)@.take_input(value),
            final(self).lfo_input() == old(self).lfo_input(),
    {
        self.input = value;
        self.buff.set(self.insert_i, value);
        self.insert_i = (self.insert_i + 1) % CHORUS_SIZE;
    }

    /// Reads the sample under the read cursor, together with the sample
    /// written last, and moves the read cursor on by the stride.
    pub fn get_sample(&mut self) -> (tap: ChorusTap)
        requires
            old(self).wf(),
        ensures
            final(self).wf(),
            tap == (ChorusTap { delayed: old(self)@.delayed(), direct: old(self)@.input }),
            final(self)@ == old(self)@.advance(),
            final(self).lfo_input() == old(self).lfo_input(),
    {
        let tap = ChorusTap { delayed: self.buff[self.get_i], direct: self.input };
        proof {
            lemma_add_mod_noop_right(
                self.get_i as int,
                self.step as int,
                CHORUS_SIZE as int,
            );
        }
        self.get_i = (self.get_i + self.step % CHORUS_SIZE) % CHORUS_SIZE;
        tap
    }

    /// Sets the stride of the read cursor, in samples per sample read.  A
    /// stride of zero holds the read cursor where it is.
    pub fn set_step(&mut self, step: usize)
        requires
            old(self).wf(),
        ensures
            final(self).wf(),
            final(self)@ == (ChorusState { step: step as nat, ..old(self)@ }),
            final(self).lfo_input() == old(self).lfo_input(),
    {
        self.step = step;
    }

    /// Connects the LFO to a control, or disconnects it.
    pub fn set_lfo_input(&mut self, target: Option<crate::params::Param>)
        ensures
            final(self)@ == old(self)@,
            final(self).lfo_input().target == target,
    {
        self.lfo_input.target = target;
    }

    /// The names of the parameters.
    pub fn get_param_list(&self) -> (names: Vec<String>)
        ensures
            names@.len() == 2,
            names@[0]@ == ChorusParam::Volume.spec_name(),
            names@[1]@ == ChorusParam::Speed.spec_name(),
    {
        let mut names: Vec<String> = Vec::new();
        names.push(ChorusParam::Volume.name());
        names.push(ChorusParam::Speed.name());
        names
    }

    /// The stride of the read cursor.
    pub fn step(&self) -> (step: usize)
        ensures
            step == self@.step,
    {
        self.step
    }

    /// Where the next sample is written.
    pub fn insert_i(&self) -> (at: usize)
        ensures
            at == self@.insert_i,
    {
        self.insert_i
    }

    /// Where the next sample is read.
    pub fn get_i(&self) -> (at: usize)
        ensures
            at == self@.get_i,
    {
        self.get_i
    }
}

/// After `n` reads the read cursor stands `n` strides further, wrapped at
/// the end of the line; reads change nothing else.
pub proof fn lemma_read_cursor(s: ChorusState, n: nat)
    requires
        s.wf(),
    ensures
        s.advance_n(n).wf(),
        s.advance_n(n) == (ChorusState {
            get_i: (s.get_i + n * s.step) % (CHORUS_SIZE as nat),
            ..s
        }),
    decreases n,
{
    if n == 0 {
        lemma_small_mod(s.get_i, CHORUS_SIZE as nat);
        assert(n * s.step == 0) by (nonlinear_arith)
            requires
                n == 0,
        ;
    } else {
        let t = s.advance();
        lemma_read_cursor(t, (n - 1) as nat);
        let rest = (n - 1) * s.step;
        lemma_add_mod_noop((s.get_i + s.step) as int, rest, CHORUS_SIZE as int);
        lemma_add_mod_noop(t.get_i as int, rest, CHORUS_SIZE as int);
        lemma_small_mod(t.get_i, CHORUS_SIZE as nat);
        assert(s.get_i + s.step + rest == s.get_i + n * s.step) by (nonlinear_arith)
            requires
                rest == (n - 1) * s.step,
        ;
    }
}

/// With a stride of zero the read cursor never moves: every read returns
/// the sample at the same place.
pub proof fn lemma_zero_step_freezes_read(s: ChorusState, n: nat)
    requires
        s.wf(),
        s.step == 0,
    ensures
        s.advance_n(n) == s,
{
    lemma_read_cursor(s, n);
    assert(n * s.step == 0) by (nonlinear_arith)
        requires
            s.step == 0,
    ;
    lemma_small_mod(s.get_i, CHORUS_SIZE as nat);
}

/// Writing fewer samples than the line holds, from its start, lays them out
/// in order from the start and leaves the rest of the line as it was.
pub proof fn lemma_writes_fill_in_order(s: ChorusState, values: Seq<u32>)
    requires
        s.wf(),
        s.insert_i + values.len() <= CHORUS_SIZE,
    ensures
        s.take_inputs(values).wf(),
        s.take_inputs(values).insert_i == (s.insert_i + values.len()) % (CHORUS_SIZE as nat),
        s.take_inputs(values).get_i == s.get_i,
        s.take_inputs(values).step == s.step,
        forall|k: int|
            0 <= k < values.len() ==> (#[trigger] s.take_inputs(values).buff[s.insert_i + k])
                == values[k],
        forall|k: int|
            0 <= k < CHORUS_SIZE && !(s.insert_i <= k < s.insert_i + values.len()) ==> (
            #[trigger] s.take_inputs(values).buff[k]) == s.buff[k],
    decreases values.len(),
{
    if values.len() == 0 {
        lemma_small_mod(s.insert_i, CHORUS_SIZE as nat);
    } else {
        let t = s.take_input(values[0]);
        let rest = values.skip(1);
        if s.insert_i + 1 < CHORUS_SIZE {
            lemma_small_mod(s.insert_i + 1, CHORUS_SIZE as nat);
            lemma_writes_fill_in_order(t, rest);
            assert forall|k: int| 0 <= k < values.len() implies (#[trigger] s.take_inputs(
                values,
            ).buff[s.insert_i + k]) == values[k] by {
                if k > 0 {
                    assert(t.take_inputs(rest).buff[t.insert_i + (k - 1)] == rest[k - 1]);
                }
            }
        } else {
            assert(rest.len() == 0);
            assert(t.take_inputs(rest) == t);
        }
    }
}

/// What a new chorus with stride `step` holds after `n` rounds: the inputs
/// so far at the start of the line, silence behind them, the write cursor
/// behind the last input and the read cursor `n` strides on.
pub proof fn lemma_fresh_chorus_rounds(inputs: Seq<u32>, step: nat, n: nat)
    requires
        n <= inputs.len() <= CHORUS_SIZE,
    ensures
        ({
            let s = (ChorusState { step, ..ChorusState::fresh() }).rounds(inputs, n);
            &&& s.wf()
            &&& s.step == step
            &&& s.insert_i == n % (CHORUS_SIZE as nat)
            &&& s.get_i == (n * step) % (CHORUS_SIZE as nat)
            &&& forall|j: int| 0 <= j < n ==> (#[trigger] s.buff[j]) == inputs[j]
            &&& forall|j: int| n <= j < CHORUS_SIZE ==> (#[trigger] s.buff[j]) == 0
        }),
    decreases n,
{
    let start = ChorusState { step, ..ChorusState::fresh() };
    if n == 0 {
        assert(n * step == 0) by (nonlinear_arith)
            requires
                n == 0,
        ;
    } else {
        let m = (n - 1) as nat;
        lemma_fresh_chorus_rounds(inputs, step, m);
        let before = start.rounds(inputs, m);
        lemma_small_mod(m, CHORUS_SIZE as nat);
        lemma_add_mod_noop((m * step) as int, step as int, CHORUS_SIZE as int);
        lemma_small_mod(before.get_i, CHORUS_SIZE as nat);
        assert(m * step + step == n * step) by (nonlinear_arith)
            requires
                m + 1 == n,
        ;
        if n < CHORUS_SIZE {
            lemma_small_mod(n, CHORUS_SIZE as nat);
        }
    }
}

/// What a new chorus with stride `step` gives back in round `k`: the sample
/// just written, and from the delay line the input of the round that the
/// read cursor points at, or silence where it points ahead of the inputs.
/// The output is a function of the inputs and the stride alone.
pub proof fn lemma_fresh_chorus_output(inputs: Seq<u32>, step: nat, k: nat)
    requires
        k < inputs.len() <= CHORUS_SIZE,
    ensures
        ({
            let tap = (ChorusState { step, ..ChorusState::fresh() }).tap_at(inputs, k);
            let at = (k * step) % (CHORUS_SIZE as nat);
            &&& tap.direct == inputs[k as int]
            &&& tap.delayed == if at <= k {
                inputs[at as int]
            } else {
                0u32
            }
        }),
{
    lemma_fresh_chorus_rounds(inputs, step, k);
    lemma_small_mod(k, CHORUS_SIZE as nat);
}

} // verus!
