//! The ADSR envelope as a sample-counting state machine.
//!
//! A stage that ramps (attack, decay, release) lasts a whole number of
//! ticks.  The envelope keeps the stage and the ticks spent in it; the ramp's
//! level at that point is the caller's arithmetic.
use vstd::prelude::*;

verus! {

/// Attack time of a new envelope: ten milliseconds.
pub const DEFAULT_ATTACK: u32 = 480;

/// Decay time of a new envelope: a tenth of a second.
pub const DEFAULT_DECAY: u32 = 4_800;

/// Release time of a new envelope: a tenth of a second.
pub const DEFAULT_RELEASE: u32 = 4_800;

/// Index of the attack time among an envelope's four parameters.
pub const ATTACK: usize = 0;

/// Index of the decay time among an envelope's four parameters.
pub const DECAY: usize = 1;

/// Index of the sustain level among an envelope's four parameters.
pub const SUSTAIN: usize = 2;

/// Index of the release time among an envelope's four parameters.
pub const RELEASE: usize = 3;

#[derive(Clone, Copy, Debug, PartialEq, Eq, Structural)]
pub enum EnvStage {
    Idle,
    Attack,
    Decay,
    Sustain,
    Release,
}

/// The three times of an envelope.
#[derive(Clone, Copy, Debug, PartialEq, Eq, Structural)]
pub enum EnvTime {
    Attack,
    Decay,
    Release,
}

/// Mathematical value of an envelope.
pub struct EnvState {
    pub stage: EnvStage,
    /// Ticks spent in the current stage.
    pub elapsed: nat,
    pub attack: nat,
    pub decay: nat,
    pub release: nat,
}

impl EnvState {
    /// An idle envelope with the given stage lengths in samples.
    pub open spec fn fresh(attack: nat, decay: nat, release: nat) -> EnvState {
        EnvState { stage: EnvStage::Idle, elapsed: 0, attack, decay, release }
    }

    /// An idle envelope with the times that a new envelope has.
    pub open spec fn initial() -> EnvState {
        Self::fresh(DEFAULT_ATTACK as nat, DEFAULT_DECAY as nat, DEFAULT_RELEASE as nat)
    }

    /// Ticks that the current stage lasts; `None` for a stage that holds.
    pub open spec fn stage_len(self) -> Option<nat> {
        match self.stage {
            EnvStage::Attack => Some(self.attack),
            EnvStage::Decay => Some(self.decay),
            EnvStage::Release => Some(self.release),
            EnvStage::Idle | EnvStage::Sustain => None,
        }
    }

    /// The stage that follows when a ramp ends.
    pub open spec fn following(stage: EnvStage) -> EnvStage {
        match stage {
            EnvStage::Attack => EnvStage::Decay,
            EnvStage::Decay => EnvStage::Sustain,
            EnvStage::Release => EnvStage::Idle,
            EnvStage::Idle => EnvStage::Idle,
            EnvStage::Sustain => EnvStage::Sustain,
        }
    }

    /// A key is held: attack, decay or sustain.
    pub open spec fn pressed(self) -> bool {
        self.stage == EnvStage::Attack || self.stage == EnvStage::Decay || self.stage
            == EnvStage::Sustain
    }

    pub open spec fn idle(self) -> bool {
        self.stage == EnvStage::Idle
    }

    /// Key down: the attack starts over, from whatever stage.
    pub open spec fn press(self) -> EnvState {
        EnvState { stage: EnvStage::Attack, elapsed: 0, ..self }
    }

    /// Key up: a sounding envelope starts its release; an idle or already
    /// releasing one is left alone.
    pub open spec fn release(self) -> EnvState {
        if self.pressed() {
            EnvState { stage: EnvStage::Release, elapsed: 0, ..self }
        } else {
            self
        }
    }

    /// One sample later.  A ramp moves on after its length in ticks, and
    /// after one tick where that length is zero.
    pub open spec fn tick(self) -> EnvState {
        match self.stage_len() {
            None => self,
            Some(len) => if self.elapsed + 1 >= len {
                EnvState { stage: Self::following(self.stage), elapsed: 0, ..self }
            } else {
                EnvState { elapsed: self.elapsed + 1, ..self }
            },
        }
    }

    /// `n` samples later.
    pub open spec fn ticks(self, n: nat) -> EnvState
        decreases n,
    {
        if n == 0 {
            self
        } else {
            self.tick().ticks((n - 1) as nat)
        }
    }

    /// The stage whose length `which` is.
    pub open spec fn stage_of(which: EnvTime) -> EnvStage {
        match which {
            EnvTime::Attack => EnvStage::Attack,
            EnvTime::Decay => EnvStage::Decay,
            EnvTime::Release => EnvStage::Release,
        }
    }

    /// The envelope with one of its times set to `samples`.  Where the
    /// running stage is the one that changes and the new length no longer
    /// covers the ticks spent, the count starts over, so that the stage ends
    /// at the next tick.
    pub open spec fn with_time(self, which: EnvTime, samples: nat) -> EnvState {
        let elapsed = if self.stage == Self::stage_of(which) && self.elapsed >= samples {
            0
        } else {
            self.elapsed
        };
        match which {
            EnvTime::Attack => EnvState { attack: samples, elapsed, ..self },
            EnvTime::Decay => EnvState { decay: samples, elapsed, ..self },
            EnvTime::Release => EnvState { release: samples, elapsed, ..self },
        }
    }

    /// One of the three times, in samples.
    pub open spec fn time(self, which: EnvTime) -> nat {
        match which {
            EnvTime::Attack => self.attack,
            EnvTime::Decay => self.decay,
            EnvTime::Release => self.release,
        }
    }

    /// Ticks left in the current ramp; zero for a stage that holds.
    pub open spec fn remaining(self) -> nat {
        match self.stage_len() {
            None => 0,
            Some(len) => if self.elapsed + 1 >= len {
                1
            } else {
                (len - self.elapsed) as nat
            },
        }
    }
}

/// Attack, decay, sustain, release.  Times are in samples.
#[derive(Clone, Copy, Debug)]
pub struct ADSR {
    stage: EnvStage,
    elapsed: u32,
    attack: u32,
    decay: u32,
    release: u32,
}

impl View for ADSR {
    type V = EnvState;

    closed spec fn view(&self) -> EnvState {
        EnvState {
            stage: self.stage,
            elapsed: self.elapsed as nat,
            attack: self.attack as nat,
            decay: self.decay as nat,
            release: self.release as nat,
        }
    }
}

impl ADSR {
    /// The counter stays below the length of the stage it counts, and is
    /// zero in a stage that holds.
    pub open spec fn wf(&self) -> bool {
        let s = self@;
        &&& s.attack <= u32::MAX
        &&& s.decay <= u32::MAX
        &&& s.release <= u32::MAX
        &&& match s.stage_len() {
            None => s.elapsed == 0,
            Some(len) => s.elapsed < len || s.elapsed == 0,
        }
    }

    /// An idle envelope.
    pub fn new() -> (env: ADSR)
        ensures
            env.wf(),
            env@ == EnvState::initial(),
    {
        ADSR {
            stage: EnvStage::Idle,
            elapsed: 0,
            attack: DEFAULT_ATTACK,
            decay: DEFAULT_DECAY,
            release: DEFAULT_RELEASE,
        }
    }

    /// An idle envelope with the given times in samples.
    pub fn with_times(attack: u32, decay: u32, release: u32) -> (env: ADSR)
        ensures
            env.wf(),
            env@ == EnvState::fresh(attack as nat, decay as nat, release as nat),
    {
        ADSR { stage: EnvStage::Idle, elapsed: 0, attack, decay, release }
    }

    pub fn stage(&self) -> (stage: EnvStage)
        ensures
            stage == self@.stage,
    {
        self.stage
    }

    /// Ticks spent in the current stage.
    pub fn elapsed(&self) -> (elapsed: u32)
        ensures
            elapsed == self@.elapsed,
    {
        self.elapsed
    }

    /// Length in ticks of the current stage, if it is a ramp.
    pub fn stage_len(&self) -> (len: Option<u32>)
        ensures
            len.is_some() == self@.stage_len().is_some(),
            len.is_some() ==> len.unwrap() == self@.stage_len().unwrap(),
    {
        match self.stage {
            EnvStage::Attack => Some(self.attack),
            EnvStage::Decay => Some(self.decay),
            EnvStage::Release => Some(self.release),
            EnvStage::Idle => None,
            EnvStage::Sustain => None,
        }
    }

    /// One of the three times, in samples.
    pub fn time(&self, which: EnvTime) -> (samples: u32)
        ensures
            samples == self@.time(which),
    {
        match which {
            EnvTime::Attack => self.attack,
            EnvTime::Decay => self.decay,
            EnvTime::Release => self.release,
        }
    }

    pub fn pressed(&self) -> (held: bool)
        ensures
            held == self@.pressed(),
    {
        match self.stage {
            EnvStage::Attack => true,
            EnvStage::Decay => true,
            EnvStage::Sustain => true,
            EnvStage::Idle => false,
            EnvStage::Release => false,
        }
    }

    pub fn is_idle(&self) -> (idle: bool)
        ensures
            idle == self@.idle(),
    {
        match self.stage {
            EnvStage::Idle => true,
            _ => false,
        }
    }

    pub fn press(&mut self)
        requires
            old(self).wf(),
        ensures
            final(self).wf(),
            final(self)@ == old(self)@.press(),
    {
        self.stage = EnvStage::Attack;
        self.elapsed = 0;
    }

    pub fn release(&mut self)
        requires
            old(self).wf(),
        ensures
            final(self).wf(),
            final(self)@ == old(self)@.release(),
    {
        if self.pressed() {
            self.stage = EnvStage::Release;
            self.elapsed = 0;
        }
    }

    /// Advances the envelope by one sample.
    pub fn tick(&mut self)
        requires
            old(self).wf(),
        ensures
            final(self).wf(),
            final(self)@ == old(self)@.tick(),
    {
        let len = match self.stage {
            EnvStage::Attack => self.attack,
            EnvStage::Decay => self.decay,
            EnvStage::Release => self.release,
            EnvStage::Idle => {
                return ;
            },
            EnvStage::Sustain => {
                return ;
            },
        };
        if len == 0 || self.elapsed >= len - 1 {
            self.stage =
            match self.stage {
                EnvStage::Attack => EnvStage::Decay,
                EnvStage::Decay => EnvStage::Sustain,
                _ => EnvStage::Idle,
            };
            self.elapsed = 0;
        } else {
            self.elapsed = self.elapsed + 1;
        }
    }

    /// Sets one of the three times, in samples.
    pub fn set_time(&mut self, which: EnvTime, samples: u32)
        requires
            old(self).wf(),
        ensures
            final(self).wf(),
            final(self)@ == old(self)@.with_time(which, samples as nat),
    {
        match which {
            EnvTime::Attack => {
                self.attack = samples;
                match self.stage {
                    EnvStage::Attack => {
                        if self.elapsed >= samples {
                            self.elapsed = 0;
                        }
                    },
                    _ => {},
                }
            },
            EnvTime::Decay => {
                self.decay = samples;
                match self.stage {
                    EnvStage::Decay => {
                        if self.elapsed >= samples {
                            self.elapsed = 0;
                        }
                    },
                    _ => {},
                }
            },
            EnvTime::Release => {
                self.release = samples;
                match self.stage {
                    EnvStage::Release => {
                        if self.elapsed >= samples {
                            self.elapsed = 0;
                        }
                    },
                    _ => {},
                }
            },
        }
    }

    /// Sets the attack time, in samples.
    pub fn set_atk(&mut self, samples: u32)
        requires
            old(self).wf(),
        ensures
            final(self).wf(),
            final(self)@ == old(self)@.with_time(EnvTime::Attack, samples as nat),
    {
        self.set_time(EnvTime::Attack, samples);
    }

    /// Sets the decay time, in samples.
    pub fn set_decay(&mut self, samples: u32)
        requires
            old(self).wf(),
        ensures
            final(self).wf(),
            final(self)@ == old(self)@.with_time(EnvTime::Decay, samples as nat),
    {
        self.set_time(EnvTime::Decay, samples);
    }

    /// Sets the release time, in samples.
    pub fn set_release(&mut self, samples: u32)
        requires
            old(self).wf(),
        ensures
            final(self).wf(),
            final(self)@ == old(self)@.with_time(EnvTime::Release, samples as nat),
    {
        self.set_time(EnvTime::Release, samples);
    }
}

/// An envelope that nobody releases keeps sounding: from attack, decay or
/// sustain no number of ticks leads to release or idle.
pub proof fn lemma_held_envelope_keeps_sounding(s: EnvState, n: nat)
    requires
        s.pressed(),
    ensures
        s.ticks(n).pressed(),
    decreases n,
{
    if n > 0 {
        lemma_held_envelope_keeps_sounding(s.tick(), (n - 1) as nat);
    }
}

/// A releasing envelope is still releasing on every tick before its release
/// time is up, and idle exactly when it is up.
pub proof fn lemma_release_runs_to_idle(s: EnvState, n: nat)
    requires
        s.stage == EnvStage::Release,
        n <= s.remaining(),
    ensures
        n < s.remaining() ==> s.ticks(n).stage == EnvStage::Release,
        n == s.remaining() ==> s.ticks(n).idle(),
    decreases n,
{
    if n > 0 {
        let t = s.tick();
        if t.stage == EnvStage::Release {
            assert(t.remaining() == s.remaining() - 1);
            lemma_release_runs_to_idle(t, (n - 1) as nat);
        } else {
            assert(s.remaining() == 1);
            assert(t.ticks(0) == t);
        }
    }
}

/// An idle envelope stays idle until it is pressed.
pub proof fn lemma_idle_envelope_stays_idle(s: EnvState, n: nat)
    requires
        s.idle(),
    ensures
        s.ticks(n) == s,
    decreases n,
{
    if n > 0 {
        lemma_idle_envelope_stays_idle(s.tick(), (n - 1) as nat);
    }
}

/// Key down, key up, then the release time in ticks: the envelope is idle
/// again, whatever it did before and however long the key was held.
pub proof fn lemma_press_release_returns_to_idle(s: EnvState, held: nat)
    ensures
        s.press().ticks(held).release().stage == EnvStage::Release,
        ({
            let r = s.press().ticks(held).release();
            r.ticks(r.remaining()).idle()
        }),
{
    lemma_held_envelope_keeps_sounding(s.press(), held);
    let r = s.press().ticks(held).release();
    lemma_release_runs_to_idle(r, r.remaining());
}

/// Only a release leads to idle, and only a key-up leads to release: a tick
/// never enters the release stage, and enters idle from release alone.
pub proof fn lemma_stage_order(s: EnvState)
    ensures
        s.tick().stage == EnvStage::Release ==> s.stage == EnvStage::Release,
        s.tick().idle() ==> s.idle() || s.stage == EnvStage::Release,
        s.release().stage == EnvStage::Release <==> !s.idle(),
        !s.press().idle(),
{
}

/// A tick moves a ramp on by exactly one step, or ends it: the count of a
/// well-formed envelope never passes the length of its stage, and the stage
/// changes only where the count starts over.
pub proof fn lemma_tick_moves_one_step(env: ADSR)
    requires
        env.wf(),
    ensures
        match env@.stage_len() {
            Some(len) => env@.elapsed < len || (env@.elapsed == 0 && len == 0),
            None => env@.elapsed == 0,
        },
        env@.tick().stage == env@.stage ==> env@.tick().elapsed == env@.elapsed + 1
            || env@.stage_len() is None,
        env@.tick().stage != env@.stage ==> env@.tick().elapsed == 0 && env@.tick().stage
            == EnvState::following(env@.stage),
{
}

} // verus!
