//! One voice of the wavetable engine: a key, its velocity, the switches of
//! its oscillators and its envelopes.
use crate::config::{N_ENV, N_OSC};
use crate::envelope::{ADSR, EnvState, EnvTime};
use vstd::prelude::*;

verus! {

/// What is done to every envelope of a voice at once.
#[derive(Clone, Copy, Debug, PartialEq, Eq, Structural)]
pub enum EnvOp {
    Press,
    Release,
    Tick,
}

/// One envelope after `op`.
pub open spec fn env_after(env: EnvState, op: EnvOp) -> EnvState {
    match op {
        EnvOp::Press => env.press(),
        EnvOp::Release => env.release(),
        EnvOp::Tick => env.tick(),
    }
}

/// Every envelope after `op`.
pub open spec fn envs_after(envs: Seq<EnvState>, op: EnvOp) -> Seq<EnvState> {
    Seq::new(envs.len(), |i: int| env_after(envs[i], op))
}

/// Some envelope is not idle.
pub open spec fn any_active(envs: Seq<EnvState>) -> bool {
    exists|i: int| 0 <= i < envs.len() && !(#[trigger] envs[i]).idle()
}

/// Mathematical value of a voice.
pub struct VoiceState {
    /// The key that holds the voice, while any of its envelopes runs.
    pub playing: Option<u8>,
    /// How hard that key was struck.
    pub velocity: u8,
    /// Which oscillators are switched on.
    pub oscs_on: Seq<bool>,
    pub envs: Seq<EnvState>,
}

impl VoiceState {
    /// A free voice with every oscillator switched on and every envelope
    /// idle.
    pub open spec fn initial() -> VoiceState {
        VoiceState {
            playing: None,
            velocity: 0,
            oscs_on: Seq::new(N_OSC as nat, |i: int| true),
            envs: Seq::new(N_ENV as nat, |i: int| EnvState::initial()),
        }
    }

    /// A voice is held by a key exactly while one of its envelopes runs.
    pub open spec fn wf(self) -> bool {
        &&& self.oscs_on.len() == N_OSC
        &&& self.envs.len() == N_ENV
        &&& self.playing is Some <==> any_active(self.envs)
    }

    /// Key `note` takes the voice: every envelope starts its attack.
    pub open spec fn press(self, note: u8, velocity: u8) -> VoiceState {
        VoiceState {
            playing: Some(note),
            velocity,
            envs: envs_after(self.envs, EnvOp::Press),
            ..self
        }
    }

    /// Key up: every running envelope starts its release.
    pub open spec fn release(self) -> VoiceState {
        VoiceState { envs: envs_after(self.envs, EnvOp::Release), ..self }
    }

    /// One sample later: every envelope moves on, and the voice is free
    /// once all of them have come to rest.
    pub open spec fn tick(self) -> VoiceState {
        let envs = envs_after(self.envs, EnvOp::Tick);
        VoiceState {
            envs,
            playing: if any_active(envs) {
                self.playing
            } else {
                None
            },
            ..self
        }
    }

    /// The voice with oscillator `n` switched on or off.
    pub open spec fn with_osc(self, n: int, on: bool) -> VoiceState {
        VoiceState { oscs_on: self.oscs_on.update(n, on), ..self }
    }

    /// The voice with one of the times of envelope `n` set.
    pub open spec fn with_time(self, n: int, which: EnvTime, samples: nat) -> VoiceState {
        VoiceState { envs: self.envs.update(n, self.envs[n].with_time(which, samples)), ..self }
    }

    /// The key is held down: some envelope is in attack, decay or sustain.
    pub open spec fn held(self) -> bool {
        exists|i: int| 0 <= i < self.envs.len() && (#[trigger] self.envs[i]).pressed()
    }
}

/// The values of a list of envelopes.
pub open spec fn envs_view(envs: Seq<ADSR>) -> Seq<EnvState> {
    Seq::new(envs.len(), |i: int| envs[i]@)
}

/// Every envelope of a list well formed.
pub open spec fn envs_wf(envs: Seq<ADSR>) -> bool {
    forall|i: int| 0 <= i < envs.len() ==> (#[trigger] envs[i]).wf()
}

/// Does `op` to every envelope of a list.
fn apply_all(envs: &mut Vec<ADSR>, op: EnvOp)
    requires
        envs_wf(old(envs)@),
    ensures
        envs_wf(final(envs)@),
        final(envs)@.len() == old(envs)@.len(),
        envs_view(final(envs)@) == envs_after(envs_view(old(envs)@), op),
{
    let n = envs.len();
    let mut i: usize = 0;
    while i < n
        invariant
            i <= n,
            envs@.len() == n,
            old(envs)@.len() == n,
            envs_wf(envs@),
            forall|j: int| 0 <= j < i ==> (#[trigger] envs@[j])@ == env_after(old(envs)@[j]@, op),
            forall|j: int| i <= j < n ==> (#[trigger] envs@[j]) == old(envs)@[j],
        decreases n - i,
    {
        let mut env = envs[i];
        match op {
            EnvOp::Press => env.press(),
            EnvOp::Release => env.release(),
            EnvOp::Tick => env.tick(),
        }
        envs.set(i, env);
        i = i + 1;
    }
    assert(envs_view(envs@) =~= envs_after(envs_view(old(envs)@), op));
}

/// Whether some envelope of a list is not idle.
fn some_active(envs: &Vec<ADSR>) -> (active: bool)
    ensures
        active == any_active(envs_view(envs@)),
{
    let mut i: usize = 0;
    while i < envs.len()
        invariant
            i <= envs@.len(),
            forall|j: int| 0 <= j < i ==> (#[trigger] envs_view(envs@)[j]).idle(),
        decreases envs@.len() - i,
    {
        if !envs[i].is_idle() {
            assert(!envs_view(envs@)[i as int].idle());
            return true;
        }
        i = i + 1;
    }
    false
}

pub struct Voice {
    playing: Option<u8>,
    velocity: u8,
    oscs_on: Vec<bool>,
    envs: Vec<ADSR>,
}

impl View for Voice {
    type V = VoiceState;

    closed spec fn view(&self) -> VoiceState {
        VoiceState {
            playing: self.playing,
            velocity: self.velocity,
            oscs_on: self.oscs_on@,
            envs: envs_view(self.envs@),
        }
    }
}

impl Voice {
    pub closed spec fn wf(&self) -> bool {
        envs_wf(self.envs@) && self@.wf()
    }

    /// A well-formed voice has a well-formed value.
    pub proof fn lemma_wf(&self)
        requires
            self.wf(),
        ensures
            self@.wf(),
    {
    }

    /// A free voice with every oscillator switched on and every envelope
    /// idle.
    pub fn new() -> (voice: Voice)
        ensures
            voice.wf(),
            voice@ == VoiceState::initial(),
    {
        let mut oscs_on: Vec<bool> = Vec::new();
        let mut i: usize = 0;
        while i < N_OSC
            invariant
                i <= N_OSC,
                oscs_on@.len() == i,
                forall|j: int| 0 <= j < i ==> (#[trigger] oscs_on@[j]),
            decreases N_OSC - i,
        {
            oscs_on.push(true);
            i = i + 1;
        }
        let mut envs: Vec<ADSR> = Vec::new();
        let mut k: usize = 0;
        while k < N_ENV
            invariant
                k <= N_ENV,
                envs@.len() == k,
                envs_wf(envs@),
                forall|j: int| 0 <= j < k ==> (#[trigger] envs@[j])@ == EnvState::initial(),
            decreases N_ENV - k,
        {
            envs.push(ADSR::new());
            k = k + 1;
        }
        let voice = Voice { playing: None, velocity: 0, oscs_on, envs };
        assert(voice@.oscs_on =~= VoiceState::initial().oscs_on);
        assert(voice@.envs =~= VoiceState::initial().envs);
        voice
    }

    /// The key that holds the voice.
    pub fn playing(&self) -> (key: Option<u8>)
        ensures
            key == self@.playing,
    {
        self.playing
    }

    /// How hard the key was struck.
    pub fn velocity(&self) -> (velocity: u8)
        ensures
            velocity == self@.velocity,
    {
        self.velocity
    }

    /// Whether oscillator `n` is switched on.
    pub fn osc_on(&self, n: usize) -> (on: bool)
        requires
            self.wf(),
            n < N_OSC,
        ensures
            on == self@.oscs_on[n as int],
    {
        self.oscs_on[n]
    }

    /// Envelope `n`.
    pub fn env(&self, n: usize) -> (env: ADSR)
        requires
            self.wf(),
            n < N_ENV,
        ensures
            env.wf(),
            env@ == self@.envs[n as int],
    {
        self.envs[n]
    }

    pub fn press(&mut self, note: u8, velocity: u8)
        requires
            old(self).wf(),
        ensures
            final(self).wf(),
            final(self)@ == old(self)@.press(note, velocity),
    {
        apply_all(&mut self.envs, EnvOp::Press);
        self.playing = Some(note);
        self.velocity = velocity;
        assert(!self@.envs[0].idle());
    }

    pub fn release(&mut self)
        requires
            old(self).wf(),
        ensures
            final(self).wf(),
            final(self)@ == old(self)@.release(),
    {
        apply_all(&mut self.envs, EnvOp::Release);
        proof {
            let before = old(self)@.envs;
            let after = self@.envs;
            if any_active(before) {
                let i = choose|i: int| 0 <= i < before.len() && !(#[trigger] before[i]).idle();
                assert(!after[i].idle());
            }
            if any_active(after) {
                let i = choose|i: int| 0 <= i < after.len() && !(#[trigger] after[i]).idle();
                assert(!before[i].idle());
            }
        }
    }

    /// Advances the voice by one sample.
    pub fn tick(&mut self)
        requires
            old(self).wf(),
        ensures
            final(self).wf(),
            final(self)@ == old(self)@.tick(),
    {
        apply_all(&mut self.envs, EnvOp::Tick);
        if !some_active(&self.envs) {
            self.playing = None;
        } else {
            proof {
                let before = old(self)@.envs;
                let after = self@.envs;
                let i = choose|i: int| 0 <= i < after.len() && !(#[trigger] after[i]).idle();
                assert(!before[i].idle());
            }
        }
    }

    /// Switches oscillator `n` on or off.
    pub fn set_osc_on(&mut self, n: usize, on: bool)
        requires
            old(self).wf(),
            n < N_OSC,
        ensures
            final(self).wf(),
            final(self)@ == old(self)@.with_osc(n as int, on),
    {
        self.oscs_on.set(n, on);
    }

    /// Sets one of the times of envelope `n`, in samples.
    pub fn set_env_time(&mut self, n: usize, which: EnvTime, samples: u32)
        requires
            old(self).wf(),
            n < N_ENV,
        ensures
            final(self).wf(),
            final(self)@ == old(self)@.with_time(n as int, which, samples as nat),
    {
        let mut env = self.envs[n];
        env.set_time(which, samples);
        self.envs.set(n, env);
        proof {
            let before = old(self)@.envs;
            let after = self@.envs;
            assert(after =~= before.update(n as int, before[n as int].with_time(which, samples as nat)));
            if any_active(before) {
                let i = choose|i: int| 0 <= i < before.len() && !(#[trigger] before[i]).idle();
                assert(!after[i].idle());
            }
            if any_active(after) {
                let i = choose|i: int| 0 <= i < after.len() && !(#[trigger] after[i]).idle();
                assert(!before[i].idle());
            }
        }
    }
}

/// A voice whose key is held keeps the key, and stays held, through a sample.
pub proof fn lemma_held_voice_tick(v: VoiceState)
    requires
        v.wf(),
        v.held(),
    ensures
        v.playing is Some,
        v.tick().held(),
        v.tick().playing == v.playing,
        v.tick().velocity == v.velocity,
        v.tick().wf(),
{
    let i = choose|i: int| 0 <= i < v.envs.len() && (#[trigger] v.envs[i]).pressed();
    assert(!v.envs[i].idle());
    let after = envs_after(v.envs, EnvOp::Tick);
    assert(after[i].pressed());
    assert(!after[i].idle());
    assert(v.tick().envs[i].pressed());
}

/// A pressed voice is held; a release keeps a voice's key and velocity.
pub proof fn lemma_voice_press_release(v: VoiceState, note: u8, velocity: u8)
    requires
        v.wf(),
    ensures
        v.press(note, velocity).wf(),
        v.press(note, velocity).held(),
        v.release().wf(),
        !v.release().held(),
        v.release().playing == v.playing,
        v.tick().wf(),
{
    let p = v.press(note, velocity);
    assert(p.envs[0].pressed());
    assert(!p.envs[0].idle());
    let r = v.release();
    if any_active(v.envs) {
        let i = choose|i: int| 0 <= i < v.envs.len() && !(#[trigger] v.envs[i]).idle();
        assert(!r.envs[i].idle());
    }
    if any_active(r.envs) {
        let i = choose|i: int| 0 <= i < r.envs.len() && !(#[trigger] r.envs[i]).idle();
        assert(!v.envs[i].idle());
    }
    if r.held() {
        let i = choose|i: int| 0 <= i < r.envs.len() && (#[trigger] r.envs[i]).pressed();
        assert(r.envs[i] == v.envs[i].release());
    }
    let t = v.tick();
    if any_active(t.envs) {
        let i = choose|i: int| 0 <= i < t.envs.len() && !(#[trigger] t.envs[i]).idle();
        assert(!v.envs[i].idle());
    }
}

} // verus!
