//! Water droplet voice (stereo synthesizer): a sine burst through a filter,
//! a gain and a panner, gated by its envelope in a VCA so that each droplet
//! is a burst with fast attack and medium decay.

use vstd::prelude::*;
use bbx_dsp::block::BlockId;
use crate::graph::Connection;
use crate::pool::{aged_by, lemma_aged_by, released_pool, PooledVoice};

verus! {

/// Number of polyphonic voices: as many as the mix routes.
pub const NUM_VOICES: usize = 8;

/// Total voice lifetime in buffers (about 30 buffers covers attack, decay
/// and some margin).
pub const VOICE_LIFETIME_BUFFERS: u64 = 30;

/// A single droplet voice with oscillator, envelope, VCA, filter, gain and
/// panner.
pub struct DropletVoice {
    pub oscillator_id: BlockId,
    pub envelope_id: BlockId,
    pub vca_id: BlockId,
    pub filter_id: BlockId,
    pub gain_id: BlockId,
    pub panner_id: BlockId,
    pub active: bool,
    pub age: u64,
}

impl DropletVoice {
    /// Whether a voice of the given age has outlived its envelope.
    pub open spec fn finished_at(age: u64) -> bool {
        age >= VOICE_LIFETIME_BUFFERS
    }

    /// Make a voice from the identifiers of its blocks, already added to the
    /// graph. The voice starts silent. Returns the voice and its output
    /// block: the panner.
    pub fn create(
        oscillator_id: BlockId,
        envelope_id: BlockId,
        vca_id: BlockId,
        filter_id: BlockId,
        gain_id: BlockId,
        panner_id: BlockId,
    ) -> (r: (Self, BlockId))
        ensures
            r.0 == (DropletVoice {
                oscillator_id,
                envelope_id,
                vca_id,
                filter_id,
                gain_id,
                panner_id,
                active: false,
                age: 0,
            }),
            r.1 == panner_id,
    {
        let voice = DropletVoice {
            oscillator_id,
            envelope_id,
            vca_id,
            filter_id,
            gain_id,
            panner_id,
            active: false,
            age: 0,
        };
        (voice, panner_id)
    }

    /// The connections inside the voice, in the order they are made:
    /// oscillator into the VCA's signal input, envelope into the VCA's
    /// control input, then VCA, filter, gain and panner in a chain.
    pub open spec fn spec_signal_chain(self) -> Seq<Connection> {
        seq![
            Connection { from: self.oscillator_id, from_output: 0, to: self.vca_id, to_input: 0 },
            Connection { from: self.envelope_id, from_output: 0, to: self.vca_id, to_input: 1 },
            Connection { from: self.vca_id, from_output: 0, to: self.filter_id, to_input: 0 },
            Connection { from: self.filter_id, from_output: 0, to: self.gain_id, to_input: 0 },
            Connection { from: self.gain_id, from_output: 0, to: self.panner_id, to_input: 0 },
        ]
    }

    /// The connections to make between the voice's blocks.
    pub fn signal_chain(&self) -> (r: Vec<Connection>)
        ensures
            r@ == self.spec_signal_chain(),
    {
        let mut r: Vec<Connection> = Vec::new();
        r.push(Connection { from: self.oscillator_id, from_output: 0, to: self.vca_id, to_input: 0 });
        r.push(Connection { from: self.envelope_id, from_output: 0, to: self.vca_id, to_input: 1 });
        r.push(Connection { from: self.vca_id, from_output: 0, to: self.filter_id, to_input: 0 });
        r.push(Connection { from: self.filter_id, from_output: 0, to: self.gain_id, to_input: 0 });
        r.push(Connection { from: self.gain_id, from_output: 0, to: self.panner_id, to_input: 0 });
        r
    }

    /// Trigger the voice with a new droplet sound: it becomes active and its
    /// age starts again from 0. (Frequency, pan position and the envelope's
    /// note-on are set on the graph by the caller.)
    pub fn trigger(&mut self)
        ensures
            *final(self) == (DropletVoice { active: true, age: 0, ..*old(self) }),
    {
        self.active = true;
        self.age = 0;
    }

    /// Check if the voice has finished playing, estimated from its age.
    pub fn is_finished(&self) -> (r: bool)
        ensures
            r == Self::finished_at(self.age),
    {
        self.age >= VOICE_LIFETIME_BUFFERS
    }

    /// Update voice age (call each buffer).
    pub fn tick(&mut self)
        requires
            old(self).age < u64::MAX,
        ensures
            *final(self) == (DropletVoice { age: (old(self).age + 1) as u64, ..*old(self) }),
    {
        self.age = self.age + 1;
    }
}

impl PooledVoice for DropletVoice {
    open spec fn spec_sounding(&self) -> bool {
        self.active
    }

    open spec fn spec_age(&self) -> u64 {
        self.age
    }

    open spec fn spec_lifetime_over(&self) -> bool {
        Self::finished_at(self.age)
    }

    open spec fn silenced(self) -> Self {
        DropletVoice { active: false, ..self }
    }

    open spec fn aged(self) -> Self {
        DropletVoice { age: (self.age + 1) as u64, ..self }
    }

    open spec fn triggered(self) -> Self {
        DropletVoice { active: true, age: 0, ..self }
    }

    proof fn lemma_triggered(self) {
    }

    proof fn lemma_silenced(self) {
    }

    proof fn lemma_aged(self) {
    }

    fn sounding(&self) -> (r: bool) {
        self.active
    }

    fn age_in_buffers(&self) -> (r: u64) {
        self.age
    }

    fn lifetime_over(&self) -> (r: bool) {
        self.is_finished()
    }

    fn silence(&mut self) {
        self.active = false;
    }

    fn age_one(&mut self) {
        self.tick();
    }

    fn restart(&mut self) {
        self.trigger();
    }
}

/// A triggered voice sounds for exactly `VOICE_LIFETIME_BUFFERS` buffers:
/// after `n` rendered buffers it is still active, its age is `n`, and it is
/// finished exactly when `n` has reached the lifetime.
pub proof fn lemma_lifetime(v: DropletVoice, n: nat)
    requires
        n <= u64::MAX,
    ensures
        aged_by(DropletVoice { active: true, age: 0, ..v }, n).active,
        aged_by(DropletVoice { active: true, age: 0, ..v }, n).age == n,
        DropletVoice::finished_at(aged_by(DropletVoice { active: true, age: 0, ..v }, n).age) <==> n >= VOICE_LIFETIME_BUFFERS,
{
    lemma_aged_by(DropletVoice { active: true, age: 0, ..v }, n);
}

/// Each droplet is shaped by its envelope: the signal runs from the
/// oscillator into the VCA, whose control input is the envelope, and on
/// through the filter and the gain into the panner, the voice's output.
pub proof fn lemma_envelope_gates_signal(v: DropletVoice)
    ensures
        v.spec_signal_chain().contains(
            Connection { from: v.oscillator_id, from_output: 0, to: v.vca_id, to_input: 0 },
        ),
        v.spec_signal_chain().contains(
            Connection { from: v.envelope_id, from_output: 0, to: v.vca_id, to_input: 1 },
        ),
        v.spec_signal_chain().contains(
            Connection { from: v.vca_id, from_output: 0, to: v.filter_id, to_input: 0 },
        ),
        v.spec_signal_chain().contains(
            Connection { from: v.filter_id, from_output: 0, to: v.gain_id, to_input: 0 },
        ),
        v.spec_signal_chain().contains(
            Connection { from: v.gain_id, from_output: 0, to: v.panner_id, to_input: 0 },
        ),
{
    let c = v.spec_signal_chain();
    assert(c[0] == Connection { from: v.oscillator_id, from_output: 0, to: v.vca_id, to_input: 0 });
    assert(c[1] == Connection { from: v.envelope_id, from_output: 0, to: v.vca_id, to_input: 1 });
    assert(c[2] == Connection { from: v.vca_id, from_output: 0, to: v.filter_id, to_input: 0 });
    assert(c[3] == Connection { from: v.filter_id, from_output: 0, to: v.gain_id, to_input: 0 });
    assert(c[4] == Connection { from: v.gain_id, from_output: 0, to: v.panner_id, to_input: 0 });
}

/// A voice's sound is over exactly when it is at least
/// `VOICE_LIFETIME_BUFFERS` buffers old, however old it has grown.
pub proof fn lemma_lifetime_over_iff_old(v: DropletVoice)
    ensures
        v.spec_lifetime_over() <==> v.age >= VOICE_LIFETIME_BUFFERS,
{
}

/// The release step of voice allocation marks inactive exactly the active
/// voices that are at least `VOICE_LIFETIME_BUFFERS` buffers old (however
/// old), and changes nothing else: blocks and ages stay as they were.
pub proof fn lemma_release_by_age(pool: Seq<DropletVoice>)
    ensures
        released_pool(pool).len() == pool.len(),
        forall|i: int|
            0 <= i < pool.len() ==> #[trigger] released_pool(pool)[i] == (DropletVoice {
                active: pool[i].active && pool[i].age < VOICE_LIFETIME_BUFFERS,
                ..pool[i]
            }),
{
    assert forall|i: int| 0 <= i < pool.len() implies #[trigger] released_pool(pool)[i] == (DropletVoice {
        active: pool[i].active && pool[i].age < VOICE_LIFETIME_BUFFERS,
        ..pool[i]
    }) by {
        lemma_lifetime_over_iff_old(pool[i]);
    }
}

} // verus!
