//! The particle store of an N-body integrator.
//!
//! Particles attract and repel each other by an inverse-square law; that
//! arithmetic is done on the caller's side. What lives here is the collection
//! itself, which only ever grows, and its snapshot: the particles laid out as
//! bytes (see [`crate::wire`]) and wrapped as URL-safe text, so that a scene
//! can be shared and restored field for field.

use vstd::prelude::*;
use crate::wire::{base64_decode, base64_encode, bincode_deserialize, bincode_serialize};
use crate::wire::{base64_bytes, base64_text, parsed, payload, text_fits, text_len, text_safe};
use crate::wire::{lemma_payload_len, lemma_payload_parses};

verus! {

/// One particle, as it travels. Every field holds the 64-bit pattern of a
/// real-valued quantity; the store moves these words and never calculates
/// with them, so a snapshot restores each of them bit for bit.
#[derive(Clone, Copy, Debug, PartialEq, Eq, Structural)]
pub struct Particle {
    pub radius: u64,
    pub pos_x: u64,
    pub pos_y: u64,
    pub vel_x: u64,
    pub vel_y: u64,
    pub charge: u64,
    pub mass: u64,
}

/// The particles that a snapshot text stands for, if it is a snapshot.
pub open spec fn decoded(text: Seq<char>) -> Option<Seq<Particle>> {
    match base64_bytes(text) {
        Some(bytes) => parsed(bytes),
        None => None,
    }
}

/// A text that `base64` reads as the payload of a collection stands for that
/// collection, whole and in order. This is the half of the round trip that
/// is proved here; that the text of [`Simulation::encode_state`] is read as
/// the payload it was made from is taken on trust from `base64`.
pub proof fn lemma_snapshot_round_trip(particles: Seq<Particle>, text: Seq<char>)
    requires
        particles.len() <= usize::MAX,
        base64_bytes(text) == Some(payload(particles)),
    ensures
        decoded(text) == Some(particles),
{
    lemma_payload_parses(particles, Seq::empty());
    assert(payload(particles) + Seq::<u8>::empty() == payload(particles));
}

/// An ordered collection of particles.
pub struct Simulation {
    particles: Vec<Particle>,
}

impl View for Simulation {
    type V = Seq<Particle>;

    closed spec fn view(&self) -> Seq<Particle> {
        self.particles@
    }
}

impl Simulation {
    /// An empty collection.
    pub fn new() -> (sim: Simulation)
        ensures
            sim@.len() == 0,
    {
        Simulation { particles: Vec::new() }
    }

    /// Appends one particle; those already there keep their indices.
    pub fn add_particle(&mut self, particle: Particle)
        ensures
            final(self)@ == old(self)@.push(particle),
    {
        self.particles.push(particle);
    }

    /// The number of particles.
    pub fn len(&self) -> (n: usize)
        ensures
            n == self@.len(),
    {
        self.particles.len()
    }

    /// The particle at index `i`, if there is one.
    pub fn particle(&self, i: usize) -> (found: Option<Particle>)
        ensures
            found == if i < self@.len() {
                Some(self@[i as int])
            } else {
                None
            },
    {
        if i < self.particles.len() {
            Some(self.particles[i])
        } else {
            None
        }
    }

    /// Puts `particle` in the place of the one at index `i` and says whether
    /// there was one; without one nothing changes.
    pub fn set_particle(&mut self, i: usize, particle: Particle) -> (done: bool)
        ensures
            done == (i < old(self)@.len()),
            final(self)@ == if done {
                old(self)@.update(i as int, particle)
            } else {
                old(self)@
            },
    {
        if i < self.particles.len() {
            self.particles.set(i, particle);
            true
        } else {
            false
        }
    }

    /// Whether the collection is small enough for [`Simulation::encode_state`]:
    /// its payload and its text must each fit one allocation.
    pub fn fits(&self) -> (yes: bool)
        ensures
            yes == text_fits(self@.len()),
    {
        let n = self.particles.len() as u128;
        let limit = isize::MAX as u128;
        (8 + 56 * n + 2) / 3 * 4 <= limit
    }

    /// The snapshot of the collection as bytes, before it is made text.
    pub fn to_payload(&self) -> (bytes: Vec<u8>)
        requires
            8 + 56 * self@.len() <= isize::MAX,
        ensures
            bytes@ == payload(self@),
            bytes@.len() == 8 + 56 * self@.len(),
            parsed(bytes@) == Some(self@),
    {
        proof {
            lemma_payload_len(self@);
            lemma_payload_parses(self@, Seq::empty());
            assert(payload(self@) + Seq::<u8>::empty() == payload(self@));
        }
        bincode_serialize(&self.particles)
    }

    /// Replaces the collection by the one that `bytes` lay out. Bytes that
    /// lay out none leave the collection empty; bytes beyond the last
    /// particle are ignored.
    pub fn apply_payload(&mut self, bytes: &Vec<u8>) -> (ok: bool)
        ensures
            ok == parsed(bytes@).is_some(),
            final(self)@ == match parsed(bytes@) {
                Some(particles) => particles,
                None => Seq::empty(),
            },
    {
        self.particles.clear();
        match bincode_deserialize(bytes) {
            Some(particles) => {
                self.particles = particles;
                true
            },
            None => false,
        }
    }

    /// The snapshot of the collection as URL-safe text. Decoding the text
    /// gives the collection back.
    pub fn encode_state(&self) -> (text: String)
        requires
            text_fits(self@.len()),
        ensures
            text@ == base64_text(payload(self@)),
            text@.len() == text_len(8 + 56 * self@.len()),
            text_safe(text@),
            decoded(text@) == Some(self@),
    {
        let bytes = self.to_payload();
        base64_encode(&bytes)
    }

    /// The snapshot of the collection as URL-safe text, for a collection of
    /// any size: `None` exactly where the text would be too long for one
    /// string, and otherwise the text of [`Simulation::encode_state`], which
    /// decodes to the collection.
    pub fn try_encode_state(&self) -> (text: Option<String>)
        ensures
            text is Some <==> text_fits(self@.len()),
            text matches Some(t) ==> {
                &&& t@ == base64_text(payload(self@))
                &&& text_safe(t@)
                &&& decoded(t@) == Some(self@)
            },
    {
        if self.fits() {
            Some(self.encode_state())
        } else {
            None
        }
    }

    /// Replaces the collection by the one that `encoded` stands for and says
    /// whether it stood for one. Text that is no snapshot leaves the
    /// collection empty, never half replaced.
    pub fn decode_state_and_apply(&mut self, encoded: String) -> (ok: bool)
        ensures
            ok == decoded(encoded@).is_some(),
            final(self)@ == match decoded(encoded@) {
                Some(particles) => particles,
                None => Seq::empty(),
            },
    {
        self.particles.clear();
        match base64_decode(&encoded) {
            Some(bytes) => self.apply_payload(&bytes),
            None => false,
        }
    }
}

} // verus!
