//! How a particle collection is laid out as bytes and wrapped as text.
//!
//! The bytes are those of `bincode` in its fixed-width little-endian form:
//! the number of particles as eight bytes, then each particle as its seven
//! words of eight bytes each, in field order and with nothing in between. The
//! text is URL-safe base64 with padding, made and read by `base64`.

use vstd::prelude::*;
use vstd::bytes::{
    lemma_auto_spec_u64_to_from_le_bytes,
    spec_u64_from_le_bytes,
    spec_u64_to_le_bytes,
};
use crate::inverse_square_law::Particle;

verus! {

/// The bytes of one particle: its seven words, least significant byte first.
pub open spec fn particle_bytes(p: Particle) -> Seq<u8> {
    spec_u64_to_le_bytes(p.radius) + spec_u64_to_le_bytes(p.pos_x) + spec_u64_to_le_bytes(
        p.pos_y,
    ) + spec_u64_to_le_bytes(p.vel_x) + spec_u64_to_le_bytes(p.vel_y) + spec_u64_to_le_bytes(
        p.charge,
    ) + spec_u64_to_le_bytes(p.mass)
}

/// The bytes of the particles one after the other.
pub open spec fn body_bytes(particles: Seq<Particle>) -> Seq<u8>
    decreases particles.len(),
{
    if particles.len() == 0 {
        Seq::empty()
    } else {
        body_bytes(particles.drop_last()) + particle_bytes(particles.last())
    }
}

/// The bytes of a collection: how many particles, then the particles.
pub open spec fn payload(particles: Seq<Particle>) -> Seq<u8> {
    spec_u64_to_le_bytes(particles.len() as u64) + body_bytes(particles)
}

/// The word whose eight bytes start at `at`.
pub open spec fn word_at(bytes: Seq<u8>, at: int) -> u64 {
    spec_u64_from_le_bytes(bytes.subrange(at, at + 8))
}

/// The particle whose fifty-six bytes start at `at`.
pub open spec fn particle_at(bytes: Seq<u8>, at: int) -> Particle {
    Particle {
        radius: word_at(bytes, at),
        pos_x: word_at(bytes, at + 8),
        pos_y: word_at(bytes, at + 16),
        vel_x: word_at(bytes, at + 24),
        vel_y: word_at(bytes, at + 32),
        charge: word_at(bytes, at + 40),
        mass: word_at(bytes, at + 48),
    }
}

/// The collection that bytes lay out: they must hold the count and as many
/// particles as it announces. What follows the last particle is not looked at.
pub open spec fn parsed(bytes: Seq<u8>) -> Option<Seq<Particle>> {
    if bytes.len() < 8 {
        None
    } else {
        let n = word_at(bytes, 0) as int;
        if bytes.len() < 8 + 56 * n {
            None
        } else {
            Some(Seq::new(n as nat, |k: int| particle_at(bytes, 8 + 56 * k)))
        }
    }
}

/// The length of the padded base64 text for a payload of `n` bytes.
pub open spec fn text_len(n: nat) -> nat {
    ((n + 2) / 3 * 4) as nat
}

/// A collection of `particles` particles is small enough for its payload and
/// its text to be allocated.
pub open spec fn text_fits(particles: nat) -> bool {
    text_len(8 + 56 * particles) <= isize::MAX
}

/// A character of URL-safe text: a letter, a digit, `-`, `_`, or the `=` that
/// pads the end.
pub open spec fn is_text_safe(c: char) -> bool {
    ('A' <= c && c <= 'Z') || ('a' <= c && c <= 'z') || ('0' <= c && c <= '9') || c == '-' || c
        == '_' || c == '='
}

/// Every character of the text is URL-safe.
pub open spec fn text_safe(text: Seq<char>) -> bool {
    forall|k: int| 0 <= k < text.len() ==> is_text_safe(#[trigger] text[k])
}

/// What `base64::encode_config` makes of bytes under `base64::URL_SAFE`.
pub uninterp spec fn base64_text(bytes: Seq<u8>) -> Seq<char>;

/// What `base64::decode_config` makes of a text under `base64::URL_SAFE`:
/// the bytes, or `None` where it reports an error.
pub uninterp spec fn base64_bytes(text: Seq<char>) -> Option<Seq<u8>>;

/// Calls `bincode::serialize` on the particles, each handed over as an array
/// of its seven words. Trusted: the result is the fixed-width little-endian
/// layout that [`payload`] writes out. The call cannot fail on this type; it
/// would panic on a buffer beyond `isize::MAX` bytes, which the precondition
/// keeps out.
#[verifier::external_body]
pub(crate) fn bincode_serialize(particles: &Vec<Particle>) -> (bytes: Vec<u8>)
    requires
        8 + 56 * particles@.len() <= isize::MAX,
    ensures
        bytes@ == payload(particles@),
{
    let rows: Vec<[u64; 7]> = particles
        .iter()
        .map(|p| [p.radius, p.pos_x, p.pos_y, p.vel_x, p.vel_y, p.charge, p.mass])
        .collect();
    bincode::serialize(&rows).unwrap()
}

/// Calls `bincode::deserialize` for a vector of arrays of seven words.
/// Trusted: it succeeds exactly on the bytes that [`parsed`] accepts, with
/// that result, and tolerates trailing bytes.
#[verifier::external_body]
pub(crate) fn bincode_deserialize(bytes: &Vec<u8>) -> (particles: Option<Vec<Particle>>)
    ensures
        particles matches Some(v) ==> parsed(bytes@) == Some(v@),
        particles is None ==> parsed(bytes@) is None,
{
    let rows: Vec<[u64; 7]> = bincode::deserialize(bytes).ok()?;
    Some(
        rows.into_iter()
            .map(|r| Particle {
                radius: r[0], pos_x: r[1], pos_y: r[2], vel_x: r[3], vel_y: r[4],
                charge: r[5], mass: r[6],
            })
            .collect(),
    )
}

/// Calls `base64::encode_config` with `base64::URL_SAFE`. Trusted: the result
/// is a function of the bytes alone; it has four characters for every three
/// bytes begun, all of them from the URL-safe alphabet or padding; and
/// `base64::decode_config` under the same configuration reads it back as
/// those bytes. The call panics where the text would not fit a buffer, which
/// the precondition keeps out.
#[verifier::external_body]
pub(crate) fn base64_encode(bytes: &Vec<u8>) -> (text: String)
    requires
        text_len(bytes@.len()) <= isize::MAX,
    ensures
        text@ == base64_text(bytes@),
        text@.len() == text_len(bytes@.len()),
        text_safe(text@),
        base64_bytes(text@) == Some(bytes@),
{
    base64::encode_config(bytes, base64::URL_SAFE)
}

/// Calls `base64::decode_config` with `base64::URL_SAFE`. Trusted: whether it
/// succeeds, and with which bytes, is a function of the text alone.
#[verifier::external_body]
pub(crate) fn base64_decode(text: &String) -> (bytes: Option<Vec<u8>>)
    ensures
        bytes matches Some(b) ==> base64_bytes(text@) == Some(b@),
        bytes is None ==> base64_bytes(text@) is None,
{
    base64::decode_config(text, base64::URL_SAFE).ok()
}

/// A particle takes fifty-six bytes.
pub proof fn lemma_particle_len(p: Particle)
    ensures
        particle_bytes(p).len() == 56,
{
    lemma_auto_spec_u64_to_from_le_bytes();
}

/// The particles of a collection take fifty-six bytes each.
pub proof fn lemma_body_len(particles: Seq<Particle>)
    ensures
        body_bytes(particles).len() == 56 * particles.len(),
    decreases particles.len(),
{
    if particles.len() > 0 {
        lemma_body_len(particles.drop_last());
        lemma_particle_len(particles.last());
    }
}

/// A collection takes eight bytes and fifty-six more for each particle.
pub proof fn lemma_payload_len(particles: Seq<Particle>)
    ensures
        payload(particles).len() == 8 + 56 * particles.len(),
{
    lemma_auto_spec_u64_to_from_le_bytes();
    lemma_body_len(particles);
}

/// The bytes of the particle at index `k` stand at `56 * k`.
pub proof fn lemma_body_slice(particles: Seq<Particle>, k: int)
    requires
        0 <= k < particles.len(),
    ensures
        body_bytes(particles).subrange(56 * k, 56 * k + 56) == particle_bytes(particles[k]),
    decreases particles.len(),
{
    let front = particles.drop_last();
    lemma_body_len(front);
    lemma_particle_len(particles.last());
    if k == particles.len() - 1 {
        assert(body_bytes(particles).subrange(56 * k, 56 * k + 56) == particle_bytes(
            particles.last(),
        ));
    } else {
        lemma_body_slice(front, k);
        assert(body_bytes(particles).subrange(56 * k, 56 * k + 56) == body_bytes(
            front,
        ).subrange(56 * k, 56 * k + 56));
    }
}

/// Reading the fifty-six bytes of a particle gives the particle.
pub proof fn lemma_particle_at(bytes: Seq<u8>, at: int, p: Particle)
    requires
        0 <= at,
        at + 56 <= bytes.len(),
        bytes.subrange(at, at + 56) == particle_bytes(p),
    ensures
        particle_at(bytes, at) == p,
{
    lemma_auto_spec_u64_to_from_le_bytes();
    let chunk = particle_bytes(p);
    let window = bytes.subrange(at, at + 56);
    assert(bytes.subrange(at, at + 8) == window.subrange(0, 8));
    assert(bytes.subrange(at + 8, at + 16) == window.subrange(8, 16));
    assert(bytes.subrange(at + 16, at + 24) == window.subrange(16, 24));
    assert(bytes.subrange(at + 24, at + 32) == window.subrange(24, 32));
    assert(bytes.subrange(at + 32, at + 40) == window.subrange(32, 40));
    assert(bytes.subrange(at + 40, at + 48) == window.subrange(40, 48));
    assert(bytes.subrange(at + 48, at + 56) == window.subrange(48, 56));
    assert(chunk.subrange(0, 8) == spec_u64_to_le_bytes(p.radius));
    assert(chunk.subrange(8, 16) == spec_u64_to_le_bytes(p.pos_x));
    assert(chunk.subrange(16, 24) == spec_u64_to_le_bytes(p.pos_y));
    assert(chunk.subrange(24, 32) == spec_u64_to_le_bytes(p.vel_x));
    assert(chunk.subrange(32, 40) == spec_u64_to_le_bytes(p.vel_y));
    assert(chunk.subrange(40, 48) == spec_u64_to_le_bytes(p.charge));
    assert(chunk.subrange(48, 56) == spec_u64_to_le_bytes(p.mass));
}

/// Laying a collection out and reading the bytes back gives the collection,
/// whatever bytes follow it.
pub proof fn lemma_payload_parses(particles: Seq<Particle>, rest: Seq<u8>)
    requires
        particles.len() <= u64::MAX,
    ensures
        parsed(payload(particles) + rest) == Some(particles),
{
    lemma_auto_spec_u64_to_from_le_bytes();
    lemma_body_len(particles);
    let n = particles.len() as int;
    let body = body_bytes(particles);
    let bytes = payload(particles) + rest;
    assert(bytes.subrange(0, 8) == spec_u64_to_le_bytes(n as u64));
    assert(word_at(bytes, 0) == n);
    let read = Seq::new(n as nat, |k: int| particle_at(bytes, 8 + 56 * k));
    assert forall|k: int| 0 <= k < n implies read[k] == particles[k] by {
        lemma_body_slice(particles, k);
        assert(bytes.subrange(8 + 56 * k, 8 + 56 * k + 56) == body.subrange(
            56 * k,
            56 * k + 56,
        ));
        lemma_particle_at(bytes, 8 + 56 * k, particles[k]);
    }
    assert(read == particles);
}

} // verus!
