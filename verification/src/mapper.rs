use vstd::prelude::*;

use crate::config::ScaleConfig;
use crate::config::ScaleConfigView;

verus! {

/// The two performance commands the mapper distinguishes. Every other event
/// kind is passed through by the processor and never reaches the mapper.
#[derive(Clone, Copy, PartialEq, Eq, Structural, Debug)]
pub enum Command {
    NoteOn,
    NoteOff,
}

/// The candidate outgoing pitch for a pressed key, before range checking:
/// the degree's offset applied to the scale rooted one octave below the root's
/// own register, lifted to the octave of the pressed key.
pub open spec fn candidate_pitch(root: u8, offset: u8, pitch: u8) -> int {
    12 * (pitch as int / 12) + root as int - 12 + offset as int
}

/// What mapping a note-on returns: the pitch itself under a bypass
/// configuration; nothing when the pressed key's degree has no entry in the
/// interval table or the candidate pitch falls outside `[0, 127]`; the
/// range-checked candidate pitch otherwise.
pub open spec fn map_note_on_spec(c: ScaleConfigView, pitch: u8) -> Option<u8> {
    if c.is_bypass() {
        Some(pitch)
    } else {
        let degree = pitch as int % 12;
        if degree >= c.intervals.len() {
            None
        } else {
            let v = candidate_pitch(c.root->0, c.intervals[degree], pitch);
            if 0 <= v <= 127 {
                Some(v as u8)
            } else {
                None
            }
        }
    }
}

/// What [`map`] returns. A note-off is resolved by the active-note table, not
/// by the mapper, so the mapper itself suppresses it.
pub open spec fn map_spec(c: ScaleConfigView, command: Command, pitch: u8) -> Option<u8> {
    match command {
        Command::NoteOn => map_note_on_spec(c, pitch),
        Command::NoteOff => None,
    }
}

/// Maps a pressed key to the outgoing pitch, or to nothing when the event is
/// to be suppressed. A pure function of its three inputs: no internal state,
/// no side effects, and in particular no dependence on velocity or timestamp.
pub fn map(config: &ScaleConfig, command: Command, pitch: u8) -> (r: Option<u8>)
    ensures
        r == map_spec(config@, command, pitch),
{
    match command {
        Command::NoteOn => {},
        Command::NoteOff => {
            return None;
        },
    }
    if config.is_bypass() {
        return Some(pitch);
    }
    let degree: u8 = pitch % 12;
    if degree as usize >= config.interval_count() {
        return None;
    }
    let offset: u8 = config.interval_at(degree as usize);
    let root: u8 = match config.root() {
        Some(r) => r,
        None => 0,  // unreachable: a configuration without a root is in bypass
    };
    let v: i32 = 12 * (pitch as i32 / 12) + root as i32 - 12 + offset as i32;
    if 0 <= v && v <= 127 {
        Some(v as u8)
    } else {
        None
    }
}

/// Under a bypass configuration, mapping a note-on is the identity: every
/// pitch comes back unchanged.
pub proof fn lemma_bypass_identity(c: ScaleConfigView, pitch: u8)
    requires
        c.is_bypass(),
    ensures
        map_spec(c, Command::NoteOn, pitch) == Some(pitch),
{
}

/// With a configured scale, whenever a note-on maps to an outgoing pitch, that
/// pitch's pitch-class is the pressed degree's offset counted from the root,
/// reduced to an octave. Velocity and timestamp play no part: the mapper never
/// reads them.
pub proof fn lemma_mapped_pitch_class(c: ScaleConfigView, pitch: u8, q: u8)
    requires
        !c.is_bypass(),
        pitch as int % 12 < c.intervals.len(),
        map_spec(c, Command::NoteOn, pitch) == Some(q),
    ensures
        q as int % 12 == (c.root->0 + c.intervals[pitch as int % 12]) % 12,
{
    let degree = pitch as int % 12;
    let root = c.root->0 as int;
    let offset = c.intervals[degree] as int;
    let oct = pitch as int / 12;
    assert(q == 12 * oct + root - 12 + offset);
    assert(12 * oct + root - 12 + offset == 12 * (oct - 1) + (root + offset)) by (nonlinear_arith);
    vstd::arithmetic::div_mod::lemma_mod_multiples_vanish(oct - 1, root + offset, 12);
}

/// With a configured scale, a pressed key whose degree lies outside the
/// interval table is suppressed.
pub proof fn lemma_degree_out_of_range(c: ScaleConfigView, pitch: u8)
    requires
        !c.is_bypass(),
        pitch as int % 12 >= c.intervals.len(),
    ensures
        map_spec(c, Command::NoteOn, pitch) is None,
{
}

} // verus!
