use vstd::prelude::*;

use crate::config::ConfigStore;
use crate::config::ScaleConfig;
use crate::config::ScaleConfigView;
use crate::control;
use crate::mapper;
use crate::mapper::Command;
use crate::table::ActiveNoteTable;

verus! {

/// Command byte of a note-on event.
pub const NOTE_ON: u8 = 144;

/// Command byte of a note-off event.
pub const NOTE_OFF: u8 = 128;

/// One performance event as it arrives from, or is handed to, the host: a
/// command byte, a channel, a pitch, a velocity and a timestamp within the
/// current block.
#[derive(Clone, Copy, PartialEq, Eq, Structural, Debug)]
pub struct Event {
    pub command: u8,
    pub channel: u8,
    pub pitch: u8,
    pub velocity: u8,
    pub timestamp: i32,
}

/// Why a single event was dropped as faulty. A fault never aborts the rest of
/// its batch; it is recorded and processing continues.
#[derive(Clone, Copy, PartialEq, Eq, Structural, Debug)]
pub enum EventFault {
    /// The pitch byte is not a valid data byte (it is 128 or more).
    PitchOutOfRange,
    /// The velocity byte is not a valid data byte (it is 128 or more).
    VelocityOutOfRange,
}

/// A well-formed event carries data bytes in `[0, 127]`.
pub open spec fn event_well_formed(e: Event) -> bool {
    e.pitch < 128 && e.velocity < 128
}

/// The given event with its pitch replaced.
pub open spec fn with_pitch(e: Event, p: u8) -> Event {
    Event {
        command: e.command,
        channel: e.channel,
        pitch: p,
        velocity: e.velocity,
        timestamp: e.timestamp,
    }
}

/// The fault one event raises, if any.
pub open spec fn step_fault(e: Event) -> Option<EventFault> {
    if e.pitch >= 128 {
        Some(EventFault::PitchOutOfRange)
    } else if e.velocity >= 128 {
        Some(EventFault::VelocityOutOfRange)
    } else {
        None
    }
}

/// The event one input event forwards, if any: a malformed event is dropped; a
/// note-on is mapped through the configuration and dropped when suppressed; a
/// note-off resolves through the active-note table and is dropped when no note
/// is sounding for its pitch; every other command passes through unchanged.
pub open spec fn step_out(c: ScaleConfigView, notes: Map<u8, u8>, e: Event) -> Option<Event> {
    if !event_well_formed(e) {
        None
    } else if e.command == NOTE_ON {
        match mapper::map_note_on_spec(c, e.pitch) {
            Some(q) => Some(with_pitch(e, q)),
            None => None,
        }
    } else if e.command == NOTE_OFF {
        if notes.contains_key(e.pitch) {
            Some(with_pitch(e, notes[e.pitch]))
        } else {
            None
        }
    } else {
        Some(e)
    }
}

/// The active-note table after one input event: a forwarded note-on records
/// its mapping, a note-off removes it, everything else leaves the table alone.
pub open spec fn step_notes(c: ScaleConfigView, notes: Map<u8, u8>, e: Event) -> Map<u8, u8> {
    if !event_well_formed(e) {
        notes
    } else if e.command == NOTE_ON {
        match mapper::map_note_on_spec(c, e.pitch) {
            Some(q) => notes.insert(e.pitch, q),
            None => notes,
        }
    } else if e.command == NOTE_OFF {
        notes.remove(e.pitch)
    } else {
        notes
    }
}

/// The events a whole batch forwards, in arrival order, every event mapped
/// against the same configuration snapshot.
pub open spec fn batch_out(c: ScaleConfigView, notes: Map<u8, u8>, events: Seq<Event>) -> Seq<
    Event,
>
    decreases events.len(),
{
    if events.len() == 0 {
        Seq::empty()
    } else {
        let rest = batch_out(c, step_notes(c, notes, events[0]), events.skip(1));
        match step_out(c, notes, events[0]) {
            Some(e) => seq![e] + rest,
            None => rest,
        }
    }
}

/// The active-note table after a whole batch.
pub open spec fn batch_notes(c: ScaleConfigView, notes: Map<u8, u8>, events: Seq<Event>) -> Map<
    u8,
    u8,
>
    decreases events.len(),
{
    if events.len() == 0 {
        notes
    } else {
        batch_notes(c, step_notes(c, notes, events[0]), events.skip(1))
    }
}

/// The faults a whole batch records, in arrival order.
pub open spec fn batch_faults(c: ScaleConfigView, notes: Map<u8, u8>, events: Seq<Event>) -> Seq<
    EventFault,
>
    decreases events.len(),
{
    if events.len() == 0 {
        Seq::empty()
    } else {
        let rest = batch_faults(c, step_notes(c, notes, events[0]), events.skip(1));
        match step_fault(events[0]) {
            Some(f) => seq![f] + rest,
            None => rest,
        }
    }
}

/// What one processing cycle hands back: the outgoing batch, in arrival
/// order, and a diagnostics entry for every dropped faulty event.
pub struct BatchResult {
    pub forwarded: Vec<Event>,
    pub faults: Vec<EventFault>,
}

/// Orchestrates one batch of events per processing cycle: reads the
/// configuration once, maps note-ons, resolves note-offs through the
/// active-note table, and isolates faults so one bad event cannot abort the
/// cycle.
pub struct EventProcessor {
    store: ConfigStore,
    table: ActiveNoteTable,
}

impl EventProcessor {
    /// The configuration the processor currently holds.
    pub closed spec fn config(&self) -> ScaleConfigView {
        self.store@
    }

    /// The active-note table the processor currently holds.
    pub closed spec fn notes(&self) -> Map<u8, u8> {
        self.table@
    }

    /// A processor at engine startup: bypass configuration, no sounding notes.
    pub fn new() -> (p: EventProcessor)
        ensures
            p.config() == ScaleConfigView::bypass(),
            p.notes() == Map::<u8, u8>::empty(),
    {
        EventProcessor { store: ConfigStore::new(), table: ActiveNoteTable::new() }
    }

    /// An owned copy of the current configuration.
    pub fn snapshot_config(&self) -> (c: ScaleConfig)
        ensures
            c@ == self.config(),
    {
        self.store.snapshot()
    }

    /// The outgoing pitch the given incoming pitch currently sounds as, if
    /// any.
    pub fn sounding_as(&self, incoming: u8) -> (r: Option<u8>)
        ensures
            r == (if self.notes().contains_key(incoming) {
                Some(self.notes()[incoming])
            } else {
                None::<u8>
            }),
    {
        self.table.lookup(incoming)
    }

    /// The number of currently-sounding notes.
    pub fn active_note_count(&self) -> (n: usize)
        ensures
            n == self.notes().len(),
    {
        self.table.len()
    }

    /// Applies one control-surface line between processing cycles: `stop`
    /// resets configuration and table, `set` replaces the configuration
    /// wholesale, anything else is ignored. The protocol is fire-and-forget;
    /// acknowledgement is the transport's business, not the engine's.
    pub fn handle_control(&mut self, line: &Vec<u8>)
        ensures
            final(self).config() == control::control_outcome(
                line@,
                old(self).config(),
                old(self).notes(),
            ).0,
            final(self).notes() == control::control_outcome(
                line@,
                old(self).config(),
                old(self).notes(),
            ).1,
    {
        let cmd = control::parse_control(line);
        control::apply_control(cmd, &mut self.store, &mut self.table);
    }

    /// Processes one batch: takes a single configuration snapshot for the
    /// whole cycle, maps every event against it in arrival order, and records
    /// a fault for each dropped malformed event instead of aborting the batch.
    #[verifier::loop_isolation(false)]
    pub fn process_batch(&mut self, events: &Vec<Event>) -> (r: BatchResult)
        ensures
            r.forwarded@ == batch_out(old(self).config(), old(self).notes(), events@),
            r.faults@ == batch_faults(old(self).config(), old(self).notes(), events@),
            final(self).notes() == batch_notes(old(self).config(), old(self).notes(), events@),
            final(self).config() == old(self).config(),
    {
        let config = self.store.snapshot();
        let mut forwarded: Vec<Event> = Vec::new();
        let mut faults: Vec<EventFault> = Vec::new();
        let mut i: usize = 0;
        proof {
            assert(events@.skip(0) =~= events@);
            assert(Seq::<Event>::empty() + batch_out(config@, self.table@, events@)
                =~= batch_out(config@, self.table@, events@));
            assert(Seq::<EventFault>::empty() + batch_faults(config@, self.table@, events@)
                =~= batch_faults(config@, self.table@, events@));
        }
        while i < events.len()
            invariant
                i <= events.len(),
                self.store@ == old(self).config(),
                batch_out(config@, old(self).notes(), events@) == forwarded@ + batch_out(
                    config@,
                    self.table@,
                    events@.skip(i as int),
                ),
                batch_notes(config@, old(self).notes(), events@) == batch_notes(
                    config@,
                    self.table@,
                    events@.skip(i as int),
                ),
                batch_faults(config@, old(self).notes(), events@) == faults@ + batch_faults(
                    config@,
                    self.table@,
                    events@.skip(i as int),
                ),
            decreases events.len() - i,
        {
            let e = events[i];
            proof {
                assert(events@.skip(i as int)[0] == events@[i as int]);
                assert(events@.skip(i as int).skip(1) =~= events@.skip(i as int + 1));
            }
            let ghost notes_before = self.table@;
            if e.pitch >= 128 {
                faults.push(EventFault::PitchOutOfRange);
            } else if e.velocity >= 128 {
                faults.push(EventFault::VelocityOutOfRange);
            } else if e.command == NOTE_ON {
                match mapper::map(&config, Command::NoteOn, e.pitch) {
                    Some(q) => {
                        self.table.on_note_on(e.pitch, q);
                        forwarded.push(
                            Event {
                                command: e.command,
                                channel: e.channel,
                                pitch: q,
                                velocity: e.velocity,
                                timestamp: e.timestamp,
                            },
                        );
                    },
                    None => {},
                }
            } else if e.command == NOTE_OFF {
                match self.table.on_note_off(e.pitch) {
                    Some(q) => {
                        forwarded.push(
                            Event {
                                command: e.command,
                                channel: e.channel,
                                pitch: q,
                                velocity: e.velocity,
                                timestamp: e.timestamp,
                            },
                        );
                    },
                    None => {},
                }
            } else {
                forwarded.push(e);
            }
            proof {
                assert(self.table@ == step_notes(config@, notes_before, e));
                assert(forwarded@ + batch_out(config@, self.table@, events@.skip(i as int + 1))
                    =~= batch_out(config@, old(self).notes(), events@));
                assert(faults@ + batch_faults(config@, self.table@, events@.skip(i as int + 1))
                    =~= batch_faults(config@, old(self).notes(), events@));
            }
            i = i + 1;
        }
        proof {
            assert(events@.skip(events@.len() as int) =~= Seq::<Event>::empty());
            assert(forwarded@ + Seq::<Event>::empty() =~= forwarded@);
            assert(faults@ + Seq::<EventFault>::empty() =~= faults@);
        }
        BatchResult { forwarded, faults }
    }
}

/// Note-lifecycle consistency: when a note-on is forwarded with outgoing pitch
/// `q`, the matching note-off forwards `q` as well, under any later
/// configuration, and the note stops being tracked.
pub proof fn lemma_note_lifecycle(
    c1: ScaleConfigView,
    c2: ScaleConfigView,
    notes: Map<u8, u8>,
    on: Event,
    off: Event,
    q: u8,
)
    requires
        event_well_formed(on),
        event_well_formed(off),
        on.command == NOTE_ON,
        off.command == NOTE_OFF,
        off.pitch == on.pitch,
        mapper::map_note_on_spec(c1, on.pitch) == Some(q),
    ensures
        step_out(c1, notes, on) == Some(with_pitch(on, q)),
        step_out(c2, step_notes(c1, notes, on), off) == Some(with_pitch(off, q)),
        !step_notes(c2, step_notes(c1, notes, on), off).contains_key(on.pitch),
{
}

/// Note-lifecycle suppression: a note-off whose pitch is not tracked — because
/// its note-on was suppressed, or the table was cleared — forwards nothing and
/// leaves the table as it was.
pub proof fn lemma_unmatched_note_off_suppressed(
    c: ScaleConfigView,
    notes: Map<u8, u8>,
    off: Event,
)
    requires
        event_well_formed(off),
        off.command == NOTE_OFF,
        !notes.contains_key(off.pitch),
    ensures
        step_out(c, notes, off) is None,
        step_notes(c, notes, off) == notes,
{
    assert(notes.remove(off.pitch) =~= notes);
}

/// Events for other pitches never disturb a tracked note: a batch none of
/// whose events carries pitch `p` leaves the table's entry for `p` as it was,
/// so a note-off any number of cycles after its note-on still resolves to the
/// pitch recorded at the note-on.
pub proof fn lemma_other_pitches_preserve_entry(
    c: ScaleConfigView,
    notes: Map<u8, u8>,
    events: Seq<Event>,
    p: u8,
)
    requires
        forall|i: int| 0 <= i < events.len() ==> (#[trigger] events[i]).pitch != p,
    ensures
        batch_notes(c, notes, events).contains_key(p) == notes.contains_key(p),
        notes.contains_key(p) ==> batch_notes(c, notes, events)[p] == notes[p],
    decreases events.len(),
{
    if events.len() > 0 {
        assert(forall|i: int| 0 <= i < events.skip(1).len()
            ==> (#[trigger] events.skip(1)[i]).pitch != p);
        lemma_other_pitches_preserve_entry(c, step_notes(c, notes, events[0]), events.skip(1), p);
    }
}

/// Fault isolation: dropping a malformed event from anywhere in a batch
/// changes neither what the other events forward nor the final table — every
/// other event is processed exactly as if the malformed one were absent.
pub proof fn lemma_fault_isolation(
    c: ScaleConfigView,
    notes: Map<u8, u8>,
    events: Seq<Event>,
    i: int,
)
    requires
        0 <= i < events.len(),
        step_fault(events[i]) is Some,
    ensures
        batch_out(c, notes, events) == batch_out(c, notes, events.remove(i)),
        batch_notes(c, notes, events) == batch_notes(c, notes, events.remove(i)),
    decreases i,
{
    if i == 0 {
        assert(!event_well_formed(events[0]));
        assert(events.remove(0) =~= events.skip(1));
    } else {
        assert(events.remove(i)[0] == events[0]);
        assert(events.remove(i).skip(1) =~= events.skip(1).remove(i - 1));
        lemma_fault_isolation(c, step_notes(c, notes, events[0]), events.skip(1), i - 1);
    }
}

} // verus!

