use in_tune::config::ScaleConfig;
use in_tune::mapper::Command;
use in_tune::processor::Event;
use in_tune::processor::EventFault;
use in_tune::processor::EventProcessor;
use in_tune::processor::NOTE_OFF;
use in_tune::processor::NOTE_ON;
use in_tune::table::ActiveNoteTable;

fn ev(command: u8, pitch: u8, velocity: u8) -> Event {
    Event { command, channel: 0, pitch, velocity, timestamp: 0 }
}

fn major_scale() -> Vec<u8> {
    vec![0, 2, 4, 5, 7, 9, 11]
}

#[test]
fn bypass_maps_every_pitch_to_itself() {
    let c = ScaleConfig::bypass();
    assert_eq!(in_tune::mapper::map(&c, Command::NoteOn, 0), Some(0));
    assert_eq!(in_tune::mapper::map(&c, Command::NoteOn, 60), Some(60));
    assert_eq!(in_tune::mapper::map(&c, Command::NoteOn, 127), Some(127));
}

#[test]
fn empty_intervals_is_bypass() {
    let c = ScaleConfig::new(Some(5), Vec::new());
    assert!(c.is_bypass());
    assert_eq!(in_tune::mapper::map(&c, Command::NoteOn, 61), Some(61));
}

#[test]
fn absent_root_is_bypass() {
    let c = ScaleConfig::new(None, major_scale());
    assert!(c.is_bypass());
    assert_eq!(in_tune::mapper::map(&c, Command::NoteOn, 61), Some(61));
}

#[test]
fn major_scale_example_values() {
    // root key 24 has pitch-class 0; degree 0 carries offset 0, degree 1 offset 2
    let c = ScaleConfig::new(Some(24), major_scale());
    assert_eq!(in_tune::mapper::map(&c, Command::NoteOn, 60), Some(48));
    assert_eq!(in_tune::mapper::map(&c, Command::NoteOn, 61), Some(50));
}

#[test]
fn mapped_pitch_class_is_root_plus_offset() {
    // root 2, degree 1 carries offset 3: 12*5 + 2 - 12 + 3 = 53, and 53 % 12 == 5
    let c = ScaleConfig::new(Some(2), vec![0, 3]);
    assert_eq!(in_tune::mapper::map(&c, Command::NoteOn, 61), Some(53));
}

#[test]
fn degree_outside_interval_table_is_suppressed() {
    let c = ScaleConfig::new(Some(0), vec![0, 2]);
    assert_eq!(in_tune::mapper::map(&c, Command::NoteOn, 65), None); // 65 % 12 == 5 >= 2
    assert_eq!(in_tune::mapper::map(&c, Command::NoteOn, 60), Some(48));
}

#[test]
fn candidate_below_range_is_suppressed_not_wrapped() {
    // degree 0 of the bottom octave: 12*0 + 0 - 12 + 0 = -12, out of range
    let c = ScaleConfig::new(Some(0), vec![0]);
    assert_eq!(in_tune::mapper::map(&c, Command::NoteOn, 0), None);
}

#[test]
fn candidate_above_range_is_suppressed_not_wrapped() {
    // 12*10 + 11 - 12 + 200 = 319, out of range
    let c = ScaleConfig::new(Some(11), vec![200]);
    assert_eq!(in_tune::mapper::map(&c, Command::NoteOn, 120), None);
}

#[test]
fn mapper_never_resolves_note_off() {
    let c = ScaleConfig::new(Some(0), major_scale());
    assert_eq!(in_tune::mapper::map(&c, Command::NoteOff, 60), None);
}

#[test]
fn table_resolves_note_off_to_recorded_pitch() {
    let mut t = ActiveNoteTable::new();
    t.on_note_on(60, 48);
    assert_eq!(t.lookup(60), Some(48));
    assert_eq!(t.on_note_off(60), Some(48));
    assert_eq!(t.on_note_off(60), None);
}

#[test]
fn table_last_press_wins() {
    let mut t = ActiveNoteTable::new();
    t.on_note_on(60, 48);
    t.on_note_on(60, 50);
    assert_eq!(t.len(), 1);
    assert_eq!(t.on_note_off(60), Some(50));
}

#[test]
fn table_clear_forgets_sounding_notes() {
    let mut t = ActiveNoteTable::new();
    t.on_note_on(60, 48);
    t.on_note_on(62, 50);
    t.clear();
    assert!(t.is_empty());
    assert_eq!(t.on_note_off(60), None);
}

#[test]
fn note_off_resolves_across_config_change() {
    let mut p = EventProcessor::new();
    p.handle_control(&b"set 24 [0,2,4,5,7,9,11]".to_vec());
    let first = p.process_batch(&vec![ev(NOTE_ON, 61, 100)]);
    assert_eq!(first.forwarded.len(), 1);
    assert_eq!(first.forwarded[0].pitch, 50);
    // replace the scale mid-note: the off event must still resolve to 50
    p.handle_control(&b"set 26 [0,1]".to_vec());
    let second = p.process_batch(&vec![ev(NOTE_OFF, 61, 0)]);
    assert_eq!(second.forwarded.len(), 1);
    assert_eq!(second.forwarded[0].pitch, 50);
    assert_eq!(second.forwarded[0].command, NOTE_OFF);
    assert_eq!(p.active_note_count(), 0);
}

#[test]
fn other_pitches_leave_a_sounding_note_tracked() {
    let mut p = EventProcessor::new();
    p.handle_control(&b"set 24 [0,2,4,5,7,9,11]".to_vec());
    let on = p.process_batch(&vec![ev(NOTE_ON, 61, 100)]);
    assert_eq!(on.forwarded[0].pitch, 50);
    // a whole cycle of unrelated notes in between
    p.process_batch(&vec![ev(NOTE_ON, 60, 100), ev(NOTE_OFF, 60, 0), ev(NOTE_ON, 62, 100)]);
    assert_eq!(p.sounding_as(61), Some(50));
    let off = p.process_batch(&vec![ev(NOTE_OFF, 61, 0)]);
    assert_eq!(off.forwarded[0].pitch, 50);
}

#[test]
fn unmatched_note_off_is_dropped() {
    let mut p = EventProcessor::new();
    let r = p.process_batch(&vec![ev(NOTE_OFF, 60, 0)]);
    assert!(r.forwarded.is_empty());
    assert!(r.faults.is_empty());
}

#[test]
fn suppressed_note_on_suppresses_its_note_off() {
    let mut p = EventProcessor::new();
    p.handle_control(&b"set 0 [0,2]".to_vec());
    let r = p.process_batch(&vec![ev(NOTE_ON, 65, 100), ev(NOTE_OFF, 65, 0)]);
    assert!(r.forwarded.is_empty());
    assert!(r.faults.is_empty());
    assert_eq!(p.active_note_count(), 0);
}

#[test]
fn note_off_after_stop_is_dropped() {
    let mut p = EventProcessor::new();
    p.handle_control(&b"set 24 [0,2,4,5,7,9,11]".to_vec());
    let on = p.process_batch(&vec![ev(NOTE_ON, 60, 100)]);
    assert_eq!(on.forwarded[0].pitch, 48);
    p.handle_control(&b"stop".to_vec());
    let off = p.process_batch(&vec![ev(NOTE_OFF, 60, 0)]);
    assert!(off.forwarded.is_empty());
}

#[test]
fn other_commands_pass_through_unchanged() {
    let mut p = EventProcessor::new();
    p.handle_control(&b"set 0 [0]".to_vec());
    let e = Event { command: 176, channel: 3, pitch: 7, velocity: 99, timestamp: 5 };
    let r = p.process_batch(&vec![e]);
    assert_eq!(r.forwarded, vec![e]);
    assert!(r.faults.is_empty());
    assert_eq!(p.active_note_count(), 0);
}

#[test]
fn bypass_engine_tracks_note_lifecycle() {
    let mut p = EventProcessor::new();
    let r = p.process_batch(&vec![ev(NOTE_ON, 60, 100)]);
    assert_eq!(r.forwarded[0].pitch, 60);
    assert_eq!(p.sounding_as(60), Some(60));
    let r2 = p.process_batch(&vec![ev(NOTE_OFF, 60, 0)]);
    assert_eq!(r2.forwarded[0].pitch, 60);
    assert_eq!(p.active_note_count(), 0);
}

#[test]
fn repress_overwrites_mapping() {
    let mut p = EventProcessor::new();
    p.handle_control(&b"set 24 [0,2,4,5,7,9,11]".to_vec());
    let r1 = p.process_batch(&vec![ev(NOTE_ON, 60, 100)]);
    assert_eq!(r1.forwarded[0].pitch, 48);
    p.handle_control(&b"set 26 [0,2,4,5,7,9,11]".to_vec());
    let r2 = p.process_batch(&vec![ev(NOTE_ON, 60, 100)]);
    assert_eq!(r2.forwarded[0].pitch, 50); // 12*5 + 2 - 12 + 0
    let r3 = p.process_batch(&vec![ev(NOTE_OFF, 60, 0)]);
    assert_eq!(r3.forwarded[0].pitch, 50);
}

#[test]
fn batch_uses_one_snapshot_next_batch_the_new_config() {
    let mut p = EventProcessor::new();
    p.handle_control(&b"set 24 [0,2,4,5,7,9,11]".to_vec());
    let first = p.process_batch(&vec![ev(NOTE_ON, 60, 100), ev(NOTE_ON, 61, 100)]);
    let pitches: Vec<u8> = first.forwarded.iter().map(|e| e.pitch).collect();
    assert_eq!(pitches, vec![48, 50]);
    // the update lands between the cycles; the next batch sees only the new scale
    p.handle_control(&b"set 26 [0,2,4,5,7,9,11]".to_vec());
    let second = p.process_batch(&vec![ev(NOTE_ON, 60, 100)]);
    assert_eq!(second.forwarded[0].pitch, 50);
}

#[test]
fn malformed_pitch_is_isolated_from_its_batch() {
    let mut p = EventProcessor::new();
    p.handle_control(&b"set 24 [0,2,4,5,7,9,11]".to_vec());
    let batch = vec![ev(NOTE_ON, 60, 100), ev(NOTE_ON, 200, 100), ev(NOTE_ON, 61, 100)];
    let r = p.process_batch(&batch);
    let pitches: Vec<u8> = r.forwarded.iter().map(|e| e.pitch).collect();
    assert_eq!(pitches, vec![48, 50]);
    assert_eq!(r.faults, vec![EventFault::PitchOutOfRange]);
}

#[test]
fn malformed_velocity_is_reported_and_dropped() {
    let mut p = EventProcessor::new();
    let r = p.process_batch(&vec![ev(NOTE_ON, 60, 200), ev(NOTE_ON, 62, 90)]);
    let pitches: Vec<u8> = r.forwarded.iter().map(|e| e.pitch).collect();
    assert_eq!(pitches, vec![62]);
    assert_eq!(r.faults, vec![EventFault::VelocityOutOfRange]);
}

#[test]
fn stop_is_idempotent() {
    let mut p = EventProcessor::new();
    p.handle_control(&b"set 24 [0,2,4,5,7,9,11]".to_vec());
    p.process_batch(&vec![ev(NOTE_ON, 60, 100)]);
    p.handle_control(&b"stop".to_vec());
    let once = p.snapshot_config();
    assert_eq!(once.root(), None);
    assert_eq!(once.interval_count(), 0);
    assert_eq!(p.active_note_count(), 0);
    p.handle_control(&b"stop".to_vec());
    let twice = p.snapshot_config();
    assert_eq!(twice.root(), None);
    assert_eq!(twice.interval_count(), 0);
    assert_eq!(p.active_note_count(), 0);
}
