//! A real-time note remapper: incoming note-on / note-off events are rewritten
//! so that only pitches belonging to the active musical scale, anchored at the
//! active root key, are emitted. A note's off event always resolves to the same
//! outgoing pitch as its on event, even across configuration changes, and a
//! fault in one event of a batch never disturbs the others.

pub mod config;
pub mod control;
pub mod mapper;
pub mod processor;
pub mod table;
