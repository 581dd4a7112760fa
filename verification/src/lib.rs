pub mod arrangement_view;
pub mod checksum;
pub mod clip_fades;
pub mod commands;
pub mod config;
pub mod daw;
pub mod dirty_event;
pub mod discovery;
pub mod live_midi;
pub mod midi_input;
pub mod midi_recording;
pub mod offset_position;
pub mod outbox;
pub mod pattern;
pub mod playlist;
pub mod position;
pub mod resample;
pub mod selection;
pub mod solo;
pub mod stream;
pub mod text;
pub mod time;
pub mod track_input;
pub mod transport;
pub mod voice_alloc;
