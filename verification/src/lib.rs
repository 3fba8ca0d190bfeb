//! Verified core of the Brume instrument: modulation bookkeeping, the
//! patch library's naming, layering and listing rules, control-surface
//! dispatch, page navigation, the mixer, MIDI Learn, channel routing,
//! the modulation routing table, the on-screen keyboard, background
//! persistence decisions, timestamps, the script-name guard, and the
//! chord, scale and note-name helpers scripts use.

pub mod text;
pub mod shapes;
pub mod modulation;
pub mod time_fmt;
pub mod patch_store;
pub mod controllers;
pub mod ui;
pub mod keyboard;
pub mod mixer;
pub mod learn;
pub mod channels;
pub mod mod_routing;
pub mod persist;
pub mod scripting;
pub mod settings;
pub mod music;
