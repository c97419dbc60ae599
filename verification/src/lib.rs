//! The verified core of a desktop soundboard.
//!
//! The heart of it is the audio engine: gains in fixed point, the catalog of
//! selected devices, the cursor of the streaming decoder, the sinks of a
//! playing sound, the table of playing sounds with the commands that change
//! it, and the microphone loopback. Around it stand the rules of the
//! hotkeys, of the helper programs, of updates and of the clips that are
//! fetched from the video platform.
//!
//! The library opens no device, reads no file and keeps no clock. Whatever
//! comes from outside is handed in as plain values, and what must happen
//! outside is handed back the same way.

pub mod commands;
pub mod dependencies;
pub mod device;
pub mod engine;
pub mod error;
pub mod gain;
pub mod hotkeys;
pub mod instance;
pub mod manager;
pub mod mixer;
pub mod pipewire;
pub mod sample;
pub mod shell;
pub mod soundboard;
pub mod source;
pub mod table;
pub mod text;
pub mod updater;
pub mod vbcable;
pub mod virtual_audio;
pub mod youtube;
