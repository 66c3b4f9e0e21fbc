//! The logic of a push-to-talk dictation daemon.
//!
//! Everything that the daemon decides is here, as functions and state machines
//! that are told what happened and answer with what to do. Keyboards, processes,
//! files and the network are the business of whoever carries that out.

// Text.
pub mod text;
pub mod graphemes;
pub mod transcript;
pub mod placeholder;
pub mod live_text;
pub mod json;
pub mod encoding;

// Settings and files.
pub mod storage;
pub mod config;
pub mod mode;
pub mod keyterms;
pub mod menu;
pub mod command;

// Keyboard, clipboard and sound.
pub mod hotkey;
pub mod audio;
pub mod muting;
pub mod media;
pub mod mic;
pub mod clipboard;
pub mod deliver;
pub mod notify;

// Transcription.
pub mod transcribe;
pub mod realtime;
pub mod session;
pub mod realtime_mode;

// A press of the hotkey from beginning to end.
pub mod press;
pub mod press_laws;
pub mod press_steps;
