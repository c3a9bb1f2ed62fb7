//! Hold-to-talk voice commands: a recording session collects audio samples while a
//! key is held, the transcript is normalized and resolved against a command table,
//! and a matching command is turned into a plan of key events.
pub mod controller;
pub mod keys;
pub mod profiles;
pub mod settings;
pub mod speech_to_text;
pub mod text;
