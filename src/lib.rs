//! Audio library core: the playback engine's command state machine, the
//! equalizer's channel routing and refresh cadence, and the metadata
//! processing rules that name albums and tracks.
pub mod correct;
pub mod engine;
pub mod equalizer;
pub mod folder;
pub mod models;
pub mod naming;
pub mod playlist;
pub mod processor;
pub mod renamer;
pub mod scanner;
pub mod services;
pub mod text;
pub mod validator;
