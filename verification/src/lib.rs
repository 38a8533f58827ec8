//! The decisions of a voice engine for agents that work in a terminal: what the Caps Lock
//! key means, what becomes of a dictation, what of an agent's stream is handed to the
//! voice, which models are fetched, and what a request to the engine leads to.
//!
//! Nothing here touches the keyboard, a microphone, a socket, a file or a clock. The caller
//! says what it sees and what time it is, and carries out what is decided. Every function
//! states what it returns and what it changes over a mathematical view of its type, and
//! what the engine as a whole promises is stated and proved as laws (`law_…`).
//!
//! - [`engine`]: the key, the gestures, dictation and the settings that drive them.
//! - [`listen`], [`listener`], [`helper_stt`]: hands-free dictation, and dictation through
//!   the helper.
//! - [`codex_stream`], [`grok_stream`]: following agents' sessions; [`coalesce`] gathers
//!   their text, and [`sessions`] says which are alive.
//! - [`barge`]: pausing the voice while another program listens.
//! - [`boot`]: starting, the main loop, and ending.
//! - [`config`], [`config_gate`], [`config_watch`]: the settings and what follows from them.
//! - [`downloads`], [`model_slot`], [`child_slot`]: models, and the process that holds them.
//! - [`ipc`], [`dictation_presenter`], [`status`], [`logging`]: what clients ask and are
//!   told.
//! - [`json`], [`record`], [`text`], [`assoc`], [`seqs`]: data and text.

pub mod assoc;
pub mod barge;
pub mod boot;
pub mod child_slot;
pub mod coalesce;
pub mod codex_stream;
pub mod config;
pub mod config_gate;
pub mod config_watch;
pub mod dictation_presenter;
pub mod downloads;
pub mod engine;
pub mod grok_stream;
pub mod helper_stt;
pub mod ipc;
pub mod json;
pub mod listen;
pub mod listener;
pub mod logging;
pub mod model_slot;
pub mod record;
pub mod seqs;
pub mod sessions;
pub mod status;
pub mod text;
