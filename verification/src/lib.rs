//! Core logic of the char meeting assistant: calendar sync planning,
//! command palette layout, TUI state machines and audio routing decisions.

pub mod bounded;
pub mod text;
pub mod calendar;
pub mod command_popup;
pub mod keys;
pub mod meeting_view;
pub mod chat;
pub mod pipeline;
pub mod supervisor;
pub mod timeline;
pub mod meetings_list;
pub mod model_picker;
pub mod update_prompt;
pub mod audio_sync;
pub mod post_meeting;
pub mod settings;
pub mod vad_errors;
pub mod cactus_proxy;
pub mod chat_context;
pub mod rows;
pub mod colors;
pub mod session_files;
pub mod transcripts;
pub mod entry;
pub mod vad_stream;
pub mod xtask;
pub mod listen_route;
