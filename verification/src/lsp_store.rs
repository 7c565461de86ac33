//! Language servers: which of them run for which part of the project, what is sent to
//! them, and what becomes of what they answer.
pub mod binary;
pub mod buffer_events;
pub mod buffer_languages;
pub mod buffer_versions;
pub mod capabilities;
pub mod content_changes;
pub mod edited_text;
pub mod incoming;
pub mod labels;
pub mod lsp_data;
pub mod messages;
pub mod open_buffers;
pub mod opening;
pub mod progress;
pub mod refresh;
pub mod registration;
pub mod renames;
pub mod requests;
pub mod server_info;
pub mod servers;
pub mod ssh_adapter;
pub mod startup;
pub mod stopping;
pub mod store;
pub mod text_edits;
pub mod watched_paths;
pub mod workspace_edit;
