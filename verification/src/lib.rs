//! The decision core of an editor's project layer: git state, language servers,
//! context servers, environments, terminals and sessions.
pub mod agent_registry_store;
pub mod context_server_store;
pub mod environment;
pub mod git_store;
pub mod globs;
pub mod ids;
pub mod list_map;
pub mod lsp_command;
pub mod lsp_store;
pub mod navigate_to_positions;
pub mod rel_path;
pub mod session;
pub mod sorting;
pub mod terminals;
pub mod text;
pub mod text_lines;
