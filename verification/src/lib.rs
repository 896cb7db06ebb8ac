//! Session state and decisions of an editor's terminals, prompt history and
//! markdown views.

pub mod activation;
pub mod env;
pub mod markdown_preview;
pub mod paths;
pub mod project;
pub mod prompt_history;
pub mod shell;
pub mod terminal_launch;
pub mod terminals;
pub mod text;
pub mod text_map;
pub mod view_mode_memory;
pub mod workspace_history;
