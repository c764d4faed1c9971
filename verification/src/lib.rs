//! Line-editing core of the flyline shell line editor: the text buffer with
//! cursor, selection and undo history, the tab-completion context, and the
//! small parsers used by the shell backends and the prompt.

pub mod unicode;
pub mod history;
pub mod text_buffer;
pub mod shell_tokens;
pub mod cursor_context;
pub mod tab_completion_context;
pub mod text_ops;
pub mod prompt_manager;
pub mod prompt_lines;
pub mod content_utils;
pub mod settings;
pub mod cli;
pub mod flyline_args;
pub mod flyline_apply;
pub mod style;
pub mod ls_style;
pub mod palette;
pub mod content_builder;
pub mod mouse_state;
pub mod prompt_string;
pub mod hostnames;
pub mod version;
pub mod shell;
