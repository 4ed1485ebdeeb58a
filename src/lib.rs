//! Runs a Lua script inside Roblox Studio by injecting a bridge plugin and
//! relaying the script's output back over a local channel.

mod error;
mod events;
mod plugin;
mod session;
mod text;
mod workspace;

pub use error::RunError;
pub use events::{
    drain, exit_code, parse_submission, style_of, Event, Line, OutputLevel, ResultLoop, Style,
    Submission, Transport,
};
pub use plugin::{
    PluginNode, PluginTree, RunInRbxPlugin, BOOTSTRAP_CLASS, BOOTSTRAP_NAME, LISTEN_PORT,
    MAIN_CLASS, MAIN_NAME, PLUGIN_FILE_NAME, PLUGIN_TEMPLATE,
};
pub use session::{new_session_id, session_id_from};
pub use text::{decimal_string, hex_string, replace_all, same_text, split_first_line};
pub use workspace::{check_plugins_dir, check_studio_app, file_extension, temp_place_name};
