//! Packs a directory into an archive, signs and verifies archive bytes, and
//! decides how the arguments of a run are shared out.
pub mod args;
pub mod cli;
pub mod extract;
pub mod launcher;
pub mod patterns;
pub mod signature;
pub mod text;

pub use cli::{Cli, Commands};
pub use launcher::{
    check_and_enable_long_path_support, get_pytron_home, get_uv_download_url, get_uv_path, UV_VERSION,
};
