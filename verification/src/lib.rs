//! Reading AWS configuration and credentials files, and resolving the
//! profile and region a user selects from them.

pub mod cmdline;
pub mod config;
pub mod credential;
pub mod error;
pub mod file;
pub mod line;
pub mod selector;
pub mod string_map;
pub mod text;
