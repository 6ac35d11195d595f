//! Parses a table of dotfile link entries and derives the command that
//! creates each link.

pub mod config;
pub mod document;
pub mod link;
pub mod node;

pub use config::{parse_config, Config, ConfigError, Field};
pub use document::load_config;
pub use link::{link_command, link_mode, LinkCommand, LinkMode};
pub use node::{find_entry, Node};
