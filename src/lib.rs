//! Turns a Markdown document into a self-contained HTML slide deck, and holds
//! the state that a live preview server keeps about its push connections.
pub mod assets;
pub mod error;
pub mod html;
pub mod markdown;
pub mod registry;
pub mod server;
pub mod syntax;
