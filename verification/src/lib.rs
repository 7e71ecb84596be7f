pub mod text;
pub mod split;
pub mod unicode;
pub mod config;
pub mod order;
pub mod history;
pub mod hardware;
pub mod launch;
pub mod cli;
pub mod run;
pub mod profile;
pub mod tui;
