pub mod api;
pub mod assets;
pub mod config;
pub mod dispatch;
pub mod forward;
pub mod laws;
pub mod logfile;
pub mod matcher;
pub mod number;
pub mod rules;
pub mod session;
pub mod substitute;
pub mod table;
pub mod template;
pub mod text;
pub mod token;
