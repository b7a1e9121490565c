pub mod command;
pub mod description;
pub mod document;
pub mod filling;
pub mod launch;
pub mod resolve;
pub mod settings;
pub mod text;
