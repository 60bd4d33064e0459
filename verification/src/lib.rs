pub mod chance;
pub mod client;
pub mod game;
pub mod laws;
pub mod model;
pub mod server;
pub mod text;
