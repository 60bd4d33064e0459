pub mod functions;
pub mod host;
