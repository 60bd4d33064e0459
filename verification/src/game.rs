pub mod init;
pub mod model;
pub mod snake;
