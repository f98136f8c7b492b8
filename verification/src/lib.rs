pub mod bytes;
pub mod client;
pub mod image;
pub mod utils;
pub mod wayland;
