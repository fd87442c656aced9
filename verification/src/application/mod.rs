pub mod application;
pub mod builder;
pub mod ip_address;

pub use application::Application;
pub use builder::ApplicationBuilder;
pub use ip_address::{IpAddress, SocketAddress};
