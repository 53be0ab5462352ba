pub mod credentials;
pub mod sandbox;
