pub mod client;
pub mod clob;
pub mod gamma;
