pub mod market;
pub mod price;
