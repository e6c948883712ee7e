pub mod text;
pub mod time;
