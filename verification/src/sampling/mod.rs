pub mod adaptive;
pub mod detector;
pub mod planner;
pub mod strategy;
