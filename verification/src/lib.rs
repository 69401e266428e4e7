pub mod model;
pub mod parser;
pub mod client;
pub mod scrape;

pub use client::IfitError;
pub use client::Pagination;
pub use parser::ParseError;
pub use parser::WorkoutSummary;
pub use parser::parse_workout_summaries;
