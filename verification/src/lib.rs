pub mod committer;
pub mod dates;
pub mod errors;
