//! Review comments, diffs and issues rendered as markdown.
pub mod apply;
pub mod cli;
pub mod client;
pub mod diff;
pub mod executable;
pub mod formatting;
pub mod github;
pub mod language;
pub mod line_diff;
pub mod local;
pub mod number;
pub mod repository;
pub mod review;
pub mod round_trip;
pub mod side_by_side_diff;
pub mod skills;
pub mod text;
