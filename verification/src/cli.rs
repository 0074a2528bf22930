//! The commands of the program, as far as they decide and compute: which
//! review, pull request, refs and session to use, and the text to print.
pub mod issue;
pub mod query;
pub mod review;
pub mod review_format;
pub mod review_local;
