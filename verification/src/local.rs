//! The state of a local review session: the refs reviewed, the comments
//! and the files marked as viewed.
pub mod assets;
pub mod handlers;
pub mod highlighting;
pub mod refspec;
pub mod state;

pub use refspec::RefSpec;
pub use state::{AppState, CommentsFile};
