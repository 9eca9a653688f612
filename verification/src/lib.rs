//! Browsing a git repository: its branches, tags, references, remotes,
//! commits and status, the blobs of its store, and listings of one directory
//! of the tree of the current commit or of the staged index.
//!
//! The listings are the part with rules of their own. `index` turns the flat
//! entries of the index into the lines of one directory, `tree` finds a path
//! in a tree as a walk does, and `index_laws` and `tree_laws` state what
//! holds of every listing. `repository` puts them to work on a repository
//! that the backend opens; `backend` holds everything that is taken from the
//! backend on trust.

pub mod backend;
pub mod browse;
pub mod datetime;
pub mod error;
pub mod index;
pub mod index_laws;
pub mod model;
pub mod oid;
pub mod path;
pub mod repository;
pub mod text;
pub mod tree;
pub mod tree_laws;
