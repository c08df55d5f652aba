//! Where a clone of a repository belongs on disk.
//!
//! A repository reference (a URL, an SCP-like `host:path` shorthand, or a
//! plain path) is normalized into a relative path segment that mirrors the
//! remote's host and path, and that segment is joined below a base directory
//! and a category label.

pub mod text;
pub mod normalizer;
pub mod ssh_ref;
pub mod target;
pub mod url_ref;

pub use normalizer::normalize;
pub use ssh_ref::parse_ssh;
pub use target::{build_target, clone_target, DEFAULT_BASE_PATH};
pub use url_ref::parse_host;
