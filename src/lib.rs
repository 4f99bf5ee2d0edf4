//! Building blocks of a small static-site generator: an HTML document tree,
//! the naming rules of the stylesheet stage, and the decisions of the
//! filesystem watcher.
pub mod model;
pub mod sass;
pub mod watch;
