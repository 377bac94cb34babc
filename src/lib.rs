//! Comment overlay for a text editor: comment ranges attached to line spans
//! of a file, the queries over them, and the commands that keep the editor's
//! line markers in step with them.

pub mod range;
pub mod store;
pub mod highlight;
pub mod dispatch;
