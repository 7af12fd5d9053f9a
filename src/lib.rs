//! A declarative UI reconciliation core: virtual trees, a diff engine that
//! computes the native-tree patch between two renders, nested components
//! rendered in place, a runtime that batches messages into a single render
//! pass, and a todo-list component built on them.

pub mod vnode;
pub mod diff;
pub mod laws;
pub mod todo;
pub mod radio;
pub mod runtime;
pub mod compose;
