use vstd::prelude::*;

pub mod editor;
pub mod format;
pub mod frame;
pub mod list;
pub mod screen;
pub mod session;

pub use list::TodoList;

verus! {

} // verus!
