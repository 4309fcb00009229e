use vstd::prelude::*;

pub mod search;
pub mod queue;
pub mod linked_list;
pub mod allocator;
pub mod arch;
pub mod driver;
pub mod window;
pub mod util;

verus! {

} // verus!
