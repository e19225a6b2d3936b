use vstd::prelude::*;

pub mod commit;
pub mod error;
pub mod json;
pub mod order;
pub mod path;
pub mod report;
pub mod repository;
pub mod save_plan;
pub mod tracked_files;

verus! {

} // verus!

