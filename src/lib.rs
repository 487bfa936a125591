use vstd::prelude::*;

pub mod selection;
pub mod trend;
pub mod metrics;
pub mod text;
pub mod process_object;
pub mod proc_table_component;
pub mod app;
pub mod history;
pub mod events;

verus! {

} // verus!
