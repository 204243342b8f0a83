use vstd::prelude::*;

pub mod activity;
pub mod clock;
pub mod digits;
pub mod getinfo;
pub mod memory;
pub mod report;
pub mod strings;
pub mod text;

verus! {
} // verus!
