use vstd::prelude::*;

pub mod desktop_lifecycle;
pub mod json;
pub mod text;
pub mod tools;

verus! {
} // verus!
