use vstd::prelude::*;

pub mod entry;
pub mod json;
pub mod operation_ser;
pub mod release;
pub mod render;
pub mod text;

verus! {

} // verus!
