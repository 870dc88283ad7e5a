use vstd::prelude::*;

pub mod events;
pub mod files;
pub mod message_box;
pub mod textfmt;

verus! {

} // verus!
