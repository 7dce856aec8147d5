use vstd::prelude::*;

pub mod content;
pub mod entry;
pub mod ident;
pub mod index;
pub mod quota;
pub mod request;
pub mod storage;

verus! {

} // verus!
