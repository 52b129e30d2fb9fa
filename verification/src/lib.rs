use vstd::prelude::*;

pub mod text;
pub mod settings;
pub mod handlers;
pub mod servers;
pub mod logger;
pub mod console;
pub mod ssltls;
pub mod arguments;
pub mod startup;

verus! {

} // verus!
