use vstd::prelude::*;

pub mod block;
pub mod compiler;
pub mod lexer;
pub mod value;
pub mod vm;

verus! {

} // verus!
