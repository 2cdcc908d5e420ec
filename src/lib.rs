//! Marshalling between a scripting engine's tagged values and native Rust
//! values: decoding foreign cells, strings and hash tables held in a byte
//! buffer, casting the result to declared parameter types, and building new
//! foreign values.
use vstd::prelude::*;

pub mod array;
pub mod call;
pub mod cast;
pub mod convert;
pub mod error;
pub mod memory;
pub mod module;
pub mod registry;
pub mod string;
pub mod value;
pub mod zval;

pub use crate::error::{ArgError, CastError};
pub use crate::value::{ArrayKey, PhpVal};

verus! {

} // verus!
