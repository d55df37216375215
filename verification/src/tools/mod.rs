//! The agent's capabilities: four arithmetic tools and the lookup tool, each
//! advertised to the model through a [`ToolDescriptor`], plus the registry
//! that dispatches a named call to the capability that owns it.

use vstd::prelude::*;

pub mod add;
pub mod divide;
pub mod lookup;
pub mod multiply;
pub mod registry;
pub mod subtract;

pub use add::Add;
pub use divide::Divide;
pub use lookup::Lookup;
pub use multiply::Multiply;
pub use registry::ToolRegistry;
pub use subtract::Subtract;

use crate::num::Num;

verus! {

/// One field of a tool's parameter object: its name, its wire type and a
/// short description for the model's function-calling grammar.
pub struct ParamSpec {
    pub name: String,
    pub kind: String,
    pub description: String,
}

/// What the registry advertises for one tool: a unique name, a natural
/// language description and the parameter schema.
pub struct ToolDescriptor {
    pub name: String,
    pub description: String,
    pub parameters: Vec<ParamSpec>,
}

/// The argument payload of every arithmetic tool: exactly two numbers.
#[derive(Clone, Copy, Debug, PartialEq, Eq, Structural)]
pub struct OperationArgs {
    pub x: Num,
    pub y: Num,
}

/// Domain error of the arithmetic tools: a divisor of zero or a result
/// beyond the representable two-decimal range.
#[derive(Clone, Copy, Debug, PartialEq, Eq, Structural)]
pub struct MathError;

/// Construction failure at startup: the corpus and its embeddings cannot
/// form a semantic index.
#[derive(Clone, Copy, Debug, PartialEq, Eq, Structural)]
pub struct InitError;

} // verus!
