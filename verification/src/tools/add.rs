//! The addition tool.

use vstd::prelude::*;

use super::{MathError, OperationArgs, ParamSpec, ToolDescriptor};
use crate::num::{fits_i64, round2, Num};

verus! {

/// Adds two numbers and normalizes the sum to two decimal places.
pub struct Add;

/// Exactly what the addition tool advertises.
pub open spec fn is_add_descriptor(d: ToolDescriptor) -> bool {
    &&& d.name@ == "add"@
    &&& d.description@ == "Add x and y together"@
    &&& d.parameters@.len() == 2
    &&& d.parameters@[0].name@ == "x"@
    &&& d.parameters@[0].kind@ == "number"@
    &&& d.parameters@[0].description@ == "The first number to add"@
    &&& d.parameters@[1].name@ == "y"@
    &&& d.parameters@[1].kind@ == "number"@
    &&& d.parameters@[1].description@ == "The second number to add"@
}

impl Add {
    /// The descriptor advertised to the model.
    pub fn definition(&self) -> (d: ToolDescriptor)
        ensures
            is_add_descriptor(d),
    {
        let mut parameters: Vec<ParamSpec> = Vec::new();
        parameters.push(
            ParamSpec {
                name: "x".to_owned(),
                kind: "number".to_owned(),
                description: "The first number to add".to_owned(),
            },
        );
        parameters.push(
            ParamSpec {
                name: "y".to_owned(),
                kind: "number".to_owned(),
                description: "The second number to add".to_owned(),
            },
        );
        ToolDescriptor {
            name: "add".to_owned(),
            description: "Add x and y together".to_owned(),
            parameters,
        }
    }

    /// `x + y`, exact, normalized to two decimal places; a sum beyond the
    /// representable range is a math error.
    pub fn call(&self, args: OperationArgs) -> (r: Result<Num, MathError>)
        ensures
            r is Ok <==> fits_i64(args.x@ + args.y@),
            r matches Ok(v) ==> v@ == round2(args.x@ + args.y@, 100),
    {
        match args.x.add(args.y) {
            Some(v) => Ok(v),
            None => Err(MathError),
        }
    }
}

} // verus!
