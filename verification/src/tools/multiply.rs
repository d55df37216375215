//! The multiplication tool.

use vstd::prelude::*;

use super::{MathError, OperationArgs, ParamSpec, ToolDescriptor};
use crate::num::{fits_i64, round2, Num};

verus! {

/// Multiplies two numbers and rounds the product to two decimal places,
/// ties away from zero.
pub struct Multiply;

/// Exactly what the multiplication tool advertises.
pub open spec fn is_multiply_descriptor(d: ToolDescriptor) -> bool {
    &&& d.name@ == "multiply"@
    &&& d.description@ == "Compute the product of x and y (i.e.: x * y)"@
    &&& d.parameters@.len() == 2
    &&& d.parameters@[0].name@ == "x"@
    &&& d.parameters@[0].kind@ == "number"@
    &&& d.parameters@[0].description@ == "The first factor in the product"@
    &&& d.parameters@[1].name@ == "y"@
    &&& d.parameters@[1].kind@ == "number"@
    &&& d.parameters@[1].description@ == "The second factor in the product"@
}

impl Multiply {
    /// The descriptor advertised to the model.
    pub fn definition(&self) -> (d: ToolDescriptor)
        ensures
            is_multiply_descriptor(d),
    {
        let mut parameters: Vec<ParamSpec> = Vec::new();
        parameters.push(
            ParamSpec {
                name: "x".to_owned(),
                kind: "number".to_owned(),
                description: "The first factor in the product".to_owned(),
            },
        );
        parameters.push(
            ParamSpec {
                name: "y".to_owned(),
                kind: "number".to_owned(),
                description: "The second factor in the product".to_owned(),
            },
        );
        ToolDescriptor {
            name: "multiply".to_owned(),
            description: "Compute the product of x and y (i.e.: x * y)".to_owned(),
            parameters,
        }
    }

    /// `x * y`, rounded to two decimal places, ties away from zero; a
    /// product beyond the representable range is a math error.
    pub fn call(&self, args: OperationArgs) -> (r: Result<Num, MathError>)
        ensures
            r is Ok <==> fits_i64(round2(args.x@ * args.y@, 10000)),
            r matches Ok(v) ==> v@ == round2(args.x@ * args.y@, 10000),
    {
        match args.x.mul(args.y) {
            Some(v) => Ok(v),
            None => Err(MathError),
        }
    }
}

} // verus!
