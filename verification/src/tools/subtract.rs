//! The subtraction tool.

use vstd::prelude::*;

use super::{MathError, OperationArgs, ParamSpec, ToolDescriptor};
use crate::num::{fits_i64, round2, Num};

verus! {

/// Subtracts the second number from the first and normalizes the difference
/// to two decimal places.
pub struct Subtract;

/// Exactly what the subtraction tool advertises.
pub open spec fn is_subtract_descriptor(d: ToolDescriptor) -> bool {
    &&& d.name@ == "subtract"@
    &&& d.description@ == "Subtract y from x (i.e.: x - y)"@
    &&& d.parameters@.len() == 2
    &&& d.parameters@[0].name@ == "x"@
    &&& d.parameters@[0].kind@ == "number"@
    &&& d.parameters@[0].description@ == "The number to subtract from"@
    &&& d.parameters@[1].name@ == "y"@
    &&& d.parameters@[1].kind@ == "number"@
    &&& d.parameters@[1].description@ == "The number to subtract"@
}

impl Subtract {
    /// The descriptor advertised to the model.
    pub fn definition(&self) -> (d: ToolDescriptor)
        ensures
            is_subtract_descriptor(d),
    {
        let mut parameters: Vec<ParamSpec> = Vec::new();
        parameters.push(
            ParamSpec {
                name: "x".to_owned(),
                kind: "number".to_owned(),
                description: "The number to subtract from".to_owned(),
            },
        );
        parameters.push(
            ParamSpec {
                name: "y".to_owned(),
                kind: "number".to_owned(),
                description: "The number to subtract".to_owned(),
            },
        );
        ToolDescriptor {
            name: "subtract".to_owned(),
            description: "Subtract y from x (i.e.: x - y)".to_owned(),
            parameters,
        }
    }

    /// `x - y`, exact, normalized to two decimal places; a difference beyond
    /// the representable range is a math error.
    pub fn call(&self, args: OperationArgs) -> (r: Result<Num, MathError>)
        ensures
            r is Ok <==> fits_i64(args.x@ - args.y@),
            r matches Ok(v) ==> v@ == round2(args.x@ - args.y@, 100),
    {
        match args.x.sub(args.y) {
            Some(v) => Ok(v),
            None => Err(MathError),
        }
    }
}

} // verus!
