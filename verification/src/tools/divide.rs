//! The division tool.

use vstd::prelude::*;

use super::{MathError, OperationArgs, ParamSpec, ToolDescriptor};
use crate::num::{fits_i64, round2, Num};

verus! {

/// Divides the first number by the second and rounds the quotient to two
/// decimal places, ties away from zero.
///
/// Division by zero is always a [`MathError`]: the policy is a domain error,
/// never a propagated non-finite value, and it holds on every call.
pub struct Divide;

/// Exactly what the division tool advertises.
pub open spec fn is_divide_descriptor(d: ToolDescriptor) -> bool {
    &&& d.name@ == "divide"@
    &&& d.description@ == "Compute the Quotient of x and y (i.e.: x / y). Useful for ratios."@
    &&& d.parameters@.len() == 2
    &&& d.parameters@[0].name@ == "x"@
    &&& d.parameters@[0].kind@ == "number"@
    &&& d.parameters@[0].description@ == "The Dividend of the division. The number being divided"@
    &&& d.parameters@[1].name@ == "y"@
    &&& d.parameters@[1].kind@ == "number"@
    &&& d.parameters@[1].description@
        == "The Divisor of the division. The number by which the dividend is being divided"@
}

impl Divide {
    /// The descriptor advertised to the model.
    pub fn definition(&self) -> (d: ToolDescriptor)
        ensures
            is_divide_descriptor(d),
    {
        let mut parameters: Vec<ParamSpec> = Vec::new();
        parameters.push(
            ParamSpec {
                name: "x".to_owned(),
                kind: "number".to_owned(),
                description: "The Dividend of the division. The number being divided".to_owned(),
            },
        );
        parameters.push(
            ParamSpec {
                name: "y".to_owned(),
                kind: "number".to_owned(),
                description: "The Divisor of the division. The number by which the dividend is being divided".to_owned(),
            },
        );
        ToolDescriptor {
            name: "divide".to_owned(),
            description: "Compute the Quotient of x and y (i.e.: x / y). Useful for ratios.".to_owned(),
            parameters,
        }
    }

    /// `x / y`, rounded to two decimal places, ties away from zero. The
    /// call fails exactly when the divisor is zero or the rounded quotient
    /// is beyond the representable range, so a divisor of zero yields the
    /// same math error on every call.
    pub fn call(&self, args: OperationArgs) -> (r: Result<Num, MathError>)
        ensures
            r is Ok <==> args.y@ != 0 && fits_i64(round2(args.x@, args.y@)),
            r matches Ok(v) ==> v@ == round2(args.x@, args.y@),
            args.y@ == 0 ==> r matches Err(MathError),
    {
        match args.x.div(args.y) {
            Some(v) => Ok(v),
            None => Err(MathError),
        }
    }
}

} // verus!
