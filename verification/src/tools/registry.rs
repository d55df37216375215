//! The tool registry: an immutable, name-keyed mapping from tool name to
//! capability, built once at startup. Dispatch on an unregistered name is
//! an [`ToolError::UnknownTool`] error; a payload of the wrong shape for
//! the named tool is a domain error.

use vstd::prelude::*;

use super::add::{is_add_descriptor, Add};
use super::divide::{is_divide_descriptor, Divide};
use super::lookup::{is_lookup_descriptor, Args, Lookup, LookupError};
use super::multiply::{is_multiply_descriptor, Multiply};
use super::subtract::{is_subtract_descriptor, Subtract};
use super::{MathError, OperationArgs, ToolDescriptor};
use crate::num::{fits_i64, round2, Num};
use crate::utils::index::{is_best_match, DocView, EmbeddedDocument};

verus! {

/// The parsed argument payload handed to a dispatch: two numbers for the
/// arithmetic tools, or the lookup text together with the query vector the
/// embedding provider produced for it.
pub enum ToolArgs {
    Operation(OperationArgs),
    Query(Args, Vec<i64>),
}

/// What a successful tool run produces.
pub enum ToolOutput {
    Number(Num),
    Document(EmbeddedDocument),
}

/// The mathematical content of a tool output.
pub enum ToolOutputView {
    Number(int),
    Document(DocView),
}

impl DeepView for ToolOutput {
    type V = ToolOutputView;

    open spec fn deep_view(&self) -> ToolOutputView {
        match self {
            ToolOutput::Number(n) => ToolOutputView::Number(n@),
            ToolOutput::Document(d) => ToolOutputView::Document(d.deep_view()),
        }
    }
}

impl Clone for ToolOutput {
    /// The copy carries exactly the same content.
    fn clone(&self) -> (res: Self)
        ensures
            res.deep_view() == self.deep_view(),
    {
        match self {
            ToolOutput::Number(n) => ToolOutput::Number(*n),
            ToolOutput::Document(d) => ToolOutput::Document(d.clone()),
        }
    }
}

/// Why a dispatch failed.
#[derive(Clone, Copy, Debug, PartialEq, Eq, Structural)]
pub enum ToolError {
    UnknownTool,
    Math(MathError),
    Lookup(LookupError),
}

/// The names the registry dispatches on.
pub open spec fn known_tool(name: Seq<char>) -> bool {
    ||| name == "add"@
    ||| name == "subtract"@
    ||| name == "multiply"@
    ||| name == "divide"@
    ||| name == "lookup"@
}

/// Whether an exec tool name equals a fixed name.
fn name_is(name: &String, fixed: &str) -> (r: bool)
    ensures
        r == (name@ == fixed@),
{
    let s: String = fixed.to_owned();
    *name == s
}

/// The fixed set of capabilities, registered once at startup.
pub struct ToolRegistry {
    pub add: Add,
    pub subtract: Subtract,
    pub multiply: Multiply,
    pub divide: Divide,
    pub lookup: Lookup,
}

impl ToolRegistry {
    /// Registers the four arithmetic tools and the given lookup tool.
    pub fn new(lookup: Lookup) -> (r: ToolRegistry)
        ensures
            r.lookup == lookup,
    {
        ToolRegistry { add: Add, subtract: Subtract, multiply: Multiply, divide: Divide, lookup }
    }

    /// The descriptors advertised to the model, in registration order.
    pub fn definitions(&self) -> (ds: Vec<ToolDescriptor>)
        ensures
            ds@.len() == 5,
            is_add_descriptor(ds@[0]),
            is_subtract_descriptor(ds@[1]),
            is_multiply_descriptor(ds@[2]),
            is_divide_descriptor(ds@[3]),
            is_lookup_descriptor(ds@[4]),
    {
        let mut ds: Vec<ToolDescriptor> = Vec::new();
        ds.push(self.add.definition());
        ds.push(self.subtract.definition());
        ds.push(self.multiply.definition());
        ds.push(self.divide.definition());
        ds.push(self.lookup.definition());
        ds
    }

    /// Runs the named tool on the parsed payload. Fails with
    /// `UnknownTool` exactly on unregistered names; an arithmetic tool
    /// given a non-operation payload, or the lookup tool given a
    /// non-query payload, fails with a domain error.
    pub fn dispatch(&self, name: &String, args: &ToolArgs) -> (r: Result<ToolOutput, ToolError>)
        requires
            self.lookup.index.wf(),
            args matches ToolArgs::Query(_, e) ==> self.lookup.index.query_ok(e@),
        ensures
            r matches Err(ToolError::UnknownTool) <==> !known_tool(name@),
            name@ == "add"@ ==> (args matches ToolArgs::Operation(a) ==> {
                &&& (r is Ok <==> fits_i64(a.x@ + a.y@))
                &&& (r matches Ok(o) ==> o matches ToolOutput::Number(v) && v@ == round2(
                    a.x@ + a.y@,
                    100,
                ))
            }),
            name@ == "subtract"@ ==> (args matches ToolArgs::Operation(a) ==> {
                &&& (r is Ok <==> fits_i64(a.x@ - a.y@))
                &&& (r matches Ok(o) ==> o matches ToolOutput::Number(v) && v@ == round2(
                    a.x@ - a.y@,
                    100,
                ))
            }),
            name@ == "multiply"@ ==> (args matches ToolArgs::Operation(a) ==> {
                &&& (r is Ok <==> fits_i64(round2(a.x@ * a.y@, 10000)))
                &&& (r matches Ok(o) ==> o matches ToolOutput::Number(v) && v@ == round2(
                    a.x@ * a.y@,
                    10000,
                ))
            }),
            name@ == "divide"@ ==> (args matches ToolArgs::Operation(a) ==> {
                &&& (r is Ok <==> a.y@ != 0 && fits_i64(round2(a.x@, a.y@)))
                &&& (r matches Ok(o) ==> o matches ToolOutput::Number(v) && v@ == round2(
                    a.x@,
                    a.y@,
                ))
            }),
            name@ == "lookup"@ ==> (args matches ToolArgs::Query(_, e) ==> {
                &&& (r is Ok <==> self.lookup.index.docs@.len() > 0)
                &&& (r matches Ok(o) ==> o matches ToolOutput::Document(d) && exists|i: int|
                    {
                        &&& #[trigger] is_best_match(self.lookup.index, e@, i)
                        &&& d.deep_view() == self.lookup.index.docs@[i].deep_view()
                    })
            }),
            known_tool(name@) && name@ != "lookup"@ ==> (!(args matches ToolArgs::Operation(_))
                ==> r == Result::<ToolOutput, ToolError>::Err(ToolError::Math(MathError))),
            name@ == "lookup"@ ==> (!(args matches ToolArgs::Query(_, _)) ==> r == Result::<
                ToolOutput,
                ToolError,
            >::Err(ToolError::Math(MathError))),
    {
        proof {
            reveal_strlit("add");
            reveal_strlit("subtract");
            reveal_strlit("multiply");
            reveal_strlit("divide");
            reveal_strlit("lookup");
            assert("add"@.len() == 3 && "subtract"@.len() == 8 && "multiply"@.len() == 8
                && "divide"@.len() == 6 && "lookup"@.len() == 6);
            assert("subtract"@[0] == 's' && "multiply"@[0] == 'm' && "divide"@[0] == 'd'
                && "lookup"@[0] == 'l');
            assert("add"@ != "subtract"@);
            assert("add"@ != "multiply"@);
            assert("add"@ != "divide"@);
            assert("add"@ != "lookup"@);
            assert("subtract"@ != "multiply"@);
            assert("subtract"@ != "divide"@);
            assert("subtract"@ != "lookup"@);
            assert("multiply"@ != "divide"@);
            assert("multiply"@ != "lookup"@);
            assert("divide"@ != "lookup"@);
        }
        if name_is(name, "add") {
            match args {
                ToolArgs::Operation(a) => match self.add.call(*a) {
                    Ok(v) => Ok(ToolOutput::Number(v)),
                    Err(e) => Err(ToolError::Math(e)),
                },
                _ => Err(ToolError::Math(MathError)),
            }
        } else if name_is(name, "subtract") {
            match args {
                ToolArgs::Operation(a) => match self.subtract.call(*a) {
                    Ok(v) => Ok(ToolOutput::Number(v)),
                    Err(e) => Err(ToolError::Math(e)),
                },
                _ => Err(ToolError::Math(MathError)),
            }
        } else if name_is(name, "multiply") {
            match args {
                ToolArgs::Operation(a) => match self.multiply.call(*a) {
                    Ok(v) => Ok(ToolOutput::Number(v)),
                    Err(e) => Err(ToolError::Math(e)),
                },
                _ => Err(ToolError::Math(MathError)),
            }
        } else if name_is(name, "divide") {
            match args {
                ToolArgs::Operation(a) => match self.divide.call(*a) {
                    Ok(v) => Ok(ToolOutput::Number(v)),
                    Err(e) => Err(ToolError::Math(e)),
                },
                _ => Err(ToolError::Math(MathError)),
            }
        } else if name_is(name, "lookup") {
            match args {
                ToolArgs::Query(a, e) => match self.lookup.call(a, e) {
                    Ok(d) => Ok(ToolOutput::Document(d)),
                    Err(e2) => Err(ToolError::Lookup(e2)),
                },
                _ => Err(ToolError::Math(MathError)),
            }
        } else {
            Err(ToolError::UnknownTool)
        }
    }
}

} // verus!
