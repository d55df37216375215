//! The lookup tool: the semantic index exposed as a callable capability.
//!
//! The model calls it with a query text; the embedding provider turns that
//! text into a query vector, and the tool returns the single best match's
//! payload. An empty index yields a [`LookupError`] (no match), which is
//! distinct from the initialization error an incoherent corpus raises when
//! the index is built.

use vstd::prelude::*;

use super::{ParamSpec, ToolDescriptor};
use crate::utils::index::{
    hit_ok, is_best_match, EmbeddedDocument, SearchHit, SemanticIndex,
};

verus! {

/// The lookup tool's argument payload: the query text.
pub struct Args {
    pub lookup: String,
}

/// Retrieval failure: the index holds no document to match against.
#[derive(Clone, Copy, Debug, PartialEq, Eq, Structural)]
pub struct LookupError;

/// Looks up real and fictional concepts in the semantic index.
pub struct Lookup {
    pub index: SemanticIndex,
}

/// Exactly what the lookup tool advertises.
pub open spec fn is_lookup_descriptor(d: ToolDescriptor) -> bool {
    &&& d.name@ == "lookup"@
    &&& d.description@
        == "Looks up real and fictional concepts and returns the result, which may contain it's definition and possibly other information related to it."@
    &&& d.parameters@.len() == 1
    &&& d.parameters@[0].name@ == "lookup"@
    &&& d.parameters@[0].kind@ == "string"@
    &&& d.parameters@[0].description@ == "The query to lookup"@
}

impl Lookup {
    /// Wraps a built semantic index as a tool.
    pub fn new(index: SemanticIndex) -> (r: Lookup)
        ensures
            r.index == index,
    {
        Lookup { index }
    }

    /// The single best match for the query vector: the top of `top_n` with
    /// `n` of one. Fails exactly when the index is empty.
    pub fn search(&self, query_vector: &Vec<i64>) -> (r: Result<SearchHit, LookupError>)
        requires
            self.index.wf(),
            self.index.query_ok(query_vector@),
        ensures
            r is Ok <==> self.index.docs@.len() > 0,
            r matches Ok(h) ==> hit_ok(self.index, query_vector@, h) && is_best_match(
                self.index,
                query_vector@,
                h.doc_index as int,
            ),
    {
        let mut hits = self.index.top_n(query_vector, 1);
        let ghost all = hits@;
        if hits.len() == 0 {
            Err(LookupError)
        } else {
            match hits.pop() {
                Some(h) => {
                    proof {
                        assert(all[0] == h);
                        assert forall|j: int|
                            0 <= j < self.index.docs@.len() && j != h.doc_index as int implies
                            self.index.ranks_before(query_vector@, h.doc_index as int, j) by {
                            assert(!crate::utils::index::appears(all, j));
                        }
                    }
                    Ok(h)
                },
                None => Err(LookupError),
            }
        }
    }

    /// The descriptor advertised to the model.
    pub fn definition(&self) -> (d: ToolDescriptor)
        ensures
            is_lookup_descriptor(d),
    {
        let mut parameters: Vec<ParamSpec> = Vec::new();
        parameters.push(
            ParamSpec {
                name: "lookup".to_owned(),
                kind: "string".to_owned(),
                description: "The query to lookup".to_owned(),
            },
        );
        ToolDescriptor {
            name: "lookup".to_owned(),
            description: "Looks up real and fictional concepts and returns the result, which may contain it's definition and possibly other information related to it.".to_owned(),
            parameters,
        }
    }

    /// Returns the best match's payload for the query carried in `_args`,
    /// whose embedding the provider has already produced as `query_vector`.
    pub fn call(&self, _args: &Args, query_vector: &Vec<i64>) -> (r: Result<
        EmbeddedDocument,
        LookupError,
    >)
        requires
            self.index.wf(),
            self.index.query_ok(query_vector@),
        ensures
            r is Ok <==> self.index.docs@.len() > 0,
            r matches Ok(d) ==> exists|i: int|
                {
                    &&& #[trigger] is_best_match(self.index, query_vector@, i)
                    &&& d.deep_view() == self.index.docs@[i].deep_view()
                },
    {
        match self.search(query_vector) {
            Ok(h) => {
                proof {
                    assert(is_best_match(self.index, query_vector@, h.doc_index as int));
                }
                Ok(h.doc)
            },
            Err(e) => Err(e),
        }
    }
}

} // verus!
