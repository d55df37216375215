//! The assembly half of the embedding ingestion pipeline.
//!
//! The embedding provider accepts strictly one document per request, so
//! the driver collects one vector per corpus entry, in order. This module
//! pairs every entry back up with its vector and enforces the pipeline's
//! count check: a run that produced fewer or more vectors than entries
//! cannot form an index and is an initialization error.

use vstd::prelude::*;

use super::index::EmbeddedDocument;
use crate::tools::InitError;

verus! {

/// One corpus entry before embedding: an identifier, a human label, and
/// the ordered source text entries.
pub struct CorpusEntry {
    pub id: String,
    pub label: String,
    pub entries: Vec<String>,
}

/// The mathematical content of a corpus entry.
pub struct CorpusEntryView {
    pub id: Seq<char>,
    pub label: Seq<char>,
    pub entries: Seq<Seq<char>>,
}

impl DeepView for CorpusEntry {
    type V = CorpusEntryView;

    open spec fn deep_view(&self) -> CorpusEntryView {
        CorpusEntryView { id: self.id@, label: self.label@, entries: self.entries.deep_view() }
    }
}

/// Pairs each corpus entry with the embedding vector the provider returned
/// for it, in order. Fails exactly when the counts disagree.
pub fn attach_embeddings(entries: Vec<CorpusEntry>, vectors: Vec<Vec<i64>>) -> (r: Result<
    Vec<EmbeddedDocument>,
    InitError,
>)
    ensures
        r is Ok <==> entries@.len() == vectors@.len(),
        r matches Ok(docs) ==> {
            &&& docs@.len() == entries@.len()
            &&& forall|i: int|
                0 <= i < docs@.len() ==> {
                    &&& (#[trigger] docs@[i]).deep_view().id == entries@[i].deep_view().id
                    &&& docs@[i].deep_view().label == entries@[i].deep_view().label
                    &&& docs@[i].deep_view().entries == entries@[i].deep_view().entries
                    &&& docs@[i].deep_view().vector == vectors@[i]@
                }
        },
{
    if entries.len() != vectors.len() {
        return Err(InitError);
    }
    let ghost e0 = entries@;
    let ghost v0 = vectors@;
    let n = entries.len();
    let mut entries = entries;
    let mut vectors = vectors;
    let mut docs: Vec<EmbeddedDocument> = Vec::new();
    let mut i: usize = 0;
    while i < n
        invariant
            i <= n,
            n == e0.len(),
            i + entries@.len() == e0.len(),
            entries@ =~= e0.skip(i as int),
            vectors@ =~= v0.skip(i as int),
            e0.len() == v0.len(),
            docs@.len() == i,
            forall|k: int|
                0 <= k < i ==> {
                    &&& (#[trigger] docs@[k]).deep_view().id == e0[k].deep_view().id
                    &&& docs@[k].deep_view().label == e0[k].deep_view().label
                    &&& docs@[k].deep_view().entries == e0[k].deep_view().entries
                    &&& docs@[k].deep_view().vector == v0[k]@
                },
        decreases entries@.len(),
    {
        let e = entries.remove(0);
        let v = vectors.remove(0);
        proof {
            assert(e == e0[i as int]);
            assert(v == v0[i as int]);
            assert(entries@ =~= e0.skip(i as int + 1));
            assert(vectors@ =~= v0.skip(i as int + 1));
        }
        docs.push(EmbeddedDocument { id: e.id, label: e.label, entries: e.entries, vector: v });
        i += 1;
    }
    Ok(docs)
}

} // verus!
