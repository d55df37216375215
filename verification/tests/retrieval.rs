use calculator_rag::tools::lookup::{Args, Lookup, LookupError};
use calculator_rag::tools::InitError;
use calculator_rag::utils::embed::{attach_embeddings, CorpusEntry};
use calculator_rag::utils::index::{EmbeddedDocument, SemanticIndex, VectorStore};

fn doc(id: &str, label: &str, entries: &[&str], vector: &[i64]) -> EmbeddedDocument {
    EmbeddedDocument {
        id: id.to_string(),
        label: label.to_string(),
        entries: entries.iter().map(|e| e.to_string()).collect(),
        vector: vector.to_vec(),
    }
}

fn stub_corpus() -> Vec<EmbeddedDocument> {
    vec![
        doc("doc0", "flurbo", &["a green alien currency"], &[10, 0, 0]),
        doc("doc1", "glarb-glarb", &["an ancient farming tool"], &[0, 10, 0]),
        doc("doc2", "linglingdong", &["a term for humans"], &[0, 0, 10]),
    ]
}

fn build_index(docs: Vec<EmbeddedDocument>) -> SemanticIndex {
    VectorStore::new(docs, 3).index().expect("coherent corpus")
}

#[test]
fn exact_match_ranks_first_with_maximal_similarity() {
    let index = build_index(stub_corpus());
    // The query is exactly document 1's stub embedding.
    let query = vec![0, 10, 0];
    let hits = index.top_n(&query, 1);
    assert_eq!(hits.len(), 1);
    assert_eq!(hits[0].doc_index, 1);
    assert_eq!(hits[0].label, "glarb-glarb");
    // Maximal cosine: dot^2 == qnorm2 * dnorm2.
    let s = &hits[0].score;
    assert_eq!((s.dot as i128) * (s.dot as i128), (s.qnorm2 as i128) * (s.dnorm2 as i128));
    assert!(s.dot > 0);
}

#[test]
fn identical_vectors_rank_in_insertion_order() {
    let docs = vec![
        doc("doc0", "first", &["one"], &[5, 5, 0]),
        doc("doc1", "second", &["two"], &[5, 5, 0]),
        doc("doc2", "third", &["three"], &[-5, 0, 5]),
    ];
    let index = build_index(docs);
    let query = vec![5, 5, 0];
    let hits = index.top_n(&query, 3);
    assert_eq!(hits.len(), 3);
    assert_eq!(hits[0].label, "first");
    assert_eq!(hits[1].label, "second");
    assert_eq!(hits[2].label, "third");
}

#[test]
fn top_n_is_cut_to_the_corpus_size() {
    let index = build_index(stub_corpus());
    let hits = index.top_n(&vec![1, 2, 3], 10);
    assert_eq!(hits.len(), 3);
}

#[test]
fn scaling_does_not_change_the_ranking() {
    // Cosine similarity ignores magnitude: a doubled document vector must
    // rank exactly as the original.
    let docs = vec![
        doc("doc0", "short", &["short"], &[3, 4, 0]),
        doc("doc1", "long", &["long"], &[6, 8, 0]),
        doc("doc2", "other", &["other"], &[0, 0, 10]),
    ];
    let index = build_index(docs);
    let hits = index.top_n(&vec![3, 4, 0], 2);
    // Both colinear vectors tie at maximal similarity; insertion order breaks it.
    assert_eq!(hits[0].label, "short");
    assert_eq!(hits[1].label, "long");
}

#[test]
fn index_rejects_mismatched_dimensions() {
    let docs = vec![
        doc("doc0", "ok", &["ok"], &[1, 2, 3]),
        doc("doc1", "short", &["short"], &[1, 2]),
    ];
    let r = VectorStore::new(docs, 3).index();
    assert_eq!(r.err(), Some(InitError));
}

#[test]
fn index_rejects_out_of_range_components() {
    let docs = vec![doc("doc0", "big", &["big"], &[0, 20000, 0])];
    let r = VectorStore::new(docs, 3).index();
    assert_eq!(r.err(), Some(InitError));
}

#[test]
fn attach_embeddings_pairs_in_order() {
    let entries = vec![
        CorpusEntry { id: "a".to_string(), label: "first".to_string(), entries: vec!["x".to_string()] },
        CorpusEntry { id: "b".to_string(), label: "second".to_string(), entries: vec!["y".to_string()] },
    ];
    let vectors = vec![vec![1, 0], vec![0, 1]];
    let docs = attach_embeddings(entries, vectors).expect("matching counts");
    assert_eq!(docs.len(), 2);
    assert_eq!(docs[0].id, "a");
    assert_eq!(docs[0].vector, vec![1, 0]);
    assert_eq!(docs[1].label, "second");
    assert_eq!(docs[1].vector, vec![0, 1]);
}

#[test]
fn attach_embeddings_rejects_count_mismatch() {
    let entries = vec![CorpusEntry {
        id: "a".to_string(),
        label: "only".to_string(),
        entries: vec!["x".to_string()],
    }];
    let r = attach_embeddings(entries, vec![]);
    assert_eq!(r.err(), Some(InitError));
}

#[test]
fn lookup_returns_the_best_payload() {
    let index = build_index(stub_corpus());
    let tool = Lookup::new(index);
    let args = Args { lookup: "glarb-glarb".to_string() };
    let payload = tool.call(&args, &vec![0, 10, 0]).expect("non-empty index");
    assert_eq!(payload.id, "doc1");
    assert_eq!(payload.label, "glarb-glarb");
    assert_eq!(payload.entries, vec!["an ancient farming tool".to_string()]);
}

#[test]
fn lookup_on_empty_index_is_no_match() {
    let index = build_index(vec![]);
    let tool = Lookup::new(index);
    let args = Args { lookup: "anything".to_string() };
    let r = tool.call(&args, &vec![0, 0, 0]);
    assert_eq!(r.err(), Some(LookupError));
}

#[test]
fn lookup_definition_advertises_one_string_parameter() {
    let index = build_index(vec![]);
    let tool = Lookup::new(index);
    let d = tool.definition();
    assert_eq!(d.name, "lookup");
    assert_eq!(d.parameters.len(), 1);
    assert_eq!(d.parameters[0].name, "lookup");
    assert_eq!(d.parameters[0].kind, "string");
    assert_eq!(d.parameters[0].description, "The query to lookup");
}
