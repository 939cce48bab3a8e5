use library::model::DocumentType;
use library::model::Model;

#[test]
fn root_insertions_in_order() {
    let mut m = Model::new();
    let n = 5usize;
    for k in 0..n {
        let id = m.add_document(
            format!("doc-{}", k),
            DocumentType::Text,
            format!("doc-{}.txt", k),
            None,
        );
        assert_eq!(id, k);
    }
    assert_eq!(m.root_documents, vec![0, 1, 2, 3, 4]);
    assert_eq!(m.next_id, n);
}

#[test]
fn child_insertion_goes_only_under_parent() {
    let mut m = Model::new();
    let parent = m.add_document(
        "Parent".to_string(),
        DocumentType::Other("Folder".to_string()),
        "parent".to_string(),
        None,
    );
    let child = m.add_document(
        "Child".to_string(),
        DocumentType::PDF,
        "child.pdf".to_string(),
        Some(parent),
    );
    let parent_doc = m.get_document(parent).expect("parent exists");
    assert_eq!(parent_doc.children, vec![child]);
    assert!(!m.root_documents.contains(&child));
    assert_eq!(m.root_documents, vec![parent]);
}

#[test]
fn unresolved_parent_becomes_root() {
    let mut m = Model::new();
    let id = m.add_document(
        "Orphan".to_string(),
        DocumentType::URL,
        "https://example.org".to_string(),
        Some(42),
    );
    assert_eq!(id, 0);
    assert_eq!(m.root_documents, vec![0]);
}

#[test]
fn lookup_finds_every_issued_id() {
    let mut m = Model::new();
    let a = m.add_document(
        "A".to_string(),
        DocumentType::PDF,
        "a.pdf".to_string(),
        None,
    );
    let b = m.add_document(
        "B".to_string(),
        DocumentType::Image,
        "b.png".to_string(),
        Some(a),
    );
    let doc_a = m.get_document(a).expect("a exists");
    assert_eq!(doc_a.name, "A");
    assert_eq!(doc_a.path, "a.pdf");
    assert_eq!(doc_a.doc_type, DocumentType::PDF);
    let doc_b = m.get_document(b).expect("b exists");
    assert_eq!(doc_b.name, "B");
    assert_eq!(doc_b.id, b);
}

#[test]
fn lookup_of_never_issued_id_is_absent() {
    let m = Model::new();
    assert!(m.get_document(9999).is_none());
}

#[test]
fn select_existing_then_query_returns_it() {
    let mut m = Model::new();
    let id = m.add_document(
        "Note".to_string(),
        DocumentType::Text,
        "note.txt".to_string(),
        None,
    );
    m.set_selected_document(Some(id));
    let sel = m.selected_document().expect("selection resolves");
    assert_eq!(sel.id, id);
    assert_eq!(sel.name, "Note");
}

#[test]
fn select_missing_then_query_is_absent() {
    let mut m = Model::new();
    m.add_document(
        "Only".to_string(),
        DocumentType::Text,
        "only.txt".to_string(),
        None,
    );
    m.set_selected_document(Some(777));
    assert!(m.selected_document().is_none());
}

#[test]
fn select_none_then_query_is_absent() {
    let mut m = Model::new();
    m.add_document(
        "Only".to_string(),
        DocumentType::Text,
        "only.txt".to_string(),
        None,
    );
    m.set_selected_document(Some(0));
    m.set_selected_document(None);
    assert!(m.selected_document().is_none());
}

#[test]
fn three_documents_scenario() {
    let mut m = Model::new();
    let a = m.add_document(
        "A".to_string(),
        DocumentType::PDF,
        "a.pdf".to_string(),
        None,
    );
    assert_eq!(a, 0);
    let b = m.add_document(
        "B".to_string(),
        DocumentType::Text,
        "b.txt".to_string(),
        Some(0),
    );
    assert_eq!(b, 1);
    let doc_a = m.get_document(0).expect("a exists");
    assert_eq!(doc_a.children, vec![1]);
    assert!(!m.root_documents.contains(&1));
    let c = m.add_document(
        "C".to_string(),
        DocumentType::URL,
        "https://example.org/c".to_string(),
        None,
    );
    assert_eq!(c, 2);
    assert_eq!(m.root_documents, vec![0, 2]);
    m.set_selected_document(Some(1));
    let sel = m.selected_document().expect("selection resolves");
    assert_eq!(sel.name, "B");
}
