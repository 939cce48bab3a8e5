use library::model::document_glyph;
use library::model::DocumentType;
use library::model::GlyphKind;
use library::model::Model;

#[test]
fn traversal_is_depth_first_in_insertion_order() {
    let mut m = Model::new();
    let a = m.add_document(
        "A".to_string(),
        DocumentType::Other("Folder".to_string()),
        "a".to_string(),
        None,
    );
    let b = m.add_document(
        "B".to_string(),
        DocumentType::Text,
        "b.txt".to_string(),
        Some(a),
    );
    let c = m.add_document(
        "C".to_string(),
        DocumentType::PDF,
        "c.pdf".to_string(),
        None,
    );
    let d = m.add_document(
        "D".to_string(),
        DocumentType::Image,
        "d.png".to_string(),
        Some(b),
    );
    let e = m.add_document(
        "E".to_string(),
        DocumentType::URL,
        "https://example.org/e".to_string(),
        Some(a),
    );
    // A's subtree first (B before E, B's child D right after B), then C.
    assert_eq!(
        m.traverse(),
        vec![(a, 0), (b, 1), (d, 2), (e, 1), (c, 0)]
    );
}

#[test]
fn traversal_of_empty_model_is_empty() {
    let m = Model::new();
    assert!(m.traverse().is_empty());
}

#[test]
fn traversal_of_roots_only_is_flat() {
    let mut m = Model::new();
    for k in 0..3usize {
        m.add_document(
            format!("doc-{}", k),
            DocumentType::Text,
            format!("doc-{}.txt", k),
            None,
        );
    }
    assert_eq!(m.traverse(), vec![(0, 0), (1, 0), (2, 0)]);
}

#[test]
fn glyph_classes_by_type_tag() {
    assert_eq!(document_glyph(&DocumentType::PDF), GlyphKind::Pdf);
    assert_eq!(document_glyph(&DocumentType::URL), GlyphKind::Web);
    assert_eq!(document_glyph(&DocumentType::Text), GlyphKind::Note);
    assert_eq!(document_glyph(&DocumentType::Image), GlyphKind::Picture);
    assert_eq!(
        document_glyph(&DocumentType::Other("Folder".to_string())),
        GlyphKind::Folder
    );
    assert_eq!(
        document_glyph(&DocumentType::Other("Archive".to_string())),
        GlyphKind::Generic
    );
    assert_eq!(
        document_glyph(&DocumentType::Other("folder".to_string())),
        GlyphKind::Generic
    );
}
