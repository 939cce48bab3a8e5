//! The document tree model: documents are kept in a flat vector indexed
//! by their id, parents reference children by id, and a root list holds
//! the ids shown at the top level.

use vstd::prelude::*;

verus! {

/// Classification tag for a document; `Other` carries a free-form label.
#[derive(Debug, Clone, PartialEq, Eq)]
pub enum DocumentType {
    PDF,
    URL,
    Text,
    Image,
    Other(String),
}

/// One entry of the library: a display name, a type tag, an unvalidated
/// resource locator, and the ids of its children in insertion order.
#[derive(Debug, Clone)]
pub struct Document {
    pub id: usize,
    pub name: String,
    pub doc_type: DocumentType,
    pub path: String,
    pub children: Vec<usize>,
}

/// The glyph class a view shows next to a document, decided by its type
/// tag alone.
#[derive(Debug, Clone, Copy, PartialEq, Eq)]
pub enum GlyphKind {
    Pdf,
    Web,
    Note,
    Picture,
    Folder,
    Generic,
}

/// The glyph class of a type tag: each fixed tag has its own glyph, an
/// `Other` labelled exactly "Folder" gets the folder glyph, and every
/// other `Other` label falls back to the generic glyph.
pub open spec fn glyph_of(t: DocumentType) -> GlyphKind {
    match t {
        DocumentType::PDF => GlyphKind::Pdf,
        DocumentType::URL => GlyphKind::Web,
        DocumentType::Text => GlyphKind::Note,
        DocumentType::Image => GlyphKind::Picture,
        DocumentType::Other(label) => if label@ == "Folder"@ {
            GlyphKind::Folder
        } else {
            GlyphKind::Generic
        },
    }
}

/// Picks the glyph class for a type tag, special-casing the "Folder"
/// label among the open-ended tags.
pub fn document_glyph(t: &DocumentType) -> (g: GlyphKind)
    ensures
        g == glyph_of(*t),
{
    match t {
        DocumentType::PDF => GlyphKind::Pdf,
        DocumentType::URL => GlyphKind::Web,
        DocumentType::Text => GlyphKind::Note,
        DocumentType::Image => GlyphKind::Picture,
        DocumentType::Other(label) => {
            let folder: String = "Folder".to_owned();
            if *label == folder {
                GlyphKind::Folder
            } else {
                GlyphKind::Generic
            }
        }
    }
}

/// The library itself: every document ever created, the ids at the root
/// level, the next id to issue, and the current selection (which may
/// point at an id that was never issued; readers tolerate that).
pub struct Model {
    pub documents: Vec<Document>,
    pub root_documents: Vec<usize>,
    pub next_id: usize,
    pub selected_document_id: Option<usize>,
}

impl Model {
    /// Well-formedness: ids are issued consecutively, so the document
    /// with id `i` sits at index `i`; `next_id` exceeds every issued id;
    /// every id in the root list and in any child list has been issued;
    /// and a child's id is strictly greater than its parent's, since a
    /// child is always created after its parent.
    pub open spec fn wf(self) -> bool {
        &&& self.documents@.len() == self.next_id
        &&& forall|i: int|
            0 <= i < self.documents@.len() ==> (#[trigger] self.documents@[i]).id == i
        &&& forall|i: int, j: int|
            0 <= i < self.documents@.len() && 0 <= j < self.documents@[i].children@.len()
                ==> i < #[trigger] self.documents@[i].children@[j] < self.documents@.len()
        &&& forall|j: int|
            0 <= j < self.root_documents@.len()
                ==> #[trigger] self.root_documents@[j] < self.documents@.len()
    }

    /// Creates an empty library: no documents, no roots, no selection,
    /// and ids starting from zero.
    pub fn new() -> (m: Model)
        ensures
            m.wf(),
            m.documents@.len() == 0,
            m.root_documents@.len() == 0,
            m.next_id == 0,
            m.selected_document_id is None,
    {
        Model {
            documents: Vec::new(),
            root_documents: Vec::new(),
            next_id: 0,
            selected_document_id: None,
        }
    }

    /// What every insertion does, whatever the parent argument: a fresh
    /// document with the given fields, an empty child list and the
    /// previously next id goes at the end of `documents`, the counter
    /// advances by one, and the selection is untouched.
    pub open spec fn inserted_doc(
        pre: Model,
        post: Model,
        id: usize,
        name: String,
        doc_type: DocumentType,
        path: String,
    ) -> bool {
        &&& id == pre.next_id
        &&& post.next_id == pre.next_id + 1
        &&& post.documents@.len() == pre.documents@.len() + 1
        &&& post.documents@.last().id == id
        &&& post.documents@.last().name == name
        &&& post.documents@.last().doc_type == doc_type
        &&& post.documents@.last().path == path
        &&& post.documents@.last().children@ == Seq::<usize>::empty()
        &&& post.selected_document_id == pre.selected_document_id
    }

    /// Insertion at the root level: besides the common effect, the new
    /// id is appended to `root_documents`, exactly once, and every
    /// pre-existing document is left untouched.
    pub open spec fn inserted_as_root(
        pre: Model,
        post: Model,
        id: usize,
        name: String,
        doc_type: DocumentType,
        path: String,
    ) -> bool {
        &&& Self::inserted_doc(pre, post, id, name, doc_type, path)
        &&& post.root_documents@ == pre.root_documents@.push(id)
        &&& forall|i: int|
            0 <= i < pre.documents@.len() ==> post.documents@[i] == pre.documents@[i]
    }

    /// Insertion under an existing parent `p`: besides the common
    /// effect, the new id is appended to `p`'s child list, the root
    /// list is untouched, and so is every other pre-existing document
    /// and every other field of the parent.
    pub open spec fn inserted_under_parent(
        pre: Model,
        post: Model,
        id: usize,
        p: usize,
        name: String,
        doc_type: DocumentType,
        path: String,
    ) -> bool {
        &&& Self::inserted_doc(pre, post, id, name, doc_type, path)
        &&& p < pre.documents@.len()
        &&& post.root_documents@ == pre.root_documents@
        &&& post.documents@[p as int].children@ == pre.documents@[p as int].children@.push(id)
        &&& post.documents@[p as int].id == pre.documents@[p as int].id
        &&& post.documents@[p as int].name == pre.documents@[p as int].name
        &&& post.documents@[p as int].doc_type == pre.documents@[p as int].doc_type
        &&& post.documents@[p as int].path == pre.documents@[p as int].path
        &&& forall|i: int|
            0 <= i < pre.documents@.len() && i != p
                ==> post.documents@[i] == pre.documents@[i]
    }

    /// Creates a document and places it in the tree. The fresh id is
    /// returned. A `parent_id` that names an existing document attaches
    /// the new document under it; no `parent_id`, or one that resolves
    /// to no document, places the new document at the root level (an
    /// unresolved parent is deliberately an implicit root placement,
    /// not an error, and the root list gains the id exactly once).
    pub fn add_document(
        &mut self,
        name: String,
        doc_type: DocumentType,
        path: String,
        parent_id: Option<usize>,
    ) -> (id: usize)
        requires
            old(self).wf(),
            old(self).next_id < usize::MAX,
        ensures
            final(self).wf(),
            id == old(self).next_id,
            match parent_id {
                Some(p) => if p < old(self).documents@.len() {
                    Self::inserted_under_parent(
                        *old(self), *final(self), id, p, name, doc_type, path,
                    )
                } else {
                    Self::inserted_as_root(*old(self), *final(self), id, name, doc_type, path)
                },
                None => Self::inserted_as_root(*old(self), *final(self), id, name, doc_type, path),
            },
    {
        let id = self.next_id;

        // Resolve the parent among the documents that already exist,
        // before the new one joins them.
        let parent_slot = match parent_id {
            Some(p) => self.find_slot(p),
            None => None,
        };

        self.next_id = self.next_id + 1;

        let document = Document {
            id,
            name,
            path,
            doc_type,
            children: Vec::new(),
        };

        self.documents.push(document);

        match parent_slot {
            Some(slot) => {
                let parent_doc = &mut self.documents[slot];
                parent_doc.children.push(id);
            }
            None => {
                self.root_documents.push(id);
            }
        }

        id
    }

    /// Linear scan for the index of the document whose id is `id`;
    /// since ids are issued consecutively, the scan finds index `id`
    /// exactly when `id` has been issued.
    fn find_slot(&self, id: usize) -> (r: Option<usize>)
        requires
            self.wf(),
        ensures
            r == if (id as int) < self.documents@.len() {
                Some(id)
            } else {
                None::<usize>
            },
    {
        let mut i: usize = 0;
        while i < self.documents.len()
            invariant
                self.wf(),
                i <= self.documents@.len(),
                forall|j: int| 0 <= j < i ==> (#[trigger] self.documents@[j]).id != id,
            decreases self.documents@.len() - i,
        {
            if self.documents[i].id == id {
                return Some(i);
            }
            i = i + 1;
        }
        proof {
            if (id as int) < self.documents@.len() {
                assert(self.documents@[id as int].id == id);
            }
        }
        None
    }

    /// Looks a document up by id. The lookup succeeds exactly for the
    /// ids issued so far, and then returns the document created with
    /// that id; absence is an expected outcome, not an error.
    pub fn get_document(&self, id: usize) -> (r: Option<&Document>)
        requires
            self.wf(),
        ensures
            match r {
                Some(d) => (id as int) < self.documents@.len() && *d == self.documents@[id as int],
                None => (id as int) >= self.documents@.len(),
            },
    {
        let mut i: usize = 0;
        while i < self.documents.len()
            invariant
                self.wf(),
                i <= self.documents@.len(),
                forall|j: int| 0 <= j < i ==> (#[trigger] self.documents@[j]).id != id,
            decreases self.documents@.len() - i,
        {
            if self.documents[i].id == id {
                return Some(&self.documents[i]);
            }
            i = i + 1;
        }
        proof {
            if (id as int) < self.documents@.len() {
                assert(self.documents@[id as int].id == id);
            }
        }
        None
    }

    /// What two states related by a selection update share: everything
    /// but the selection, which becomes the given id.
    pub open spec fn selection_set(pre: Model, post: Model, id: Option<usize>) -> bool {
        &&& post.selected_document_id == id
        &&& post.documents == pre.documents
        &&& post.root_documents == pre.root_documents
        &&& post.next_id == pre.next_id
    }

    /// Sets or clears the selection. The id is not validated: selecting
    /// an id that was never issued is permitted, and readers resolve it
    /// to absence.
    pub fn set_selected_document(&mut self, id: Option<usize>)
        ensures
            Self::selection_set(*old(self), *final(self), id),
            old(self).wf() ==> final(self).wf(),
    {
        self.selected_document_id = id;
    }

    /// The document the current selection resolves to: absent when
    /// nothing is selected or the selected id was never issued.
    pub open spec fn selected_spec(self) -> Option<Document> {
        match self.selected_document_id {
            Some(id) => if (id as int) < self.documents@.len() {
                Some(self.documents@[id as int])
            } else {
                None
            },
            None => None,
        }
    }

    /// Resolves the current selection through the lookup; transparently
    /// absent when nothing is selected or the selection points at an id
    /// that was never issued.
    pub fn selected_document(&self) -> (r: Option<&Document>)
        requires
            self.wf(),
        ensures
            match r {
                Some(d) => self.selected_spec() == Some(*d),
                None => self.selected_spec() is None,
            },
    {
        if let Some(id) = self.selected_document_id {
            self.get_document(id)
        } else {
            None
        }
    }
}

} // verus!
