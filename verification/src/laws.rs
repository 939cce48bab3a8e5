//! Laws of the model, stated over its transition predicates and proved
//! once and for all: what repeated root insertion does to the root
//! list, what any insertion leaves intact, where a nested insertion
//! does and does not appear, and what a selection resolves to.

use vstd::prelude::*;
use crate::model::Document;
use crate::model::DocumentType;
use crate::model::Model;

verus! {

/// The root list is exactly the sequence of every issued id, in the
/// order of issue: the shape a model has when every document was
/// inserted at the root level.
pub open spec fn roots_in_id_order(m: Model) -> bool {
    m.root_documents@ == Seq::new(m.documents@.len(), |i: int| i as usize)
}

/// An empty model lists its (zero) ids in order; this is the base case
/// of root-only insertion.
pub proof fn lemma_roots_in_id_order_empty(m: Model)
    requires
        m.documents@.len() == 0,
        m.root_documents@.len() == 0,
    ensures
        roots_in_id_order(m),
{
    assert(m.root_documents@ =~= Seq::new(m.documents@.len(), |i: int| i as usize));
}

/// Root insertion keeps the root list equal to the full id sequence:
/// inserting N documents with no parent into an empty model therefore
/// leaves `root_documents` with exactly N entries, in insertion order,
/// holding the ids 0 through N - 1.
pub proof fn lemma_root_insertion_in_order(
    pre: Model,
    post: Model,
    id: usize,
    name: String,
    doc_type: DocumentType,
    path: String,
)
    requires
        pre.wf(),
        roots_in_id_order(pre),
        Model::inserted_as_root(pre, post, id, name, doc_type, path),
    ensures
        roots_in_id_order(post),
{
    assert(post.root_documents@ =~= Seq::new(post.documents@.len(), |i: int| i as usize));
}

/// An insertion under an existing parent puts the fresh id at the end
/// of the parent's child list and nowhere in the root list.
pub proof fn lemma_child_insertion_only_under_parent(
    pre: Model,
    post: Model,
    id: usize,
    p: usize,
    name: String,
    doc_type: DocumentType,
    path: String,
)
    requires
        pre.wf(),
        Model::inserted_under_parent(pre, post, id, p, name, doc_type, path),
    ensures
        post.documents@[p as int].children@.last() == id,
        forall|j: int|
            0 <= j < post.root_documents@.len() ==> #[trigger] post.root_documents@[j] != id,
{
}

/// No insertion disturbs an existing document: its id, name, type and
/// path persist, and its child list only ever grows at the end. With
/// the lookup's own contract this means a lookup after any number of
/// later insertions still finds every document as `add_document` made
/// it. The precondition is exactly what `add_document` ensures, for
/// whichever placement its parent argument selected.
pub proof fn lemma_insertion_preserves_existing(
    pre: Model,
    post: Model,
    id: usize,
    name: String,
    doc_type: DocumentType,
    path: String,
    parent_id: Option<usize>,
)
    requires
        pre.wf(),
        match parent_id {
            Some(p) => if p < pre.documents@.len() {
                Model::inserted_under_parent(pre, post, id, p, name, doc_type, path)
            } else {
                Model::inserted_as_root(pre, post, id, name, doc_type, path)
            },
            None => Model::inserted_as_root(pre, post, id, name, doc_type, path),
        },
    ensures
        forall|i: int|
            0 <= i < pre.documents@.len() ==> {
                &&& (#[trigger] post.documents@[i]).id == pre.documents@[i].id
                &&& post.documents@[i].name == pre.documents@[i].name
                &&& post.documents@[i].doc_type == pre.documents@[i].doc_type
                &&& post.documents@[i].path == pre.documents@[i].path
                &&& pre.documents@[i].children@.is_prefix_of(post.documents@[i].children@)
            },
        post.documents@[id as int].id == id,
{
    assert forall|i: int| 0 <= i < pre.documents@.len() implies
        pre.documents@[i].children@.is_prefix_of(#[trigger] post.documents@[i].children@) by {
        assert(pre.documents@[i].children@.is_prefix_of(
            pre.documents@[i].children@.push(id),
        )) by {
            assert(pre.documents@[i].children@
                =~= pre.documents@[i].children@.push(id).take(
                pre.documents@[i].children@.len() as int,
            ));
        }
        assert(pre.documents@[i].children@.is_prefix_of(pre.documents@[i].children@)) by {
            assert(pre.documents@[i].children@
                =~= pre.documents@[i].children@.take(pre.documents@[i].children@.len() as int));
        }
    }
}

/// Selecting an issued id and then reading the selection yields the
/// document with that id; selecting an id that was never issued yields
/// absence.
pub proof fn lemma_select_some_then_selected(pre: Model, post: Model, id: usize)
    requires
        Model::selection_set(pre, post, Some(id)),
    ensures
        post.selected_spec() == if (id as int) < pre.documents@.len() {
            Some(pre.documents@[id as int])
        } else {
            None::<Document>
        },
{
}

/// Clearing the selection and then reading it yields absence.
pub proof fn lemma_select_none_then_selected(pre: Model, post: Model)
    requires
        Model::selection_set(pre, post, None::<usize>),
    ensures
        post.selected_spec() is None,
{
}

} // verus!
