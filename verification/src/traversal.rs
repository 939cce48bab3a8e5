//! Depth-first traversal of the document tree, children in insertion
//! order: the order in which a view renders the library, each id paired
//! with its nesting depth.

use vstd::prelude::*;
use crate::model::Document;
use crate::model::Model;

verus! {

/// The depth-first listing of the forests rooted at `ids`, in order:
/// each id, at the given depth, followed by the listing of its children
/// one level deeper, followed by the listing of the remaining ids.
///
/// `min` is a strict lower bound on every id in `ids`; since a child's
/// id always exceeds its parent's, the bound rises at every descent,
/// which is what bounds the recursion.
pub open spec fn dfs_listing(
    docs: Seq<Document>,
    ids: Seq<usize>,
    min: int,
    depth: usize,
) -> Seq<(usize, usize)>
    decreases docs.len() - min, ids.len()
        when -1 <= min < docs.len() && depth <= min + 1 && (forall|j: int|
            0 <= j < ids.len() ==> min < #[trigger] ids[j] < docs.len())
{
    if ids.len() == 0 {
        Seq::empty()
    } else {
        seq![(ids[0], depth)]
            + dfs_listing(
            docs,
            docs[ids[0] as int].children@,
            ids[0] as int,
            (depth + 1) as usize,
        ) + dfs_listing(docs, ids.drop_first(), min, depth)
    }
}

/// The depth-first listing of the single tree rooted at `id`: the id
/// itself, then its children's subtrees in insertion order, one level
/// deeper.
pub open spec fn subtree_listing(docs: Seq<Document>, id: usize, depth: usize) -> Seq<
    (usize, usize),
> {
    seq![(id, depth)] + dfs_listing(docs, docs[id as int].children@, id as int, (depth + 1) as usize)
}

impl Model {
    /// The depth-first listing of the whole library: every root's
    /// subtree, roots in insertion order, starting at depth zero.
    pub open spec fn traversal(self) -> Seq<(usize, usize)> {
        dfs_listing(self.documents@, self.root_documents@, -1, 0)
    }

    /// Appends the subtree rooted at `id` to `out`, depth-first.
    fn collect_subtree(&self, id: usize, depth: usize, out: &mut Vec<(usize, usize)>)
        requires
            self.wf(),
            id < self.documents@.len(),
            depth <= id,
        ensures
            final(out)@ == old(out)@ + subtree_listing(self.documents@, id, depth),
        decreases self.documents@.len() - id,
    {
        let ghost docs: Seq<Document> = self.documents@;
        let ghost kids: Seq<usize> = self.documents@[id as int].children@;
        let ghost d1: usize = ((depth + 1) as usize);
        out.push((id, depth));
        let n = self.documents[id].children.len();
        let mut k: usize = 0;
        proof {
            assert(kids.skip(0) =~= kids);
            assert(out@ + dfs_listing(docs, kids, id as int, d1)
                =~= old(out)@ + subtree_listing(docs, id, depth));
        }
        while k < n
            invariant
                self.wf(),
                docs == self.documents@,
                id < docs.len(),
                depth <= id,
                depth + 1 == d1,
                kids == docs[id as int].children@,
                n == kids.len(),
                k <= n,
                out@ + dfs_listing(docs, kids.skip(k as int), id as int, d1)
                    == old(out)@ + subtree_listing(docs, id, depth),
            decreases n - k,
        {
            let c = self.documents[id].children[k];
            proof {
                assert(id < docs[id as int].children@[k as int] < docs.len());
                assert(forall|j: int|
                    0 <= j < kids.skip(k as int).len()
                        ==> id < #[trigger] kids.skip(k as int)[j] < docs.len()) by {
                    assert(forall|j: int|
                        0 <= j < kids.skip(k as int).len()
                            ==> kids.skip(k as int)[j] == docs[id as int].children@[j + k]);
                }
                assert(kids.skip(k as int)[0] == c);
                // Unfold one step of the listing of the remaining children.
                assert(dfs_listing(docs, kids.skip(k as int), id as int, d1)
                    == subtree_listing(docs, c, d1)
                        + dfs_listing(docs, kids.skip(k as int).drop_first(), id as int, d1));
                assert(kids.skip(k as int).drop_first() =~= kids.skip(k as int + 1));
            }
            self.collect_subtree(c, depth + 1, out);
            proof {
                assert(out@ + dfs_listing(docs, kids.skip(k as int + 1), id as int, d1)
                    =~= old(out)@ + subtree_listing(docs, id, depth));
            }
            k = k + 1;
        }
        proof {
            assert(kids.skip(n as int) =~= Seq::<usize>::empty());
        }
    }

    /// Lists the whole library depth-first: for each root in insertion
    /// order, the root and then its descendants, children in insertion
    /// order, each id paired with its nesting depth.
    pub fn traverse(&self) -> (r: Vec<(usize, usize)>)
        requires
            self.wf(),
        ensures
            r@ == self.traversal(),
    {
        let ghost docs: Seq<Document> = self.documents@;
        let ghost roots: Seq<usize> = self.root_documents@;
        let mut out: Vec<(usize, usize)> = Vec::new();
        let n = self.root_documents.len();
        let mut k: usize = 0;
        proof {
            assert(roots.skip(0) =~= roots);
        }
        while k < n
            invariant
                self.wf(),
                docs == self.documents@,
                roots == self.root_documents@,
                n == roots.len(),
                k <= n,
                out@ + dfs_listing(docs, roots.skip(k as int), -1, 0) == self.traversal(),
            decreases n - k,
        {
            let root = self.root_documents[k];
            proof {
                assert(roots[k as int] < docs.len());
                assert(forall|j: int|
                    0 <= j < roots.skip(k as int).len()
                        ==> -1 < #[trigger] roots.skip(k as int)[j] < docs.len()) by {
                    assert(forall|j: int|
                        0 <= j < roots.skip(k as int).len()
                            ==> roots.skip(k as int)[j] == roots[j + k]);
                }
                assert(roots.skip(k as int)[0] == root);
                assert(dfs_listing(docs, roots.skip(k as int), -1, 0)
                    == subtree_listing(docs, root, 0)
                        + dfs_listing(docs, roots.skip(k as int).drop_first(), -1, 0));
                assert(roots.skip(k as int).drop_first() =~= roots.skip(k as int + 1));
            }
            self.collect_subtree(root, 0, &mut out);
            proof {
                assert(out@ + dfs_listing(docs, roots.skip(k as int + 1), -1, 0)
                    =~= self.traversal());
            }
            k = k + 1;
        }
        proof {
            assert(roots.skip(n as int) =~= Seq::<usize>::empty());
        }
        out
    }
}

} // verus!
