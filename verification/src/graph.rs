//! A plain model of a repository's commit graph, and commit range
//! resolution over it.
//!
//! A commit is a node carrying its object id, its commit time and the
//! indices of its parents; parents always precede their children in the
//! node list, which makes the graph acyclic by construction. The unverified
//! driver loads this model from the repository on disk; resolving a
//! `(from, to)` range to the ordered walk sequence is verified logic here.
//!
//! A range covers `from` and `to` inclusively: the walk follows the
//! first-parent line from `to` back to `from`, and the resolved sequence is
//! returned oldest first.

use vstd::prelude::*;

verus! {

/// One commit of a modelled repository: its object id, its commit time, and
/// its parents, each the index of an earlier node, first parent first.
#[derive(Clone, Debug)]
pub struct CommitNode {
    pub id: Vec<u8>,
    pub time: i64,
    pub parents: Vec<usize>,
}

/// A commit graph: nodes listed so that parents precede their children.
#[derive(Clone, Debug)]
pub struct CommitGraph {
    pub nodes: Vec<CommitNode>,
}

/// The parent indices of node `b`, as mathematical integers; empty when `b`
/// is no node of the graph.
pub open spec fn parent_indices(g: CommitGraph, b: int) -> Seq<int> {
    if 0 <= b < g.nodes@.len() {
        Seq::new(g.nodes@[b].parents@.len(), |k: int| g.nodes@[b].parents@[k] as int)
    } else {
        Seq::empty()
    }
}

/// The first parent of node `b`, when it has one.
pub open spec fn first_parent(g: CommitGraph, b: int) -> Option<int> {
    if parent_indices(g, b).len() > 0 {
        Some(parent_indices(g, b)[0])
    } else {
        None
    }
}

impl CommitGraph {
    /// Every parent stands earlier in the node list than its child. This is
    /// how the driver loads a repository, and it makes ancestry acyclic.
    pub open spec fn well_formed(self) -> bool {
        forall|i: int, k: int|
            0 <= i < self.nodes@.len() && 0 <= k < parent_indices(self, i).len()
                ==> 0 <= #[trigger] parent_indices(self, i)[k] < i
    }
}

/// Whether `a` lies on the first-parent chain of `b` (inclusively).
pub open spec fn on_fp_chain(g: CommitGraph, a: int, b: int) -> bool
    decreases b,
{
    if a == b {
        true
    } else {
        parent_indices(g, b).len() > 0 && 0 <= parent_indices(g, b)[0] < b && on_fp_chain(
            g,
            a,
            parent_indices(g, b)[0],
        )
    }
}

/// Whether `p` is a direct parent (by any edge) of `c`.
pub open spec fn parent_edge(g: CommitGraph, p: int, c: int) -> bool {
    exists|k: int| 0 <= k < parent_indices(g, c).len() && parent_indices(g, c)[k] == p
}

/// Whether `path` is a chain of parent edges from `a` up to `b`.
pub open spec fn path_connects(g: CommitGraph, path: Seq<int>, a: int, b: int) -> bool {
    &&& path.len() >= 1
    &&& path[0] == a
    &&& path.last() == b
    &&& forall|i: int| 0 <= i < path.len() - 1 ==> #[trigger] parent_edge(g, path[i], path[i + 1])
}

/// Whether `a` is an ancestor of `b` (inclusively), along any parent edges.
pub open spec fn is_ancestor(g: CommitGraph, a: int, b: int) -> bool {
    exists|path: Seq<int>| path_connects(g, path, a, b)
}

/// In a well-formed graph an ancestor's index never exceeds the
/// descendant's, and a strict ancestor's is strictly smaller.
pub proof fn lemma_ancestor_index(g: CommitGraph, path: Seq<int>, a: int, b: int)
    requires
        g.well_formed(),
        path_connects(g, path, a, b),
    ensures
        a <= b,
        a != b ==> a < b,
    decreases path.len(),
{
    if path.len() == 1 {
    } else {
        let i0: int = 0;
        assert(parent_edge(g, path[i0], path[i0 + 1]));
        let tail = path.drop_first();
        assert(path_connects(g, tail, path[1], b)) by {
            assert(tail[0] == path[1]);
            assert(tail.last() == path.last());
            assert forall|i: int| 0 <= i < tail.len() - 1 implies #[trigger] parent_edge(
                g,
                tail[i],
                tail[i + 1],
            ) by {
                assert(tail[i] == path[i + 1]);
                assert(tail[i + 1] == path[i + 2]);
                assert(parent_edge(g, path[i + 1], path[(i + 1) + 1]));
            }
        }
        lemma_ancestor_index(g, tail, path[1], b);
        let k = choose|k: int|
            0 <= k < parent_indices(g, path[1]).len() && parent_indices(g, path[1])[k] == path[0];
        assert(0 <= path[1] < g.nodes@.len() || parent_indices(g, path[1]).len() == 0);
        assert(a < path[1]);
    }
}

/// A commit on the first-parent chain of `b` is an ancestor of `b`.
pub proof fn lemma_fp_chain_is_ancestor(g: CommitGraph, a: int, b: int)
    requires
        on_fp_chain(g, a, b),
    ensures
        is_ancestor(g, a, b),
        a <= b,
    decreases b,
{
    if a == b {
        let path = seq![a];
        assert(path_connects(g, path, a, b));
    } else {
        let p = parent_indices(g, b)[0];
        lemma_fp_chain_is_ancestor(g, a, p);
        let sub = choose|sub: Seq<int>| path_connects(g, sub, a, p);
        let path = sub.push(b);
        assert(path_connects(g, path, a, b)) by {
            assert(path[0] == sub[0]);
            assert(parent_edge(g, p, b)) by {
                assert(parent_indices(g, b)[0] == p);
            }
            assert forall|i: int| 0 <= i < path.len() - 1 implies #[trigger] parent_edge(
                g,
                path[i],
                path[i + 1],
            ) by {
                if i < sub.len() - 1 {
                    assert(path[i] == sub[i]);
                    assert(path[i + 1] == sub[i + 1]);
                } else {
                    assert(path[i] == sub.last());
                    assert(path[i + 1] == b);
                }
            }
        }
        assert(is_ancestor(g, a, b));
    }
}

/// The first-parent chain segment from `from` up to `to`, oldest first.
/// Meaningful when `from` lies on the first-parent chain of `to`.
pub open spec fn fp_chain_seg(g: CommitGraph, from: int, to: int) -> Seq<int>
    decreases to,
{
    if from == to {
        seq![to]
    } else if parent_indices(g, to).len() > 0 && 0 <= parent_indices(g, to)[0] < to {
        fp_chain_seg(g, from, parent_indices(g, to)[0]).push(to)
    } else {
        seq![to]
    }
}

/// The shape of a resolved range: non-empty, `from` first, `to` last,
/// consecutive entries linked by first-parent edges, and indices strictly
/// increasing (each entry is a strict ancestor of the next).
pub proof fn lemma_fp_chain_seg_props(g: CommitGraph, from: int, to: int)
    requires
        g.well_formed(),
        on_fp_chain(g, from, to),
    ensures
        fp_chain_seg(g, from, to).len() >= 1,
        fp_chain_seg(g, from, to)[0] == from,
        fp_chain_seg(g, from, to).last() == to,
        forall|i: int|
            0 <= i < fp_chain_seg(g, from, to).len() - 1 ==> first_parent(
                g,
                #[trigger] fp_chain_seg(g, from, to)[i + 1],
            ) == Some(fp_chain_seg(g, from, to)[i]),
        forall|i: int|
            0 <= i < fp_chain_seg(g, from, to).len() - 1 ==> #[trigger] fp_chain_seg(
                g,
                from,
                to,
            )[i] < fp_chain_seg(g, from, to)[i + 1],
        forall|i: int|
            0 <= i < fp_chain_seg(g, from, to).len() ==> from <= #[trigger] fp_chain_seg(
                g,
                from,
                to,
            )[i] <= to,
        forall|i: int|
            0 <= i < fp_chain_seg(g, from, to).len() ==> on_fp_chain(
                g,
                from,
                #[trigger] fp_chain_seg(g, from, to)[i],
            ),
    decreases to,
{
    let s = fp_chain_seg(g, from, to);
    if from == to {
    } else {
        let p = parent_indices(g, to)[0];
        lemma_fp_chain_seg_props(g, from, p);
        let sub = fp_chain_seg(g, from, p);
        assert(s == sub.push(to));
        lemma_fp_chain_is_ancestor(g, from, to);
        assert forall|i: int| 0 <= i < s.len() - 1 implies first_parent(g, #[trigger] s[i + 1])
            == Some(s[i]) by {
            if i + 1 < s.len() - 1 {
                assert(s[i + 1] == sub[i + 1]);
                assert(s[i] == sub[i]);
            } else {
                assert(s[i + 1] == to);
                assert(s[i] == sub.last());
            }
        }
    }
}

/// The resolved range never contains a strict ancestor
/// of `from`, by any parent edges.
pub proof fn lemma_range_excludes_ancestors(g: CommitGraph, from: int, to: int, c: int)
    requires
        g.well_formed(),
        on_fp_chain(g, from, to),
        is_ancestor(g, c, from),
        c != from,
    ensures
        !fp_chain_seg(g, from, to).contains(c),
{
    let path = choose|path: Seq<int>| path_connects(g, path, c, from);
    lemma_ancestor_index(g, path, c, from);
    lemma_fp_chain_seg_props(g, from, to);
    let s = fp_chain_seg(g, from, to);
    assert forall|i: int| 0 <= i < s.len() implies s[i] != c by {
        assert(from <= s[i]);
    }
    if s.contains(c) {
        let i = choose|i: int| 0 <= i < s.len() && s[i] == c;
    }
}

/// Resolving a range whose ends coincide yields exactly that one commit.
pub proof fn lemma_range_single_commit(g: CommitGraph, x: int)
    ensures
        on_fp_chain(g, x, x),
        fp_chain_seg(g, x, x) == seq![x],
{
}

/// Why a `(from, to)` pair does not resolve to a commit range.
#[derive(Clone, Copy, PartialEq, Eq, Structural, Debug)]
pub enum RangeError {
    /// `from` or `to` names no commit of the repository.
    UnknownRevision,
    /// `from` is a root commit, or `to` is not reachable from `from` along
    /// the first-parent chain.
    InvalidRange,
}

/// The first node carrying `id`, searching in list order.
pub open spec fn find_index(nodes: Seq<CommitNode>, id: Seq<u8>) -> Option<int>
    decreases nodes.len(),
{
    if nodes.len() == 0 {
        None
    } else if nodes[0].id@ == id {
        Some(0)
    } else {
        match find_index(nodes.drop_first(), id) {
            None => None,
            Some(i) => Some(i + 1),
        }
    }
}

proof fn lemma_find_index_found(nodes: Seq<CommitNode>, id: Seq<u8>, i: int)
    requires
        0 <= i < nodes.len(),
        nodes[i].id@ == id,
        forall|j: int| 0 <= j < i ==> nodes[j].id@ != id,
    ensures
        find_index(nodes, id) == Some(i),
    decreases i,
{
    if i > 0 {
        lemma_find_index_found(nodes.drop_first(), id, i - 1);
    }
}

proof fn lemma_find_index_missing(nodes: Seq<CommitNode>, id: Seq<u8>)
    requires
        forall|j: int| 0 <= j < nodes.len() ==> nodes[j].id@ != id,
    ensures
        find_index(nodes, id) is None,
    decreases nodes.len(),
{
    if nodes.len() > 0 {
        lemma_find_index_missing(nodes.drop_first(), id);
    }
}

/// Byte-wise equality of two object ids.
pub fn ids_equal(a: &Vec<u8>, b: &Vec<u8>) -> (r: bool)
    ensures
        r == (a@ == b@),
{
    if a.len() != b.len() {
        proof {
            assert(a@ != b@) by {
                if a@ == b@ {
                    assert(a@.len() == b@.len());
                }
            }
        }
        return false;
    }
    let n = a.len();
    let mut i: usize = 0;
    while i < n
        invariant
            0 <= i <= n,
            n == a@.len(),
            n == b@.len(),
            forall|j: int| 0 <= j < i ==> a@[j] == b@[j],
        decreases n - i,
    {
        if a[i] != b[i] {
            return false;
        }
        i += 1;
    }
    proof {
        assert(a@ =~= b@);
    }
    true
}

impl CommitGraph {
    /// Finds the commit carrying an object id.
    pub fn find_commit(&self, id: &Vec<u8>) -> (r: Option<usize>)
        ensures
            match r {
                Some(i) => find_index(self.nodes@, id@) == Some(i as int),
                None => find_index(self.nodes@, id@) is None,
            },
    {
        let n = self.nodes.len();
        let mut i: usize = 0;
        while i < n
            invariant
                0 <= i <= n,
                n == self.nodes@.len(),
                forall|j: int| 0 <= j < i ==> self.nodes@[j].id@ != id@,
            decreases n - i,
        {
            if ids_equal(&self.nodes[i].id, id) {
                proof {
                    lemma_find_index_found(self.nodes@, id@, i as int);
                }
                return Some(i);
            }
            i += 1;
        }
        proof {
            lemma_find_index_missing(self.nodes@, id@);
        }
        None
    }
}

/// What a `(from, to)` pair resolves to: the first-parent chain segment
/// from `from` up to `to`, oldest first; `UnknownRevision` when either id
/// names no commit, `InvalidRange` when `from` is a root commit or `to`
/// does not descend from `from` along the first-parent line.
pub open spec fn resolve_spec(g: CommitGraph, from_id: Seq<u8>, to_id: Seq<u8>) -> Result<
    Seq<int>,
    RangeError,
> {
    match (find_index(g.nodes@, from_id), find_index(g.nodes@, to_id)) {
        (Some(f), Some(t)) => {
            if first_parent(g, f) is None {
                Err(RangeError::InvalidRange)
            } else if on_fp_chain(g, f, t) {
                Ok(fp_chain_seg(g, f, t))
            } else {
                Err(RangeError::InvalidRange)
            }
        },
        _ => Err(RangeError::UnknownRevision),
    }
}

/// Extending a chain segment at its old end: stepping from `cur` to its
/// first parent `p` prepends `p` to the segment.
proof fn lemma_fp_chain_extend(g: CommitGraph, p: int, cur: int, t: int)
    requires
        g.well_formed(),
        on_fp_chain(g, cur, t),
        0 <= cur,
        parent_indices(g, cur).len() > 0,
        p == parent_indices(g, cur)[0],
    ensures
        on_fp_chain(g, p, t),
        fp_chain_seg(g, p, t) == seq![p] + fp_chain_seg(g, cur, t),
    decreases t,
{
    assert(0 <= p < cur);
    assert(on_fp_chain(g, p, p));
    assert(on_fp_chain(g, p, cur));
    if cur == t {
        assert(fp_chain_seg(g, p, t) == fp_chain_seg(g, p, p).push(t));
        assert(seq![p].push(t) =~= seq![p] + seq![t]);
    } else {
        let tp = parent_indices(g, t)[0];
        lemma_fp_chain_extend(g, p, cur, tp);
        assert(p != t) by {
            lemma_fp_chain_is_ancestor(g, cur, t);
            assert(cur <= t);
        }
        assert(fp_chain_seg(g, p, t) == fp_chain_seg(g, p, tp).push(t));
        assert((seq![p] + fp_chain_seg(g, cur, tp)).push(t) =~= seq![p] + fp_chain_seg(
            g,
            cur,
            tp,
        ).push(t));
    }
}

/// The sequence of integers a list of node indices denotes.
pub open spec fn indices_of(v: Seq<usize>) -> Seq<int> {
    Seq::new(v.len(), |i: int| v[i] as int)
}

/// Resolves a `(from, to)` commit range: the walk sequence oldest first,
/// given as indices into the graph's node list.
pub fn resolve_range(g: &CommitGraph, from_id: &Vec<u8>, to_id: &Vec<u8>) -> (r: Result<
    Vec<usize>,
    RangeError,
>)
    requires
        g.well_formed(),
    ensures
        match r {
            Ok(v) => resolve_spec(*g, from_id@, to_id@) == Ok::<Seq<int>, RangeError>(
                indices_of(v@),
            ),
            Err(e) => resolve_spec(*g, from_id@, to_id@) == Err::<Seq<int>, RangeError>(e),
        },
{
    let f = match g.find_commit(from_id) {
        Some(f) => f,
        None => {
            return Err(RangeError::UnknownRevision);
        },
    };
    let t = match g.find_commit(to_id) {
        Some(t) => t,
        None => {
            return Err(RangeError::UnknownRevision);
        },
    };
    proof {
        lemma_find_index_bounds(g.nodes@, from_id@);
        lemma_find_index_bounds(g.nodes@, to_id@);
    }
    if g.nodes[f].parents.len() == 0 {
        return Err(RangeError::InvalidRange);
    }
    let mut rev: Vec<usize> = Vec::new();
    let mut cur: usize = t;
    proof {
        assert(fp_chain_seg(*g, cur as int, t as int) =~= seq![cur as int] + indices_of(
            rev@,
        ).reverse());
    }
    while cur != f
        invariant
            g.well_formed(),
            0 <= cur < g.nodes@.len(),
            0 <= (f as int) < g.nodes@.len(),
            0 <= (t as int) < g.nodes@.len(),
            find_index(g.nodes@, from_id@) == Some(f as int),
            find_index(g.nodes@, to_id@) == Some(t as int),
            parent_indices(*g, f as int).len() > 0,
            on_fp_chain(*g, cur as int, t as int),
            fp_chain_seg(*g, cur as int, t as int) == seq![cur as int] + indices_of(
                rev@,
            ).reverse(),
            on_fp_chain(*g, f as int, t as int) ==> on_fp_chain(*g, f as int, cur as int),
        decreases cur,
    {
        if self_parents_empty(g, cur) {
            proof {
                assert(!on_fp_chain(*g, f as int, cur as int));
                assert(!on_fp_chain(*g, f as int, t as int));
            }
            return Err(RangeError::InvalidRange);
        }
        let p = first_parent_of(g, cur);
        let ghost old_rev = rev@;
        rev.push(cur);
        proof {
            lemma_fp_chain_extend(*g, p as int, cur as int, t as int);
            assert(indices_of(rev@).reverse() =~= seq![cur as int] + indices_of(
                old_rev,
            ).reverse());
            assert(seq![p as int] + (seq![cur as int] + indices_of(old_rev).reverse()) =~= seq![
                p as int,
            ] + indices_of(rev@).reverse());
        }
        cur = p;
    }
    let ghost old_rev = rev@;
    rev.push(f);
    proof {
        assert(indices_of(rev@).reverse() =~= seq![f as int] + indices_of(old_rev).reverse());
        assert(fp_chain_seg(*g, f as int, t as int) == indices_of(rev@).reverse());
    }
    let mut out: Vec<usize> = Vec::new();
    let m = rev.len();
    let mut i: usize = 0;
    while i < m
        invariant
            0 <= i <= m,
            m == rev@.len(),
            out@.len() == i,
            forall|j: int| 0 <= j < i ==> out@[j] == rev@[m - 1 - j],
        decreases m - i,
    {
        out.push(rev[m - 1 - i]);
        i += 1;
    }
    proof {
        assert(indices_of(out@) =~= indices_of(rev@).reverse());
    }
    Ok(out)
}

proof fn lemma_find_index_bounds(nodes: Seq<CommitNode>, id: Seq<u8>)
    ensures
        match find_index(nodes, id) {
            Some(i) => 0 <= i < nodes.len() && nodes[i].id@ == id,
            None => true,
        },
    decreases nodes.len(),
{
    if nodes.len() > 0 && nodes[0].id@ != id {
        lemma_find_index_bounds(nodes.drop_first(), id);
    }
}

/// Resolving a range whose two ends name the same commit yields exactly
/// that one commit, provided it is no root commit.
pub proof fn lemma_resolve_same(g: CommitGraph, id: Seq<u8>)
    requires
        g.well_formed(),
        find_index(g.nodes@, id) is Some,
        first_parent(g, find_index(g.nodes@, id).unwrap()) is Some,
    ensures
        resolve_spec(g, id, id) == Ok::<Seq<int>, RangeError>(
            seq![find_index(g.nodes@, id).unwrap()],
        ),
{
    let f = find_index(g.nodes@, id).unwrap();
    lemma_range_single_commit(g, f);
}

/// A resolved range consists of valid node indices: what the walk needs to
/// read each commit's id out of the graph.
pub proof fn lemma_resolve_ok(g: CommitGraph, from_id: Seq<u8>, to_id: Seq<u8>)
    requires
        g.well_formed(),
    ensures
        match resolve_spec(g, from_id, to_id) {
            Ok(seg) => {
                &&& seg.len() >= 1
                &&& forall|i: int| 0 <= i < seg.len() ==> 0 <= #[trigger] seg[i] < g.nodes@.len()
            },
            Err(e) => true,
        },
{
    lemma_find_index_bounds(g.nodes@, from_id);
    lemma_find_index_bounds(g.nodes@, to_id);
    match (find_index(g.nodes@, from_id), find_index(g.nodes@, to_id)) {
        (Some(f), Some(t)) => {
            if first_parent(g, f) is Some && on_fp_chain(g, f, t) {
                lemma_fp_chain_seg_props(g, f, t);
            }
        },
        _ => {},
    }
}

/// Whether a node has no parents (is a root commit).
fn self_parents_empty(g: &CommitGraph, i: usize) -> (r: bool)
    requires
        0 <= (i as int) < g.nodes@.len(),
    ensures
        r == (parent_indices(*g, i as int).len() == 0),
{
    g.nodes[i].parents.len() == 0
}

/// The first parent of a node known to have one.
fn first_parent_of(g: &CommitGraph, i: usize) -> (r: usize)
    requires
        g.well_formed(),
        0 <= (i as int) < g.nodes@.len(),
        parent_indices(*g, i as int).len() > 0,
    ensures
        r as int == parent_indices(*g, i as int)[0],
        first_parent(*g, i as int) == Some(r as int),
        0 <= (r as int) < i as int,
{
    g.nodes[i].parents[0]
}

} // verus!
