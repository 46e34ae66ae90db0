//! What a walk surfaces from a tree that does not change while it is walked.
//!
//! A static tree is modelled as nested listings of `Node`s, and a walk's open
//! cursors as `Frame`s: what each still has to list, and where it stands. The
//! pre-order `listing` of a tree is what a walk surfaces from it; the lemmas
//! below show that every step of the walker, as `advance` and `descend`
//! decide it, surfaces the next path of that listing and leaves exactly the
//! rest of it to come.

use vstd::prelude::*;
use crate::entry::{Entry, FileKind};
use crate::walk::{Pulled, Step, decide, pruned};

verus! {

broadcast use vstd::seq::group_seq_axioms;

/// An object of a static tree: its name, its kind, and for a directory what
/// its listing holds, in listing order.
pub struct Node {
    pub name: Seq<u8>,
    pub kind: FileKind,
    pub children: Seq<Node>,
}

/// An open cursor of a walk over a static tree: the items it has yet to
/// list, and the path (as name components) of the directory it lists.
pub struct Frame {
    pub rest: Seq<Node>,
    pub prefix: Seq<Seq<u8>>,
}

/// `e` is what a listing reports for `n`.
pub open spec fn describes(e: Entry, n: Node) -> bool {
    e.name@ == n.name && e.kind == Some(n.kind)
}

/// Whether the walker opens the node: a directory that no ignore pattern
/// matches.
pub open spec fn entered(ig: Seq<Seq<u8>>, n: Node) -> bool {
    n.kind == FileKind::Dir && !pruned(ig, n.name)
}

/// The paths surfaced from the items `ns` of the directory at `prefix`, in
/// depth-first pre-order: each item, then what lies below it when it is
/// entered, then its later siblings.
pub open spec fn listing(ns: Seq<Node>, prefix: Seq<Seq<u8>>, ig: Seq<Seq<u8>>) -> Seq<Seq<Seq<u8>>>
    decreases ns,
{
    if ns.len() == 0 {
        Seq::empty()
    } else {
        let n = ns[0];
        let p = prefix.push(n.name);
        let below = if entered(ig, n) {
            listing(n.children, p, ig)
        } else {
            Seq::empty()
        };
        seq![p] + below + listing(ns.subrange(1, ns.len() as int), prefix, ig)
    }
}

/// What a walk with these open cursors has left to surface: the top cursor's
/// listing first, then those of the cursors below it.
pub open spec fn remaining(frames: Seq<Frame>, ig: Seq<Seq<u8>>) -> Seq<Seq<Seq<u8>>>
    decreases frames.len(),
{
    if frames.len() == 0 {
        Seq::empty()
    } else {
        let top = frames.last();
        listing(top.rest, top.prefix, ig) + remaining(frames.drop_last(), ig)
    }
}

/// A walk started on a root cursor has the root's whole listing to surface;
/// a finished walk has nothing left.
pub proof fn lemma_walk_starts_with_whole_listing(root: Seq<Node>, prefix: Seq<Seq<u8>>, ig: Seq<Seq<u8>>)
    ensures
        remaining(seq![Frame { rest: root, prefix }], ig) == listing(root, prefix, ig),
        remaining(Seq::<Frame>::empty(), ig) == Seq::<Seq<Seq<u8>>>::empty(),
{
    let frames = seq![Frame { rest: root, prefix }];
    assert(frames.drop_last() =~= Seq::<Frame>::empty());
    assert(frames.last() == Frame { rest: root, prefix });
    assert(remaining(frames.drop_last(), ig) == Seq::<Seq<Seq<u8>>>::empty());
    assert(listing(root, prefix, ig) + Seq::<Seq<Seq<u8>>>::empty() =~= listing(root, prefix, ig));
}

/// An exhausted top cursor is dropped and nothing is surfaced: what is left
/// to surface does not change.
pub proof fn lemma_exhausted_frame_surfaces_nothing(frames: Seq<Frame>, ig: Seq<Seq<u8>>)
    requires
        frames.len() > 0,
        frames.last().rest.len() == 0,
    ensures
        decide(ig, Pulled::End) == Step::Exhausted,
        remaining(frames, ig) == remaining(frames.drop_last(), ig),
{
    assert(remaining(frames, ig) =~= remaining(frames.drop_last(), ig));
}

/// The top cursor after it listed its next item.
pub open spec fn advanced(frames: Seq<Frame>) -> Seq<Frame> {
    let top = frames.last();
    frames.drop_last().push(Frame { rest: top.rest.subrange(1, top.rest.len() as int), prefix: top.prefix })
}

/// The cursor opened on the top cursor's next item.
pub open spec fn opened(frames: Seq<Frame>) -> Frame {
    let top = frames.last();
    Frame { rest: top.rest[0].children, prefix: top.prefix.push(top.rest[0].name) }
}

/// What is left to surface once the top cursor's next item is taken: the
/// item's path, then, when it is entered, its own listing, then the rest.
proof fn lemma_remaining_after_item(frames: Seq<Frame>, ig: Seq<Seq<u8>>)
    requires
        frames.len() > 0,
        frames.last().rest.len() > 0,
    ensures
        ({
            let top = frames.last();
            let n = top.rest[0];
            let p = top.prefix.push(n.name);
            &&& !entered(ig, n) ==> remaining(frames, ig) == seq![p] + remaining(advanced(frames), ig)
            &&& entered(ig, n) ==> remaining(frames, ig) == seq![p] + remaining(
                advanced(frames).push(opened(frames)),
                ig,
            )
        }),
{
    let top = frames.last();
    let n = top.rest[0];
    let p = top.prefix.push(n.name);
    let tail = top.rest.subrange(1, top.rest.len() as int);
    let below = frames.drop_last();
    let after = advanced(frames);
    assert(after.drop_last() =~= below);
    assert(after.last() == Frame { rest: tail, prefix: top.prefix });
    let r_below = remaining(below, ig);
    let l_tail = listing(tail, top.prefix, ig);
    assert(remaining(after, ig) == l_tail + r_below);
    if entered(ig, n) {
        let child = opened(frames);
        let deeper = after.push(child);
        assert(deeper.drop_last() =~= after);
        assert(deeper.last() == child);
        let l_child = listing(n.children, p, ig);
        assert(remaining(deeper, ig) == l_child + (l_tail + r_below));
        assert(remaining(frames, ig) == (seq![p] + l_child + l_tail) + r_below);
        assert((seq![p] + l_child + l_tail) + r_below =~= seq![p] + (l_child + (l_tail + r_below)));
    } else {
        assert(remaining(frames, ig) == (seq![p] + Seq::<Seq<Seq<u8>>>::empty() + l_tail) + r_below);
        assert((seq![p] + Seq::<Seq<Seq<u8>>>::empty() + l_tail) + r_below =~= seq![p] + (l_tail
            + r_below));
    }
}

/// Each item pulled from the top cursor of a walk over a static tree is
/// surfaced as the next path of the pre-order listing, and what is left to
/// surface afterwards is the rest of it: an item that is not entered leaves
/// the top cursor one item further on; a directory that is entered also gets
/// a cursor of its own on top.
pub proof fn lemma_step_follows_listing(frames: Seq<Frame>, ig: Seq<Seq<u8>>, e: Entry)
    requires
        frames.len() > 0,
        frames.last().rest.len() > 0,
        describes(e, frames.last().rest[0]),
    ensures
        ({
            let top = frames.last();
            let n = top.rest[0];
            let p = top.prefix.push(n.name);
            &&& !entered(ig, n) ==> decide(ig, Pulled::Item(e)) == Step::Yield(e)
                && remaining(frames, ig) == seq![p] + remaining(advanced(frames), ig)
            &&& entered(ig, n) ==> decide(ig, Pulled::Item(e)) == Step::Descend(e)
                && remaining(frames, ig) == seq![p] + remaining(
                advanced(frames).push(opened(frames)),
                ig,
            )
        }),
{
    lemma_remaining_after_item(frames, ig);
}

/// How many items a listing holds, at every depth.
pub open spec fn size(ns: Seq<Node>) -> nat
    decreases ns,
{
    if ns.len() == 0 {
        0
    } else {
        1 + size(ns[0].children) + size(ns.subrange(1, ns.len() as int))
    }
}

/// A bound on the steps a walk with these cursors has left.
pub open spec fn weight(frames: Seq<Frame>) -> nat
    decreases frames.len(),
{
    if frames.len() == 0 {
        0
    } else {
        2 * size(frames.last().rest) + 1 + weight(frames.drop_last())
    }
}

/// Pushing a cursor adds its weight.
pub proof fn lemma_weight_push(frames: Seq<Frame>, f: Frame)
    ensures
        weight(frames.push(f)) == 2 * size(f.rest) + 1 + weight(frames),
{
    assert(frames.push(f).drop_last() =~= frames);
}

/// The paths that a walk with these cursors surfaces from a static tree
/// until it is finished, taking every step as `advance` and `descend`
/// decide it and opening every directory it descends into.
pub open spec fn walk_out(frames: Seq<Frame>, ig: Seq<Seq<u8>>) -> Seq<Seq<Seq<u8>>>
    decreases weight(frames),
{
    if frames.len() == 0 {
        Seq::empty()
    } else if frames.last().rest.len() == 0 {
        walk_out(frames.drop_last(), ig)
    } else {
        let top = frames.last();
        let n = top.rest[0];
        let p = top.prefix.push(n.name);
        proof {
            lemma_weight_push(frames.drop_last(), advanced(frames).last());
            lemma_weight_push(advanced(frames), opened(frames));
            assert(advanced(frames) =~= frames.drop_last().push(advanced(frames).last()));
        }
        if entered(ig, n) {
            seq![p] + walk_out(advanced(frames).push(opened(frames)), ig)
        } else {
            seq![p] + walk_out(advanced(frames), ig)
        }
    }
}

/// A walk surfaces exactly what its cursors have left to list.
pub proof fn lemma_walk_out_is_remaining(frames: Seq<Frame>, ig: Seq<Seq<u8>>)
    ensures
        walk_out(frames, ig) == remaining(frames, ig),
    decreases weight(frames),
{
    if frames.len() > 0 {
        let after = advanced(frames);
        lemma_weight_push(frames.drop_last(), after.last());
        lemma_weight_push(after, opened(frames));
        assert(after =~= frames.drop_last().push(after.last()));
        if frames.last().rest.len() == 0 {
            lemma_exhausted_frame_surfaces_nothing(frames, ig);
            lemma_walk_out_is_remaining(frames.drop_last(), ig);
        } else {
            lemma_remaining_after_item(frames, ig);
            if entered(ig, frames.last().rest[0]) {
                lemma_walk_out_is_remaining(after.push(opened(frames)), ig);
            } else {
                lemma_walk_out_is_remaining(after, ig);
            }
        }
    }
}

/// A complete walk of a static tree surfaces the tree's pre-order listing,
/// which depends on the tree, the root path and the ignore patterns alone:
/// two walks of one unchanged tree with one configuration surface the same
/// paths in the same order.
pub proof fn lemma_walk_is_repeatable(
    root: Seq<Node>,
    prefix: Seq<Seq<u8>>,
    ig: Seq<Seq<u8>>,
)
    ensures
        walk_out(seq![Frame { rest: root, prefix }], ig) == listing(root, prefix, ig),
{
    lemma_walk_starts_with_whole_listing(root, prefix, ig);
    lemma_walk_out_is_remaining(seq![Frame { rest: root, prefix }], ig);
}

/// No path under a pruned directory is ever surfaced: in every path of a
/// listing, each component below the walk's root, but the last, is the name
/// of a directory that was entered, so no ignore pattern matches it. Every
/// path of the listing lies below the root.
pub proof fn lemma_pruned_contents_never_listed(ns: Seq<Node>, prefix: Seq<Seq<u8>>, ig: Seq<Seq<u8>>)
    ensures
        forall|i: int|
            0 <= i < listing(ns, prefix, ig).len() ==> {
                let q = #[trigger] listing(ns, prefix, ig)[i];
                &&& q.len() > prefix.len()
                &&& q.subrange(0, prefix.len() as int) == prefix
            },
        forall|i: int, k: int|
            0 <= i < listing(ns, prefix, ig).len() && prefix.len() <= k < listing(ns, prefix, ig)[i].len()
                - 1 ==> !pruned(ig, #[trigger] listing(ns, prefix, ig)[i][k]),
    decreases ns,
{
    if ns.len() > 0 {
        let n = ns[0];
        let p = prefix.push(n.name);
        let tail = ns.subrange(1, ns.len() as int);
        lemma_pruned_contents_never_listed(tail, prefix, ig);
        let below = if entered(ig, n) {
            lemma_pruned_contents_never_listed(n.children, p, ig);
            listing(n.children, p, ig)
        } else {
            Seq::empty()
        };
        let l = listing(ns, prefix, ig);
        let lt = listing(tail, prefix, ig);
        assert(l == seq![p] + below + lt);
        assert(p.subrange(0, prefix.len() as int) =~= prefix);
        assert forall|i: int| 0 <= i < l.len() implies {
            let q = #[trigger] l[i];
            &&& q.len() > prefix.len()
            &&& q.subrange(0, prefix.len() as int) == prefix
            &&& forall|k: int| prefix.len() <= k < q.len() - 1 ==> !pruned(ig, #[trigger] q[k])
        } by {
            let q = l[i];
            if i == 0 {
                assert(q == p);
            } else if i < 1 + below.len() {
                assert(q == below[i - 1]);
                assert(entered(ig, n));
                assert(q.subrange(0, p.len() as int) == p);
                assert(q.subrange(0, prefix.len() as int) =~= p.subrange(0, prefix.len() as int));
                assert forall|k: int| prefix.len() <= k < q.len() - 1 implies !pruned(ig, #[trigger] q[k]) by {
                    if k == prefix.len() {
                        assert(q[k] == q.subrange(0, p.len() as int)[k]);
                        assert(q[k] == n.name);
                    } else {
                        assert(listing(n.children, p, ig)[i - 1] == q);
                    }
                }
            } else {
                assert(q == lt[i - 1 - below.len()]);
            }
        }
    }
}

/// Pre-order: every surfaced path deeper than the root's own items comes
/// after the path of the directory that holds it.
pub proof fn lemma_parent_listed_first(ns: Seq<Node>, prefix: Seq<Seq<u8>>, ig: Seq<Seq<u8>>)
    ensures
        forall|i: int|
            0 <= i < listing(ns, prefix, ig).len() && #[trigger] listing(ns, prefix, ig)[i].len()
                > prefix.len() + 1 ==> exists|j: int|
                0 <= j < i && listing(ns, prefix, ig)[j] == listing(ns, prefix, ig)[i].drop_last(),
    decreases ns,
{
    if ns.len() > 0 {
        let n = ns[0];
        let p = prefix.push(n.name);
        let tail = ns.subrange(1, ns.len() as int);
        lemma_parent_listed_first(tail, prefix, ig);
        lemma_pruned_contents_never_listed(tail, prefix, ig);
        let below = if entered(ig, n) {
            lemma_parent_listed_first(n.children, p, ig);
            lemma_pruned_contents_never_listed(n.children, p, ig);
            listing(n.children, p, ig)
        } else {
            Seq::empty()
        };
        let l = listing(ns, prefix, ig);
        let lt = listing(tail, prefix, ig);
        assert(l == seq![p] + below + lt);
        assert forall|i: int| 0 <= i < l.len() && #[trigger] l[i].len() > prefix.len() + 1 implies exists|
            j: int,
        | 0 <= j < i && l[j] == l[i].drop_last() by {
            let q = l[i];
            if i == 0 {
                assert(q == p);
            } else if i < 1 + below.len() {
                assert(q == below[i - 1]);
                assert(listing(n.children, p, ig)[i - 1] == q);
                if q.len() == p.len() + 1 {
                    assert(q.subrange(0, p.len() as int) == p);
                    assert(q.drop_last() =~= p);
                    assert(l[0] == p);
                } else {
                    let j0 = choose|j: int| 0 <= j < i - 1 && below[j] == q.drop_last();
                    assert(l[j0 + 1] == below[j0]);
                }
            } else {
                let t = i - 1 - below.len();
                assert(q == lt[t]);
                let j0 = choose|j: int| 0 <= j < t && lt[j] == q.drop_last();
                assert(l[j0 + 1 + below.len()] == lt[j0]);
            }
        }
    }
}

} // verus!
