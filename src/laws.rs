use vstd::prelude::*;

use crate::confidence::Confidence;
use crate::patch::{
    apply_operation, node_move, PatchErrorKind, apply_operations, node_add, node_remove, PatchState, PropertyPatchOperation,
};
use crate::path::{is_prefix_of, is_proper_prefix_of, PathStep, PropertyPath};
use crate::property::{child, node_at, with_child, Node, Property};

verus! {

proof fn lemma_child_with_child(t: Node, s: PathStep, x: Node, y: Node)
    requires
        child(t, s) is Some,
    ensures
        child(with_child(t, s, x), s) == Some(x),
        with_child(with_child(t, s, x), s, y) == with_child(t, s, y),
        with_child(t, s, child(t, s)->Some_0) == t,
{
    match (t, s) {
        (Node::Object(m), PathStep::Key(k)) => {
            assert(m.insert(k, x).insert(k, y) =~= m.insert(k, y));
            assert(m.insert(k, m[k]) =~= m);
        },
        (Node::Array(a), PathStep::Index(i)) => {
            assert(a.update(i as int, x).update(i as int, y) =~= a.update(i as int, y));
            assert(a.update(i as int, a[i as int]) =~= a);
        },
        _ => {},
    }
}

proof fn lemma_child_other(t: Node, s: PathStep, x: Node, q: PathStep)
    requires
        child(t, s) is Some,
        q != s,
    ensures
        child(with_child(t, s, x), q) == child(t, q),
{
}

/// After a successful add, the node at the path is the added value.
pub proof fn lemma_add_then_get(t: Node, p: Seq<PathStep>, v: Node)
    requires
        node_add(t, p, v) is Ok,
    ensures
        node_at(node_add(t, p, v)->Ok_0, p) == Some(v),
    decreases p.len(),
{
    if p.len() == 1 {
        assert(p.drop_first() =~= Seq::<PathStep>::empty());
        assert(node_at(v, p.drop_first()) == Some(v));
        match (t, p[0]) {
            (Node::Array(a), PathStep::Index(i)) => {
                assert(a.insert(i as int, v)[i as int] == v);
            },
            _ => {},
        }
    } else if p.len() > 1 {
        let c = child(t, p[0])->Some_0;
        let c2 = node_add(c, p.drop_first(), v)->Ok_0;
        lemma_add_then_get(c, p.drop_first(), v);
        lemma_child_with_child(t, p[0], c2, c2);
    }
}

/// Removing fails only for want of the node.
proof fn lemma_remove_error(t: Node, p: Seq<PathStep>)
    ensures
        node_remove(t, p) is Err ==> node_remove(t, p) == Err::<Node, PatchErrorKind>(
            PatchErrorKind::PathNotFound,
        ),
    decreases p.len(),
{
    if p.len() > 1 {
        match child(t, p[0]) {
            Some(c) => lemma_remove_error(c, p.drop_first()),
            None => {},
        }
    }
}

/// Whether removing the node at `p` moves a later array element into its place.
pub open spec fn removal_shifts_successor(t: Node, p: Seq<PathStep>) -> bool {
    p.len() > 0 && match (node_at(t, p.drop_last()), p.last()) {
        (Some(Node::Array(a)), PathStep::Index(i)) => i + 1 < a.len(),
        _ => false,
    }
}

proof fn lemma_remove_then_absent(t: Node, p: Seq<PathStep>)
    requires
        node_remove(t, p) is Ok,
        !removal_shifts_successor(t, p),
    ensures
        node_at(node_remove(t, p)->Ok_0, p) is None,
    decreases p.len(),
{
    if p.len() == 1 {
        assert(p.drop_last() =~= Seq::<PathStep>::empty());
    } else if p.len() > 1 {
        let c = child(t, p[0])->Some_0;
        let c1 = node_remove(c, p.drop_first())->Ok_0;
        assert(p.drop_last()[0] == p[0]);
        assert(p.drop_last().drop_first() =~= p.drop_first().drop_last());
        lemma_remove_then_absent(c, p.drop_first());
        lemma_child_with_child(t, p[0], c1, c1);
    }
}

/// Removing a node keeps its ancestors.
proof fn lemma_remove_keeps_ancestor(t: Node, p: Seq<PathStep>, q: Seq<PathStep>)
    requires
        node_remove(t, p) is Ok,
        is_prefix_of(q, p),
        q.len() < p.len(),
    ensures
        node_at(node_remove(t, p)->Ok_0, q) is Some,
    decreases p.len(),
{
    if q.len() > 0 {
        assert(q[0] == p[0]);
        let c = child(t, p[0])->Some_0;
        let c1 = node_remove(c, p.drop_first())->Ok_0;
        assert(q.drop_first() =~= p.drop_first().subrange(0, q.len() - 1));
        lemma_remove_keeps_ancestor(c, p.drop_first(), q.drop_first());
        lemma_child_with_child(t, p[0], c1, c1);
    }
}

/// Removing a node that was just added to an empty place undoes the add.
proof fn lemma_remove_after_add(s: Seq<PathStep>, t: Node, v: Node)
    requires
        node_at(t, s) is None,
        node_add(t, s, v) is Ok,
    ensures
        node_remove(node_add(t, s, v)->Ok_0, s) == Ok::<Node, PatchErrorKind>(t),
    decreases s.len(),
{
    if s.len() == 1 {
        assert(s.drop_first() =~= Seq::<PathStep>::empty());
        match (t, s[0]) {
            (Node::Object(m), PathStep::Key(k)) => {
                assert(m.insert(k, v).remove(k) =~= m);
            },
            (Node::Array(a), PathStep::Index(i)) => {
                assert(a.insert(i as int, v).remove(i as int) =~= a);
            },
            _ => {},
        }
    } else if s.len() > 1 {
        let c = child(t, s[0])->Some_0;
        let c2 = node_add(c, s.drop_first(), v)->Ok_0;
        lemma_remove_after_add(s.drop_first(), c, v);
        lemma_child_with_child(t, s[0], c2, c);
    }
}

/// Putting a removed node back where it was restores the tree.
proof fn lemma_add_after_remove(t: Node, p: Seq<PathStep>)
    requires
        node_remove(t, p) is Ok,
    ensures
        node_add(node_remove(t, p)->Ok_0, p, node_at(t, p)->Some_0) == Ok::<Node, PatchErrorKind>(
            t,
        ),
        node_at(t, p) is Some,
    decreases p.len(),
{
    if p.len() == 1 {
        assert(p.drop_first() =~= Seq::<PathStep>::empty());
        match (t, p[0]) {
            (Node::Object(m), PathStep::Key(k)) => {
                assert(m.remove(k).insert(k, m[k]) =~= m);
            },
            (Node::Array(a), PathStep::Index(i)) => {
                assert(a.remove(i as int).insert(i as int, a[i as int]) =~= a);
            },
            _ => {},
        }
    } else if p.len() > 1 {
        let c = child(t, p[0])->Some_0;
        let c1 = node_remove(c, p.drop_first())->Ok_0;
        lemma_add_after_remove(c, p.drop_first());
        lemma_child_with_child(t, p[0], c1, c);
    }
}

/// Whether putting a node at `to` leaves the node at `from` where it is:
/// `to` is `from` itself, or neither lies within the other and `to` is not
/// an array position at or before `from`'s position in the same array.
pub open spec fn destination_spares_source(from: Seq<PathStep>, to: Seq<PathStep>) -> bool
    decreases from.len(),
{
    if from.len() == 0 || to.len() == 0 {
        from == to
    } else if from[0] == to[0] {
        destination_spares_source(from.drop_first(), to.drop_first())
    } else {
        !(to.len() == 1 && match (from[0], to[0]) {
            (PathStep::Index(i), PathStep::Index(j)) => j <= i,
            _ => false,
        })
    }
}

proof fn lemma_add_spares(t: Node, from: Seq<PathStep>, to: Seq<PathStep>, v: Node)
    requires
        node_at(t, from) == Some(v),
        node_add(t, to, v) is Ok,
        destination_spares_source(from, to),
    ensures
        node_at(node_add(t, to, v)->Ok_0, from) == Some(v),
    decreases from.len(),
{
    if from =~= to {
        lemma_add_then_get(t, to, v);
    } else {
        assert(from.len() > 0 && to.len() > 0);
        if from[0] == to[0] {
            let c = child(t, to[0])->Some_0;
            if to.len() == 1 || from.len() == 1 {
                reveal_with_fuel(destination_spares_source, 2);
                assert(from.drop_first() =~= to.drop_first());
                assert(from =~= to);
            }
            let c2 = node_add(c, to.drop_first(), v)->Ok_0;
            lemma_add_spares(c, from.drop_first(), to.drop_first(), v);
            lemma_child_with_child(t, to[0], c2, c2);
        } else if to.len() == 1 {
            match (t, to[0], from[0]) {
                (Node::Array(a), PathStep::Index(j), PathStep::Index(i)) => {
                    assert(a.insert(j as int, v)[i as int] == a[i as int]);
                },
                _ => {},
            }
        } else {
            let c = child(t, to[0])->Some_0;
            let c2 = node_add(c, to.drop_first(), v)->Ok_0;
            lemma_child_other(t, to[0], c2, from[0]);
        }
    }
}

/// Two operations in a row.
proof fn lemma_two_operations(st: PatchState, o1: PropertyPatchOperation, o2: PropertyPatchOperation)
    ensures
        apply_operations(st, seq![o1, o2]) == match apply_operation(st, o1) {
            Ok(s1) => match apply_operation(s1, o2) {
                Ok(s2) => Ok(s2),
                Err(k) => Err((1int, k)),
            },
            Err(k) => Err((0int, k)),
        },
{
    let ops = seq![o1, o2];
    assert(ops.subrange(0, 1).subrange(0, 0) =~= Seq::<PropertyPatchOperation>::empty());
    assert(ops.subrange(0, 1) =~= seq![o1]);
    assert(apply_operations(st, ops.subrange(0, 1).subrange(0, 0)) == Ok::<
        PatchState,
        (int, PatchErrorKind),
    >(st));
    assert(ops.subrange(0, 1)[0] == o1);
    assert(ops[1] == o2);
    assert(apply_operations(st, ops.subrange(0, 1)) == match apply_operation(st, o1) {
        Ok(s1) => Ok(s1),
        Err(k) => Err((0int, k)),
    });
}

/// An add followed by a test of the same value at the same path succeeds,
/// and the test changes nothing.
pub proof fn law_add_then_test(
    st: PatchState,
    path: PropertyPath,
    value: Property,
    confidence: Option<Confidence>,
)
    requires
        apply_operation(st, PropertyPatchOperation::Add { path, value, confidence }) is Ok,
    ensures
        apply_operation(st, PropertyPatchOperation::Add { path, value, confidence }) matches Ok(st1)
            && apply_operations(
            st,
            seq![
                PropertyPatchOperation::Add { path, value, confidence },
                PropertyPatchOperation::Test { path, value },
            ],
        ) == Ok::<PatchState, (int, PatchErrorKind)>(st1),
{
    lemma_two_operations(
        st,
        PropertyPatchOperation::Add { path, value, confidence },
        PropertyPatchOperation::Test { path, value },
    );
    lemma_add_then_get(st.0, path@, value@);
}

/// A removal followed by a test at the same path fails with `PathNotFound`,
/// unless the removal moved a later array element into that path.
pub proof fn law_remove_then_test(st: PatchState, path: PropertyPath, value: Property)
    requires
        !removal_shifts_successor(st.0, path@),
    ensures
        apply_operations(
            st,
            seq![
                PropertyPatchOperation::Remove { path },
                PropertyPatchOperation::Test { path, value },
            ],
        ) matches Err((_, k)) && k == PatchErrorKind::PathNotFound,
{
    lemma_two_operations(
        st,
        PropertyPatchOperation::Remove { path },
        PropertyPatchOperation::Test { path, value },
    );
    lemma_remove_error(st.0, path@);
    if node_remove(st.0, path@) is Ok {
        lemma_remove_then_absent(st.0, path@);
    }
}

/// Moving a node to a place that was empty and then moving it back restores
/// the tree.
pub proof fn law_move_round_trip(
    st: PatchState,
    a: PropertyPath,
    b: PropertyPath,
    there: Option<Confidence>,
    back: Option<Confidence>,
)
    requires
        apply_operation(st, PropertyPatchOperation::Move { from: a, path: b, confidence: there })
            is Ok,
        node_at(node_remove(st.0, a@)->Ok_0, b@) is None,
    ensures
        apply_operations(
            st,
            seq![
                PropertyPatchOperation::Move { from: a, path: b, confidence: there },
                PropertyPatchOperation::Move { from: b, path: a, confidence: back },
            ],
        ) matches Ok(st2) && st2.0 == st.0,
{
    let t = st.0;
    lemma_two_operations(
        st,
        PropertyPatchOperation::Move { from: a, path: b, confidence: there },
        PropertyPatchOperation::Move { from: b, path: a, confidence: back },
    );
    let v = node_at(t, a@)->Some_0;
    let t1 = node_remove(t, a@)->Ok_0;
    let t2 = node_add(t1, b@, v)->Ok_0;
    lemma_add_then_get(t1, b@, v);
    if is_proper_prefix_of(b@, a@) {
        lemma_remove_keeps_ancestor(t, a@, b@);
    }
    lemma_remove_after_add(b@, t1, v);
    lemma_add_after_remove(t, a@);
}

/// Whether the node at the parent of `p` can take a node at `p`: an object
/// with `p` ending in a key, or an array with `p` ending in a position at
/// most its length.
pub open spec fn parent_accepts(t: Node, p: Seq<PathStep>) -> bool {
    p.len() > 0 && match (node_at(t, p.drop_last()), p.last()) {
        (Some(Node::Object(_)), PathStep::Key(_)) => true,
        (Some(Node::Array(a)), PathStep::Index(i)) => i <= a.len(),
        _ => false,
    }
}

/// An add succeeds wherever the parent of its path takes the node.
pub proof fn lemma_add_succeeds(t: Node, p: Seq<PathStep>, v: Node)
    requires
        parent_accepts(t, p),
    ensures
        node_add(t, p, v) is Ok,
    decreases p.len(),
{
    if p.len() == 1 {
        assert(p.drop_last() =~= Seq::<PathStep>::empty());
    } else {
        assert(p.drop_last()[0] == p[0]);
        assert(p.drop_last().drop_first() =~= p.drop_first().drop_last());
        lemma_add_succeeds(child(t, p[0])->Some_0, p.drop_first(), v);
    }
}

/// Two paths of which neither lies within the other, the destination
/// ending in a key, spare each other.
proof fn lemma_apart_spares(from: Seq<PathStep>, to: Seq<PathStep>)
    requires
        !is_prefix_of(from, to),
        !is_prefix_of(to, from),
        to.len() > 0,
        to.last() is Key,
    ensures
        destination_spares_source(from, to),
    decreases from.len(),
{
    if from.len() == 0 {
        assert(to.subrange(0, 0) =~= from);
    } else if from[0] == to[0] {
        let f = from.drop_first();
        let d = to.drop_first();
        if d.len() == 0 {
            assert(from.subrange(0, 1) =~= to);
        } else {
            if is_prefix_of(f, d) {
                assert forall|k: int| 0 <= k < from.len() implies to[k] == from[k] by {
                    if k > 0 {
                        assert(d.subrange(0, f.len() as int)[k - 1] == f[k - 1]);
                    }
                }
                assert(to.subrange(0, from.len() as int) =~= from);
            }
            if is_prefix_of(d, f) {
                assert forall|k: int| 0 <= k < to.len() implies from[k] == to[k] by {
                    if k > 0 {
                        assert(f.subrange(0, d.len() as int)[k - 1] == d[k - 1]);
                    }
                }
                assert(from.subrange(0, to.len() as int) =~= to);
            }
            assert(d.last() == to.last());
            lemma_apart_spares(f, d);
        }
    }
}

/// A copy of an existing node to a place whose parent takes it succeeds and
/// puts an equal node there. The source stays as it was wherever the
/// destination spares it, in particular where neither path lies within the
/// other and the destination ends in a key.
pub proof fn law_copy_keeps_source(
    st: PatchState,
    from: PropertyPath,
    to: PropertyPath,
    confidence: Option<Confidence>,
)
    requires
        node_at(st.0, from@) is Some,
        parent_accepts(st.0, to@),
    ensures
        apply_operation(st, PropertyPatchOperation::Copy { from, path: to, confidence }) matches Ok(
            st2,
        ) && node_at(st2.0, to@) == node_at(st.0, from@) && (destination_spares_source(
            from@,
            to@,
        ) ==> node_at(st2.0, from@) == node_at(st.0, from@)),
        !is_prefix_of(from@, to@) && !is_prefix_of(to@, from@) && to@.last() is Key ==> (apply_operation(
            st,
            PropertyPatchOperation::Copy { from, path: to, confidence },
        ) matches Ok(st2) && node_at(st2.0, from@) == node_at(st.0, from@)),
{
    let v = node_at(st.0, from@)->Some_0;
    lemma_add_succeeds(st.0, to@, v);
    lemma_add_then_get(st.0, to@, v);
    if !is_prefix_of(from@, to@) && !is_prefix_of(to@, from@) && to@.last() is Key {
        lemma_apart_spares(from@, to@);
    }
    if destination_spares_source(from@, to@) {
        lemma_add_spares(st.0, from@, to@, v);
    }
}

/// A node that exists, other than the root, can be removed.
proof fn lemma_remove_existing(t: Node, p: Seq<PathStep>)
    requires
        node_at(t, p) is Some,
        p.len() > 0,
    ensures
        node_remove(t, p) is Ok,
    decreases p.len(),
{
    if p.len() > 1 {
        lemma_remove_existing(child(t, p[0])->Some_0, p.drop_first());
    }
}

/// Moving an existing node onto itself leaves the tree as it was.
pub proof fn law_move_onto_itself(t: Node, p: Seq<PathStep>)
    requires
        node_at(t, p) is Some,
        p.len() > 0,
    ensures
        node_move(t, p, p) == Ok::<Node, PatchErrorKind>(t),
{
    lemma_remove_existing(t, p);
    lemma_add_after_remove(t, p);
}

/// Removing an object entry leaves every path outside its subtree as
/// absent as it was, and every object there an object.
proof fn lemma_remove_key_elsewhere(t: Node, a: Seq<PathStep>, q: Seq<PathStep>)
    requires
        node_remove(t, a) is Ok,
        a.len() > 0,
        a.last() is Key,
        !is_prefix_of(a, q),
    ensures
        node_at(t, q) is None ==> node_at(node_remove(t, a)->Ok_0, q) is None,
        node_at(t, q) matches Some(Node::Object(_)) ==> node_at(node_remove(t, a)->Ok_0, q) matches Some(
            Node::Object(_),
        ),
    decreases a.len(),
{
    let t1 = node_remove(t, a)->Ok_0;
    if q.len() == 0 {
        assert(q.subrange(0, 0) =~= q);
    } else if a.len() == 1 {
        if q[0] == a[0] {
            assert(q.subrange(0, 1) =~= a);
        }
        assert(child(t1, q[0]) == child(t, q[0]));
    } else {
        let c = child(t, a[0])->Some_0;
        let c1 = node_remove(c, a.drop_first())->Ok_0;
        if q[0] != a[0] {
            lemma_child_other(t, a[0], c1, q[0]);
        } else {
            lemma_child_with_child(t, a[0], c1, c1);
            if is_prefix_of(a.drop_first(), q.drop_first()) {
                assert forall|k: int| 0 <= k < a.len() implies q[k] == a[k] by {
                    if k > 0 {
                        assert(q.drop_first().subrange(0, a.len() - 1)[k - 1] == a.drop_first()[k
                            - 1]);
                    }
                }
                assert(q.subrange(0, a.len() as int) =~= a);
            }
            lemma_remove_key_elsewhere(c, a.drop_first(), q.drop_first());
        }
    }
}

/// Moving an object entry to an absent key of an object outside its
/// subtree, and then back, restores the tree.
pub proof fn law_move_round_trip_apart(
    st: PatchState,
    a: PropertyPath,
    b: PropertyPath,
    there: Option<Confidence>,
    back: Option<Confidence>,
)
    requires
        node_at(st.0, a@) is Some,
        node_at(st.0, b@) is None,
        !is_prefix_of(a@, b@),
        parent_accepts(st.0, b@),
        a@.last() is Key,
        b@.last() is Key,
    ensures
        apply_operations(
            st,
            seq![
                PropertyPatchOperation::Move { from: a, path: b, confidence: there },
                PropertyPatchOperation::Move { from: b, path: a, confidence: back },
            ],
        ) matches Ok(st2) && st2.0 == st.0,
{
    let t = st.0;
    if a@.len() == 0 {
        assert(b@.subrange(0, 0) =~= a@);
    }
    lemma_remove_existing(t, a@);
    let t1 = node_remove(t, a@)->Ok_0;
    let v = node_at(t, a@)->Some_0;
    lemma_remove_key_elsewhere(t, a@, b@);
    let parent = b@.drop_last();
    if is_prefix_of(a@, parent) {
        assert(b@.subrange(0, a@.len() as int) =~= parent.subrange(0, a@.len() as int));
    }
    lemma_remove_key_elsewhere(t, a@, parent);
    lemma_add_succeeds(t1, b@, v);
    law_move_round_trip(st, a, b, there, back);
}

} // verus!
