use vstd::prelude::*;

use crate::confidence::{with_confidence, Confidence, PropertyConfidence};
use crate::path::{is_proper_prefix_of, PathStep, PropertyPath, PropertyPathElement};
use crate::property::{
    child, find_key, lemma_last_index, lemma_map_of_push, lemma_map_of_update,
    lemma_nodes_of, map_of, node_at, nodes_of, with_child, Node, Property, PropertyEntry,
    PropertyObject,
};

verus! {

pub open spec fn result_node(r: Result<Property, PatchErrorKind>) -> Result<Node, PatchErrorKind> {
    match r {
        Ok(p) => Ok(p@),
        Err(e) => Err(e),
    }
}

/// Why one operation of a patch could not be applied.
#[derive(Debug, Clone, Copy, PartialEq, Eq, Structural)]
pub enum PatchErrorKind {
    PathNotFound,
    TestFailed,
    CycleDetected,
    InvalidIndex,
}

/// The tree after `v` is put at `p`: an object key is set (overwriting), an
/// array position at most the length inserts (the length appends).
pub open spec fn node_add(t: Node, p: Seq<PathStep>, v: Node) -> Result<Node, PatchErrorKind>
    decreases p.len(),
{
    if p.len() == 0 {
        Ok(v)
    } else if p.len() == 1 {
        match (t, p[0]) {
            (Node::Object(m), PathStep::Key(k)) => Ok(Node::Object(m.insert(k, v))),
            (Node::Array(a), PathStep::Index(i)) => if i <= a.len() {
                Ok(Node::Array(a.insert(i as int, v)))
            } else {
                Err(PatchErrorKind::InvalidIndex)
            },
            _ => Err(PatchErrorKind::PathNotFound),
        }
    } else {
        match child(t, p[0]) {
            Some(c) => match node_add(c, p.drop_first(), v) {
                Ok(c2) => Ok(with_child(t, p[0], c2)),
                Err(e) => Err(e),
            },
            None => Err(PatchErrorKind::PathNotFound),
        }
    }
}

/// The tree without the node at `p`; the root cannot be removed.
pub open spec fn node_remove(t: Node, p: Seq<PathStep>) -> Result<Node, PatchErrorKind>
    decreases p.len(),
{
    if p.len() == 0 {
        Err(PatchErrorKind::PathNotFound)
    } else if p.len() == 1 {
        match (t, p[0]) {
            (Node::Object(m), PathStep::Key(k)) => if m.contains_key(k) {
                Ok(Node::Object(m.remove(k)))
            } else {
                Err(PatchErrorKind::PathNotFound)
            },
            (Node::Array(a), PathStep::Index(i)) => if i < a.len() {
                Ok(Node::Array(a.remove(i as int)))
            } else {
                Err(PatchErrorKind::PathNotFound)
            },
            _ => Err(PatchErrorKind::PathNotFound),
        }
    } else {
        match child(t, p[0]) {
            Some(c) => match node_remove(c, p.drop_first()) {
                Ok(c2) => Ok(with_child(t, p[0], c2)),
                Err(e) => Err(e),
            },
            None => Err(PatchErrorKind::PathNotFound),
        }
    }
}

/// The tree with the existing node at `p` overwritten by `v`.
pub open spec fn node_replace(t: Node, p: Seq<PathStep>, v: Node) -> Result<Node, PatchErrorKind>
    decreases p.len(),
{
    if p.len() == 0 {
        Ok(v)
    } else {
        match child(t, p[0]) {
            Some(c) => match node_replace(c, p.drop_first(), v) {
                Ok(c2) => Ok(with_child(t, p[0], c2)),
                Err(e) => Err(e),
            },
            None => Err(PatchErrorKind::PathNotFound),
        }
    }
}

pub proof fn lemma_path_step(p: Seq<PathStep>, d: int)
    requires
        0 <= d < p.len(),
    ensures
        p.subrange(d, p.len() as int).len() == p.len() - d,
        p.subrange(d, p.len() as int)[0] == p[d],
        p.subrange(d, p.len() as int).drop_first() =~= p.subrange(d + 1, p.len() as int),
{
}

proof fn lemma_path_elements(path: &PropertyPath, d: int)
    requires
        0 <= d < path.elements@.len(),
    ensures
        path@.len() == path.elements@.len(),
        path@[d] == path.elements@[d]@,
{
}

/// Removes every entry with `key`.
fn without_key(entries: Vec<PropertyEntry>, key: &String) -> (r: Vec<PropertyEntry>)
    ensures
        map_of(r@) == map_of(entries@).remove(key@),
{
    let ghost s = entries@;
    let mut rest = entries;
    let mut out: Vec<PropertyEntry> = Vec::new();
    assert(s.subrange(0, 0) =~= Seq::<PropertyEntry>::empty());
    assert(s.subrange(0, s.len() as int) =~= s);
    assert(map_of(out@) =~= map_of(s.subrange(0, 0)).remove(key@));
    while rest.len() > 0
        invariant
            rest@.len() <= s.len(),
            rest@ == s.subrange(s.len() - rest@.len(), s.len() as int),
            map_of(out@) == map_of(s.subrange(0, s.len() - rest@.len())).remove(key@),
        decreases rest.len(),
    {
        let ghost i = s.len() - rest@.len();
        let e = rest.remove(0);
        proof {
            assert(e == s[i]);
            lemma_map_of_push(s.subrange(0, i), s[i]);
            assert(s.subrange(0, i).push(s[i]) =~= s.subrange(0, i + 1));
            assert(rest@ =~= s.subrange(i + 1, s.len() as int));
        }
        if !e.key.eq(key) {
            proof {
                lemma_map_of_push(out@, e);
            }
            out.push(e);
            assert(map_of(out@) =~= map_of(s.subrange(0, i + 1)).remove(key@));
        } else {
            assert(map_of(out@) =~= map_of(s.subrange(0, i + 1)).remove(key@));
        }
    }
    out
}

/// Puts `v` at `path` (from step `d` on) in `t`.
fn add_node(t: Property, path: &PropertyPath, d: usize, v: Property) -> (r: Result<
    Property,
    PatchErrorKind,
>)
    requires
        d <= path@.len(),
    ensures
        result_node(r) == node_add(t@, path@.subrange(d as int, path@.len() as int), v@),
    decreases path@.len() - d,
{
    if d == path.elements.len() {
        assert(path@.subrange(d as int, path@.len() as int) =~= Seq::<PathStep>::empty());
        return Ok(v);
    }
    proof {
        lemma_path_step(path@, d as int);
        lemma_path_elements(path, d as int);
    }
    let last = d + 1 == path.elements.len();
    match (t, &path.elements[d]) {
        (Property::Object(o), PropertyPathElement::Property(k)) => {
            let mut entries = o.entries;
            proof {
                lemma_last_index(entries@, k@);
            }
            let found = find_key(&entries, k);
            if last {
                match found {
                    Some(i) => {
                        let e = entries.remove(i);
                        let e2 = PropertyEntry { key: e.key, value: v };
                        entries.insert(i, e2);
                        proof {
                            assert(entries@ =~= o.entries@.update(i as int, e2));
                            lemma_map_of_update(o.entries@, i as int, e2);
                        }
                    },
                    None => {
                        let e2 = PropertyEntry { key: k.clone(), value: v };
                        proof {
                            lemma_map_of_push(entries@, e2);
                        }
                        entries.push(e2);
                    },
                }
                Ok(Property::Object(PropertyObject { entries }))
            } else {
                match found {
                    Some(i) => {
                        let e = entries.remove(i);
                        let PropertyEntry { key, value } = e;
                        match add_node(value, path, d + 1, v) {
                            Ok(c) => {
                                let e2 = PropertyEntry { key, value: c };
                                entries.insert(i, e2);
                                proof {
                                    assert(entries@ =~= o.entries@.update(i as int, e2));
                                    lemma_map_of_update(o.entries@, i as int, e2);
                                }
                                Ok(Property::Object(PropertyObject { entries }))
                            },
                            Err(x) => Err(x),
                        }
                    },
                    None => Err(PatchErrorKind::PathNotFound),
                }
            }
        },
        (Property::Array(a), PropertyPathElement::Index(i)) => {
            let i = *i;
            let mut a = a;
            let ghost a0 = a@;
            proof {
                lemma_nodes_of(a0);
            }
            if last {
                if i <= a.len() {
                    a.insert(i, v);
                    proof {
                        lemma_nodes_of(a@);
                        assert(nodes_of(a@) =~= nodes_of(a0).insert(i as int, v@));
                    }
                    Ok(Property::Array(a))
                } else {
                    Err(PatchErrorKind::InvalidIndex)
                }
            } else if i < a.len() {
                let c = a.remove(i);
                match add_node(c, path, d + 1, v) {
                    Ok(c2) => {
                        a.insert(i, c2);
                        proof {
                            lemma_nodes_of(a@);
                            assert(nodes_of(a@) =~= nodes_of(a0).update(i as int, c2@));
                        }
                        Ok(Property::Array(a))
                    },
                    Err(x) => Err(x),
                }
            } else {
                Err(PatchErrorKind::PathNotFound)
            }
        },
        _ => Err(PatchErrorKind::PathNotFound),
    }
}


/// Takes the node at `path` (from step `d` on) out of `t`.
fn remove_node(t: Property, path: &PropertyPath, d: usize) -> (r: Result<Property, PatchErrorKind>)
    requires
        d <= path@.len(),
    ensures
        result_node(r) == node_remove(t@, path@.subrange(d as int, path@.len() as int)),
    decreases path@.len() - d,
{
    if d == path.elements.len() {
        assert(path@.subrange(d as int, path@.len() as int) =~= Seq::<PathStep>::empty());
        return Err(PatchErrorKind::PathNotFound);
    }
    proof {
        lemma_path_step(path@, d as int);
        lemma_path_elements(path, d as int);
    }
    let last = d + 1 == path.elements.len();
    match (t, &path.elements[d]) {
        (Property::Object(o), PropertyPathElement::Property(k)) => {
            let mut entries = o.entries;
            proof {
                lemma_last_index(entries@, k@);
            }
            let found = find_key(&entries, k);
            match found {
                Some(i) => {
                    if last {
                        let entries = without_key(entries, k);
                        Ok(Property::Object(PropertyObject { entries }))
                    } else {
                        let e = entries.remove(i);
                        let PropertyEntry { key, value } = e;
                        match remove_node(value, path, d + 1) {
                            Ok(c) => {
                                let e2 = PropertyEntry { key, value: c };
                                entries.insert(i, e2);
                                proof {
                                    assert(entries@ =~= o.entries@.update(i as int, e2));
                                    lemma_map_of_update(o.entries@, i as int, e2);
                                }
                                Ok(Property::Object(PropertyObject { entries }))
                            },
                            Err(x) => Err(x),
                        }
                    }
                },
                None => Err(PatchErrorKind::PathNotFound),
            }
        },
        (Property::Array(a), PropertyPathElement::Index(i)) => {
            let i = *i;
            let mut a = a;
            let ghost a0 = a@;
            proof {
                lemma_nodes_of(a0);
            }
            if i < a.len() {
                let c = a.remove(i);
                if last {
                    proof {
                        lemma_nodes_of(a@);
                        assert(nodes_of(a@) =~= nodes_of(a0).remove(i as int));
                    }
                    Ok(Property::Array(a))
                } else {
                    match remove_node(c, path, d + 1) {
                        Ok(c2) => {
                            a.insert(i, c2);
                            proof {
                                lemma_nodes_of(a@);
                                assert(nodes_of(a@) =~= nodes_of(a0).update(i as int, c2@));
                            }
                            Ok(Property::Array(a))
                        },
                        Err(x) => Err(x),
                    }
                }
            } else {
                Err(PatchErrorKind::PathNotFound)
            }
        },
        _ => Err(PatchErrorKind::PathNotFound),
    }
}

/// Overwrites the existing node at `path` (from step `d` on) in `t` with `v`.
fn replace_node(t: Property, path: &PropertyPath, d: usize, v: Property) -> (r: Result<
    Property,
    PatchErrorKind,
>)
    requires
        d <= path@.len(),
    ensures
        result_node(r) == node_replace(t@, path@.subrange(d as int, path@.len() as int), v@),
    decreases path@.len() - d,
{
    if d == path.elements.len() {
        assert(path@.subrange(d as int, path@.len() as int) =~= Seq::<PathStep>::empty());
        return Ok(v);
    }
    proof {
        lemma_path_step(path@, d as int);
        lemma_path_elements(path, d as int);
    }
    match (t, &path.elements[d]) {
        (Property::Object(o), PropertyPathElement::Property(k)) => {
            let mut entries = o.entries;
            proof {
                lemma_last_index(entries@, k@);
            }
            match find_key(&entries, k) {
                Some(i) => {
                    let e = entries.remove(i);
                    let PropertyEntry { key, value } = e;
                    match replace_node(value, path, d + 1, v) {
                        Ok(c) => {
                            let e2 = PropertyEntry { key, value: c };
                            entries.insert(i, e2);
                            proof {
                                assert(entries@ =~= o.entries@.update(i as int, e2));
                                lemma_map_of_update(o.entries@, i as int, e2);
                            }
                            Ok(Property::Object(PropertyObject { entries }))
                        },
                        Err(x) => Err(x),
                    }
                },
                None => Err(PatchErrorKind::PathNotFound),
            }
        },
        (Property::Array(a), PropertyPathElement::Index(i)) => {
            let i = *i;
            let mut a = a;
            let ghost a0 = a@;
            proof {
                lemma_nodes_of(a0);
            }
            if i < a.len() {
                let c = a.remove(i);
                match replace_node(c, path, d + 1, v) {
                    Ok(c2) => {
                        a.insert(i, c2);
                        proof {
                            lemma_nodes_of(a@);
                            assert(nodes_of(a@) =~= nodes_of(a0).update(i as int, c2@));
                        }
                        Ok(Property::Array(a))
                    },
                    Err(x) => Err(x),
                }
            } else {
                Err(PatchErrorKind::PathNotFound)
            }
        },
        _ => Err(PatchErrorKind::PathNotFound),
    }
}


/// Only a test fails a test: the editing operations fail for other reasons.
proof fn lemma_edits_never_test(t: Node, p: Seq<PathStep>, v: Node)
    ensures
        node_add(t, p, v) != Err::<Node, PatchErrorKind>(PatchErrorKind::TestFailed),
        node_remove(t, p) != Err::<Node, PatchErrorKind>(PatchErrorKind::TestFailed),
        node_replace(t, p, v) != Err::<Node, PatchErrorKind>(PatchErrorKind::TestFailed),
    decreases p.len(),
{
    if p.len() > 0 {
        match child(t, p[0]) {
            Some(c) => lemma_edits_never_test(c, p.drop_first(), v),
            None => {},
        }
    }
}

/// One edit of a property tree.
#[derive(Debug)]
pub enum PropertyPatchOperation {
    Add { path: PropertyPath, value: Property, confidence: Option<Confidence> },
    Remove { path: PropertyPath },
    Replace { path: PropertyPath, value: Property, confidence: Option<Confidence> },
    Move { from: PropertyPath, path: PropertyPath, confidence: Option<Confidence> },
    Copy { from: PropertyPath, path: PropertyPath, confidence: Option<Confidence> },
    Test { path: PropertyPath, value: Property },
}

/// The operation that failed in a patch, where, and why.
#[derive(Debug)]
pub struct PatchError {
    pub index: usize,
    pub path: PropertyPath,
    pub kind: PatchErrorKind,
    /// For a failed test, the node that was found in place of the expected one.
    pub actual: Option<Property>,
}

/// The tree and the confidence map that a patch works on.
pub type PatchState = (Node, Map<Seq<PathStep>, nat>);

/// The tree after the node at `from` is moved to `to`. Moving a node into
/// its own subtree is refused; moving it onto itself leaves it in place.
pub open spec fn node_move(t: Node, from: Seq<PathStep>, to: Seq<PathStep>) -> Result<
    Node,
    PatchErrorKind,
> {
    match node_at(t, from) {
        None => Err(PatchErrorKind::PathNotFound),
        Some(v) => if is_proper_prefix_of(from, to) {
            Err(PatchErrorKind::CycleDetected)
        } else {
            match node_remove(t, from) {
                Ok(t1) => node_add(t1, to, v),
                Err(e) => Err(e),
            }
        },
    }
}

/// The tree after the node at `from` is copied to `to`.
pub open spec fn node_copy(t: Node, from: Seq<PathStep>, to: Seq<PathStep>) -> Result<
    Node,
    PatchErrorKind,
> {
    match node_at(t, from) {
        None => Err(PatchErrorKind::PathNotFound),
        Some(v) => node_add(t, to, v),
    }
}

/// The tree itself if the node at `p` equals `v`.
pub open spec fn node_test(t: Node, p: Seq<PathStep>, v: Node) -> Result<Node, PatchErrorKind> {
    match node_at(t, p) {
        None => Err(PatchErrorKind::PathNotFound),
        Some(x) => if x == v {
            Ok(t)
        } else {
            Err(PatchErrorKind::TestFailed)
        },
    }
}

/// The path that an operation acts on (the destination of a move or copy).
pub open spec fn op_path(op: PropertyPatchOperation) -> Seq<PathStep> {
    match op {
        PropertyPatchOperation::Add { path, .. } => path@,
        PropertyPatchOperation::Remove { path } => path@,
        PropertyPatchOperation::Replace { path, .. } => path@,
        PropertyPatchOperation::Move { path, .. } => path@,
        PropertyPatchOperation::Copy { path, .. } => path@,
        PropertyPatchOperation::Test { path, .. } => path@,
    }
}

/// One operation on a tree and its confidence map. Where an operation puts
/// a node, the score it carries is recorded at the destination, and without
/// one the destination's score is cleared; a score never travels with a
/// moved or copied node. Removing or moving a node clears the score at its
/// old path.
pub open spec fn apply_operation(st: PatchState, op: PropertyPatchOperation) -> Result<
    PatchState,
    PatchErrorKind,
> {
    let (t, c) = st;
    match op {
        PropertyPatchOperation::Add { path, value, confidence } => match node_add(
            t,
            path@,
            value@,
        ) {
            Ok(t2) => Ok((t2, with_confidence(c, path@, confidence))),
            Err(e) => Err(e),
        },
        PropertyPatchOperation::Remove { path } => match node_remove(t, path@) {
            Ok(t2) => Ok((t2, c.remove(path@))),
            Err(e) => Err(e),
        },
        PropertyPatchOperation::Replace { path, value, confidence } => match node_replace(
            t,
            path@,
            value@,
        ) {
            Ok(t2) => Ok((t2, with_confidence(c, path@, confidence))),
            Err(e) => Err(e),
        },
        PropertyPatchOperation::Move { from, path, confidence } => match node_move(
            t,
            from@,
            path@,
        ) {
            Ok(t2) => Ok((t2, with_confidence(c.remove(from@), path@, confidence))),
            Err(e) => Err(e),
        },
        PropertyPatchOperation::Copy { from, path, confidence } => match node_copy(
            t,
            from@,
            path@,
        ) {
            Ok(t2) => Ok((t2, with_confidence(c, path@, confidence))),
            Err(e) => Err(e),
        },
        PropertyPatchOperation::Test { path, value } => match node_test(t, path@, value@) {
            Ok(t2) => Ok((t2, c)),
            Err(e) => Err(e),
        },
    }
}

/// The operations applied in order, each to the result of the ones before;
/// the first failure gives its position and kind.
pub open spec fn apply_operations(st: PatchState, ops: Seq<PropertyPatchOperation>) -> Result<
    PatchState,
    (int, PatchErrorKind),
>
    decreases ops.len(),
{
    if ops.len() == 0 {
        Ok(st)
    } else {
        match apply_operations(st, ops.subrange(0, ops.len() - 1)) {
            Ok(st1) => match apply_operation(st1, ops[ops.len() - 1]) {
                Ok(st2) => Ok(st2),
                Err(k) => Err((ops.len() - 1, k)),
            },
            Err(e) => Err(e),
        }
    }
}

proof fn lemma_apply_prefix_err(st: PatchState, ops: Seq<PropertyPatchOperation>, n: int)
    requires
        0 <= n <= ops.len(),
        apply_operations(st, ops.subrange(0, n)) is Err,
    ensures
        apply_operations(st, ops) == apply_operations(st, ops.subrange(0, n)),
    decreases ops.len() - n,
{
    if n == ops.len() {
        assert(ops.subrange(0, n) =~= ops);
    } else {
        let s = ops.subrange(0, ops.len() - 1);
        assert(s.subrange(0, n) =~= ops.subrange(0, n));
        lemma_apply_prefix_err(st, s, n);
    }
}

impl PropertyPatchOperation {
    pub fn path(&self) -> (r: &PropertyPath)
        ensures
            r@ == op_path(*self),
    {
        match self {
            PropertyPatchOperation::Add { path, .. } => path,
            PropertyPatchOperation::Remove { path } => path,
            PropertyPatchOperation::Replace { path, .. } => path,
            PropertyPatchOperation::Move { path, .. } => path,
            PropertyPatchOperation::Copy { path, .. } => path,
            PropertyPatchOperation::Test { path, .. } => path,
        }
    }
}

/// Applies one operation to `t` and the confidence map `c`.
fn apply_operation_to(t: Property, c: &mut PropertyConfidence, op: &PropertyPatchOperation) -> (r:
    Result<Property, (PatchErrorKind, Option<Property>)>)
    ensures
        match apply_operation((t@, old(c)@), *op) {
            Ok(st) => r matches Ok(t2) && t2@ == st.0 && final(c)@ == st.1,
            Err(k) => r matches Err((k2, a)) && k2 == k && (k == PatchErrorKind::TestFailed ==> (
            a matches Some(a) && node_at(t@, op_path(*op)) == Some(a@))),
        },
{
    match op {
        PropertyPatchOperation::Test { path, value } => {
            let found = match t.get(path) {
                Some(x) => if x.same_as(value) {
                    None
                } else {
                    Some(x.deep_clone())
                },
                None => {
                    return Err((PatchErrorKind::PathNotFound, None));
                },
            };
            match found {
                None => Ok(t),
                Some(a) => Err((PatchErrorKind::TestFailed, Some(a))),
            }
        },
        _ => {
            proof {
                match op {
                    PropertyPatchOperation::Add { path, value, .. } => {
                        lemma_edits_never_test(t@, path@, value@);
                    },
                    PropertyPatchOperation::Remove { path } => {
                        lemma_edits_never_test(t@, path@, t@);
                    },
                    PropertyPatchOperation::Replace { path, value, .. } => {
                        lemma_edits_never_test(t@, path@, value@);
                    },
                    PropertyPatchOperation::Move { from, path, .. } => {
                        lemma_edits_never_test(t@, from@, t@);
                        if node_at(t@, from@) is Some && node_remove(t@, from@) is Ok {
                            lemma_edits_never_test(
                                node_remove(t@, from@)->Ok_0,
                                path@,
                                node_at(t@, from@)->Some_0,
                            );
                        }
                    },
                    PropertyPatchOperation::Copy { from, path, .. } => {
                        if node_at(t@, from@) is Some {
                            lemma_edits_never_test(t@, path@, node_at(t@, from@)->Some_0);
                        }
                    },
                    _ => {},
                }
            }
            match apply_tree_operation(t, c, op) {
                Ok(t2) => Ok(t2),
                Err(k) => Err((k, None)),
            }
        },
    }
}

fn apply_tree_operation(t: Property, c: &mut PropertyConfidence, op: &PropertyPatchOperation) -> (r:
    Result<Property, PatchErrorKind>)
    ensures
        match apply_operation((t@, old(c)@), *op) {
            Ok(st) => r matches Ok(t2) && t2@ == st.0 && final(c)@ == st.1,
            Err(k) => r == Err::<Property, PatchErrorKind>(k),
        },
{
    match op {
        PropertyPatchOperation::Add { path, value, confidence } => {
            assert(path@.subrange(0, path@.len() as int) =~= path@);
            match add_node(t, path, 0, value.deep_clone()) {
                Ok(t2) => {
                    c.set(path, *confidence);
                    Ok(t2)
                },
                Err(k) => Err(k),
            }
        },
        PropertyPatchOperation::Remove { path } => {
            assert(path@.subrange(0, path@.len() as int) =~= path@);
            match remove_node(t, path, 0) {
                Ok(t2) => {
                    c.remove(path);
                    Ok(t2)
                },
                Err(k) => Err(k),
            }
        },
        PropertyPatchOperation::Replace { path, value, confidence } => {
            assert(path@.subrange(0, path@.len() as int) =~= path@);
            match replace_node(t, path, 0, value.deep_clone()) {
                Ok(t2) => {
                    c.set(path, *confidence);
                    Ok(t2)
                },
                Err(k) => Err(k),
            }
        },
        PropertyPatchOperation::Move { from, path, confidence } => {
            assert(path@.subrange(0, path@.len() as int) =~= path@);
            assert(from@.subrange(0, from@.len() as int) =~= from@);
            let v = match t.get(from) {
                Some(x) => x.deep_clone(),
                None => {
                    return Err(PatchErrorKind::PathNotFound);
                },
            };
            if from.is_proper_prefix_of(path) {
                return Err(PatchErrorKind::CycleDetected);
            }
            match remove_node(t, from, 0) {
                Ok(t1) => match add_node(t1, path, 0, v) {
                    Ok(t2) => {
                        c.remove(from);
                        c.set(path, *confidence);
                        Ok(t2)
                    },
                    Err(k) => Err(k),
                },
                Err(k) => Err(k),
            }
        },
        PropertyPatchOperation::Copy { from, path, confidence } => {
            assert(path@.subrange(0, path@.len() as int) =~= path@);
            let v = match t.get(from) {
                Some(x) => x.deep_clone(),
                None => {
                    return Err(PatchErrorKind::PathNotFound);
                },
            };
            match add_node(t, path, 0, v) {
                Ok(t2) => {
                    c.set(path, *confidence);
                    Ok(t2)
                },
                Err(k) => Err(k),
            }
        },
        PropertyPatchOperation::Test { path, value } => {
            let same = match t.get(path) {
                Some(x) => x.same_as(value),
                None => {
                    return Err(PatchErrorKind::PathNotFound);
                },
            };
            if same {
                Ok(t)
            } else {
                Err(PatchErrorKind::TestFailed)
            }
        },
    }
}

/// Applies a batch of operations to a property tree and its confidence map,
/// all or nothing: each operation sees the result of the ones before it, and
/// where one fails, both are left as they were and the failing operation is
/// reported.
pub fn patch_properties(
    properties: &mut Property,
    confidence: &mut PropertyConfidence,
    operations: &Vec<PropertyPatchOperation>,
) -> (r: Result<(), PatchError>)
    ensures
        match apply_operations((old(properties)@, old(confidence)@), operations@) {
            Ok(st) => r is Ok && final(properties)@ == st.0 && final(confidence)@ == st.1,
            Err((i, k)) => (r matches Err(e) && e.index == i && e.kind == k && e.path@ == op_path(
                operations@[i],
            ) && (k == PatchErrorKind::TestFailed ==> (e.actual matches Some(a) && apply_operations(
                (old(properties)@, old(confidence)@),
                operations@.subrange(0, i),
            ) matches Ok(st) && node_at(st.0, op_path(operations@[i])) == Some(a@))))
                && *final(properties) == *old(properties) && *final(confidence) == *old(
                confidence,
            ),
        },
{
    let ghost st0 = (properties@, confidence@);
    let mut t = properties.deep_clone();
    let mut c = confidence.deep_clone();
    let mut i: usize = 0;
    assert(operations@.subrange(0, 0) =~= Seq::<PropertyPatchOperation>::empty());
    while i < operations.len()
        invariant
            i <= operations.len(),
            st0 == (properties@, confidence@),
            apply_operations(st0, operations@.subrange(0, i as int)) == Ok::<
                PatchState,
                (int, PatchErrorKind),
            >((t@, c@)),
        decreases operations.len() - i,
    {
        let ghost c_before = c@;
        let ghost t_before = t@;
        proof {
            assert(operations@.subrange(0, i + 1).subrange(0, i as int) =~= operations@.subrange(
                0,
                i as int,
            ));
        }
        match apply_operation_to(t, &mut c, &operations[i]) {
            Ok(t2) => {
                t = t2;
            },
            Err(kind) => {
                proof {
                    lemma_apply_prefix_err(st0, operations@, i + 1);
                }
                let path = operations[i].path().clone_path();
                let (kind, actual) = kind;
                return Err(PatchError { index: i, path, kind, actual });
            },
        }
        i = i + 1;
    }
    assert(operations@.subrange(0, i as int) =~= operations@);
    *properties = t;
    *confidence = c;
    Ok(())
}

} // verus!
