use vstd::prelude::*;

use crate::path::{PathStep, PropertyPath, PropertyPathElement};

verus! {

broadcast use vstd::std_specs::vec::axiom_vec_index_decreases;

/// A scalar JSON value stored at a leaf of a property tree.
#[derive(Debug)]
pub enum JsonValue {
    Null,
    Bool(bool),
    Number(i64),
    String(String),
}

/// The mathematical form of a scalar.
pub ghost enum Scalar {
    Null,
    Bool(bool),
    Number(int),
    Text(Seq<char>),
}

impl View for JsonValue {
    type V = Scalar;

    open spec fn view(&self) -> Scalar {
        match self {
            JsonValue::Null => Scalar::Null,
            JsonValue::Bool(b) => Scalar::Bool(*b),
            JsonValue::Number(n) => Scalar::Number(*n as int),
            JsonValue::String(s) => Scalar::Text(s@),
        }
    }
}

/// A node of a property tree: a scalar, an array of nodes, or an object that
/// maps property-type base URLs to nodes.
#[derive(Debug)]
pub enum Property {
    Value(JsonValue),
    Array(Vec<Property>),
    Object(PropertyObject),
}

/// The entries of an object node. Where a key occurs more than once, the
/// last occurrence is the one that counts.
#[derive(Debug)]
pub struct PropertyObject {
    pub entries: Vec<PropertyEntry>,
}

#[derive(Debug)]
pub struct PropertyEntry {
    pub key: String,
    pub value: Property,
}

/// The mathematical form of a property tree. Object keys are unordered.
pub ghost enum Node {
    Value(Scalar),
    Array(Seq<Node>),
    Object(Map<Seq<char>, Node>),
}

pub open spec fn node_of(p: Property) -> Node
    decreases p,
{
    match p {
        Property::Value(v) => Node::Value(v@),
        Property::Array(a) => Node::Array(nodes_of(a@)),
        Property::Object(o) => Node::Object(map_of(o.entries@)),
    }
}

pub open spec fn nodes_of(s: Seq<Property>) -> Seq<Node>
    decreases s,
{
    if s.len() == 0 {
        Seq::empty()
    } else {
        nodes_of(s.subrange(0, s.len() - 1)).push(node_of(s[s.len() - 1]))
    }
}

pub open spec fn map_of(s: Seq<PropertyEntry>) -> Map<Seq<char>, Node>
    decreases s,
{
    if s.len() == 0 {
        Map::empty()
    } else {
        map_of(s.subrange(0, s.len() - 1)).insert(
            s[s.len() - 1].key@,
            node_of(s[s.len() - 1].value),
        )
    }
}

/// The position of the occurrence of `k` that counts, or -1.
pub open spec fn last_index(s: Seq<PropertyEntry>, k: Seq<char>) -> int
    decreases s.len(),
{
    if s.len() == 0 {
        -1
    } else if s[s.len() - 1].key@ == k {
        s.len() - 1
    } else {
        last_index(s.subrange(0, s.len() - 1), k)
    }
}

impl View for Property {
    type V = Node;

    open spec fn view(&self) -> Node {
        node_of(*self)
    }
}

impl View for PropertyObject {
    type V = Map<Seq<char>, Node>;

    open spec fn view(&self) -> Map<Seq<char>, Node> {
        map_of(self.entries@)
    }
}

/// The child of `t` that one step leads to.
pub open spec fn child(t: Node, s: PathStep) -> Option<Node> {
    match (t, s) {
        (Node::Object(m), PathStep::Key(k)) => if m.contains_key(k) {
            Some(m[k])
        } else {
            None
        },
        (Node::Array(a), PathStep::Index(i)) => if i < a.len() {
            Some(a[i as int])
        } else {
            None
        },
        _ => None,
    }
}

/// `t` with the existing child that one step leads to replaced by `c`.
pub open spec fn with_child(t: Node, s: PathStep, c: Node) -> Node {
    match (t, s) {
        (Node::Object(m), PathStep::Key(k)) => Node::Object(m.insert(k, c)),
        (Node::Array(a), PathStep::Index(i)) => Node::Array(a.update(i as int, c)),
        _ => t,
    }
}

/// The node that a path leads to, if there is one.
pub open spec fn node_at(t: Node, p: Seq<PathStep>) -> Option<Node>
    decreases p.len(),
{
    if p.len() == 0 {
        Some(t)
    } else {
        match child(t, p[0]) {
            Some(c) => node_at(c, p.drop_first()),
            None => None,
        }
    }
}

pub proof fn lemma_nodes_of(s: Seq<Property>)
    ensures
        nodes_of(s).len() == s.len(),
        forall|i: int| 0 <= i < s.len() ==> #[trigger] nodes_of(s)[i] == node_of(s[i]),
    decreases s.len(),
{
    if s.len() > 0 {
        let t = s.subrange(0, s.len() - 1);
        lemma_nodes_of(t);
        assert forall|i: int| 0 <= i < s.len() implies #[trigger] nodes_of(s)[i] == node_of(
            s[i],
        ) by {
            if i < s.len() - 1 {
                assert(t[i] == s[i]);
            }
        }
    }
}

pub proof fn lemma_last_index(s: Seq<PropertyEntry>, k: Seq<char>)
    ensures
        -1 <= last_index(s, k) < s.len(),
        last_index(s, k) >= 0 ==> s[last_index(s, k)].key@ == k,
        forall|j: int| last_index(s, k) < j < s.len() ==> s[j].key@ != k,
        map_of(s).contains_key(k) <==> last_index(s, k) >= 0,
        last_index(s, k) >= 0 ==> map_of(s)[k] == node_of(s[last_index(s, k)].value),
    decreases s.len(),
{
    if s.len() > 0 {
        let t = s.subrange(0, s.len() - 1);
        lemma_last_index(t, k);
        if s[s.len() - 1].key@ != k {
            assert forall|j: int| last_index(s, k) < j < s.len() implies s[j].key@ != k by {
                if j < s.len() - 1 {
                    assert(t[j] == s[j]);
                }
            }
        }
    }
}

/// Replacing the value of the occurrence of a key that counts changes the
/// object's map at that key only.
pub proof fn lemma_map_of_update(s: Seq<PropertyEntry>, i: int, e: PropertyEntry)
    requires
        0 <= i < s.len(),
        i == last_index(s, e.key@),
    ensures
        map_of(s.update(i, e)) == map_of(s).insert(e.key@, node_of(e.value)),
    decreases s.len(),
{
    let u = s.update(i, e);
    let t = s.subrange(0, s.len() - 1);
    lemma_last_index(s, e.key@);
    if i == s.len() - 1 {
        assert(u.subrange(0, u.len() - 1) =~= t);
        assert(map_of(u) =~= map_of(s).insert(e.key@, node_of(e.value)));
    } else {
        assert(s[s.len() - 1].key@ != e.key@);
        assert(u[u.len() - 1] == s[s.len() - 1]);
        assert(u.subrange(0, u.len() - 1) =~= t.update(i, e));
        lemma_map_of_update(t, i, e);
        assert(map_of(u) =~= map_of(s).insert(e.key@, node_of(e.value)));
    }
}

/// Appending an entry sets its key.
pub proof fn lemma_map_of_push(s: Seq<PropertyEntry>, e: PropertyEntry)
    ensures
        map_of(s.push(e)) == map_of(s).insert(e.key@, node_of(e.value)),
{
    assert(s.push(e).subrange(0, s.len() as int) =~= s);
}

/// The position of the entry whose key counts, if `key` occurs.
pub fn find_key(entries: &Vec<PropertyEntry>, key: &String) -> (r: Option<usize>)
    ensures
        match r {
            Some(i) => i == last_index(entries@, key@),
            None => last_index(entries@, key@) == -1,
        },
{
    let mut i: usize = entries.len();
    proof {
        lemma_last_index(entries@, key@);
    }
    while i > 0
        invariant
            i <= entries@.len(),
            last_index(entries@, key@) < i,
        decreases i,
    {
        proof {
            lemma_last_index_prefix(entries@, key@, i as int);
        }
        if entries[i - 1].key.eq(key) {
            return Some(i - 1);
        }
        i = i - 1;
    }
    proof {
        lemma_last_index(entries@, key@);
    }
    None
}

proof fn lemma_last_index_prefix(s: Seq<PropertyEntry>, k: Seq<char>, n: int)
    requires
        0 < n <= s.len(),
        last_index(s, k) < n,
    ensures
        s[n - 1].key@ == k ==> last_index(s, k) == n - 1,
        s[n - 1].key@ != k ==> last_index(s, k) < n - 1,
    decreases s.len(),
{
    lemma_last_index(s, k);
    if n < s.len() {
        let t = s.subrange(0, s.len() - 1);
        assert(s[s.len() - 1].key@ != k);
        assert(t[n - 1] == s[n - 1]);
        lemma_last_index_prefix(t, k, n);
    }
}

impl JsonValue {
    pub fn clone_value(&self) -> (r: JsonValue)
        ensures
            r@ == self@,
    {
        match self {
            JsonValue::Null => JsonValue::Null,
            JsonValue::Bool(b) => JsonValue::Bool(*b),
            JsonValue::Number(n) => JsonValue::Number(*n),
            JsonValue::String(s) => JsonValue::String(s.clone()),
        }
    }

    pub fn same_as(&self, other: &JsonValue) -> (r: bool)
        ensures
            r == (self@ == other@),
    {
        match (self, other) {
            (JsonValue::Null, JsonValue::Null) => true,
            (JsonValue::Bool(a), JsonValue::Bool(b)) => *a == *b,
            (JsonValue::Number(a), JsonValue::Number(b)) => *a == *b,
            (JsonValue::String(a), JsonValue::String(b)) => a.eq(b),
            _ => false,
        }
    }
}


/// Two entry lists with the same keys and equal values, position by
/// position, describe the same object.
pub proof fn lemma_map_of_pointwise(s1: Seq<PropertyEntry>, s2: Seq<PropertyEntry>)
    requires
        s1.len() == s2.len(),
        forall|j: int| 0 <= j < s1.len() ==> (#[trigger] s1[j]).key@ == s2[j].key@,
        forall|j: int| 0 <= j < s1.len() ==> node_of((#[trigger] s1[j]).value) == node_of(s2[j].value),
    ensures
        map_of(s1) == map_of(s2),
    decreases s1.len(),
{
    if s1.len() > 0 {
        let t1 = s1.subrange(0, s1.len() - 1);
        let t2 = s2.subrange(0, s2.len() - 1);
        assert forall|j: int| 0 <= j < t1.len() implies (#[trigger] t1[j]).key@ == t2[j].key@
            && node_of(t1[j].value) == node_of(t2[j].value) by {
            assert(t1[j] == s1[j]);
            assert(t2[j] == s2[j]);
        }
        lemma_map_of_pointwise(t1, t2);
        assert(s1[s1.len() - 1].key@ == s2[s2.len() - 1].key@);
    }
}

pub proof fn lemma_node_at_step(t: Node, p: Seq<PathStep>, d: int)
    requires
        0 <= d < p.len(),
    ensures
        node_at(t, p.subrange(d, p.len() as int)) == match child(t, p[d]) {
            Some(c) => node_at(c, p.subrange(d + 1, p.len() as int)),
            None => None,
        },
{
    assert(p.subrange(d, p.len() as int).drop_first() =~= p.subrange(d + 1, p.len() as int));
}

impl Property {
    /// An independent copy of the whole tree.
    #[verifier::loop_isolation(false)]
    pub fn deep_clone(&self) -> (r: Property)
        ensures
            r@ == self@,
        decreases self,
    {
        match self {
            Property::Value(v) => Property::Value(v.clone_value()),
            Property::Array(a) => {
                let mut out: Vec<Property> = Vec::new();
                let mut i: usize = 0;
                while i < a.len()
                    invariant
                        i <= a.len(),
                        out@.len() == i,
                        forall|j: int| 0 <= j < i ==> node_of(#[trigger] out@[j]) == node_of(a@[j]),
                    decreases a.len() - i,
                {
                    let c = a[i].deep_clone();
                    out.push(c);
                    i = i + 1;
                }
                proof {
                    lemma_nodes_of(out@);
                    lemma_nodes_of(a@);
                    assert(nodes_of(out@) =~= nodes_of(a@));
                }
                Property::Array(out)
            },
            Property::Object(o) => {
                let mut out: Vec<PropertyEntry> = Vec::new();
                let mut i: usize = 0;
                while i < o.entries.len()
                    invariant
                        i <= o.entries.len(),
                        out@.len() == i,
                        forall|j: int| 0 <= j < i ==> (#[trigger] out@[j]).key@ == o.entries@[j].key@,
                        forall|j: int|
                            0 <= j < i ==> node_of((#[trigger] out@[j]).value) == node_of(
                                o.entries@[j].value,
                            ),
                    decreases o.entries.len() - i,
                {
                    let value = o.entries[i].value.deep_clone();
                    out.push(PropertyEntry { key: o.entries[i].key.clone(), value });
                    i = i + 1;
                }
                proof {
                    lemma_map_of_pointwise(out@, o.entries@);
                }
                Property::Object(PropertyObject { entries: out })
            },
        }
    }

    /// Structural equality of two trees; the order of object entries does not
    /// matter.
    #[verifier::loop_isolation(false)]
    pub fn same_as(&self, other: &Property) -> (r: bool)
        ensures
            r == (self@ == other@),
        decreases self,
    {
        match (self, other) {
            (Property::Value(a), Property::Value(b)) => a.same_as(b),
            (Property::Array(a), Property::Array(b)) => {
                proof {
                    lemma_nodes_of(a@);
                    lemma_nodes_of(b@);
                }
                if a.len() != b.len() {
                    return false;
                }
                let mut i: usize = 0;
                while i < a.len()
                    invariant
                        i <= a.len() == b.len(),
                        nodes_of(a@).len() == a.len(),
                        nodes_of(b@).len() == b.len(),
                        forall|j: int| 0 <= j < a.len() ==> #[trigger] nodes_of(a@)[j] == node_of(a@[j]),
                        forall|j: int| 0 <= j < b.len() ==> #[trigger] nodes_of(b@)[j] == node_of(b@[j]),
                        forall|j: int| 0 <= j < i ==> node_of(#[trigger] a@[j]) == node_of(b@[j]),
                    decreases a.len() - i,
                {
                    if !a[i].same_as(&b[i]) {
                        assert(nodes_of(a@)[i as int] != nodes_of(b@)[i as int]);
                        return false;
                    }
                    i = i + 1;
                }
                assert(nodes_of(a@) =~= nodes_of(b@));
                true
            },
            (Property::Object(a), Property::Object(b)) => {
                let mut j: usize = 0;
                while j < a.entries.len()
                    invariant
                        j <= a.entries.len(),
                        forall|q: int|
                            0 <= q < j ==> map_of(b.entries@).contains_key(
                                #[trigger] a.entries@[q].key@,
                            ) && map_of(a.entries@)[a.entries@[q].key@] == map_of(
                                b.entries@,
                            )[a.entries@[q].key@],
                    decreases a.entries.len() - j,
                {
                    let key = &a.entries[j].key;
                    proof {
                        lemma_last_index(a.entries@, key@);
                        lemma_last_index(b.entries@, key@);
                    }
                    let ia = find_key(&a.entries, key);
                    let ib = find_key(&b.entries, key);
                    match (ia, ib) {
                        (Some(ia), Some(ib)) => {
                            if !a.entries[ia].value.same_as(&b.entries[ib].value) {
                                return false;
                            }
                        },
                        _ => {
                            return false;
                        },
                    }
                    j = j + 1;
                }
                let mut j: usize = 0;
                while j < b.entries.len()
                    invariant
                        j <= b.entries.len(),
                        forall|q: int|
                            0 <= q < j ==> map_of(a.entries@).contains_key(
                                #[trigger] b.entries@[q].key@,
                            ),
                    decreases b.entries.len() - j,
                {
                    let key = &b.entries[j].key;
                    proof {
                        lemma_last_index(a.entries@, key@);
                        lemma_last_index(b.entries@, key@);
                    }
                    if find_key(&a.entries, key).is_none() {
                        return false;
                    }
                    j = j + 1;
                }
                proof {
                    assert forall|k: Seq<char>| #[trigger] map_of(a.entries@).contains_key(k)
                        implies map_of(b.entries@).contains_key(k) && map_of(a.entries@)[k]
                        == map_of(b.entries@)[k] by {
                        lemma_last_index(a.entries@, k);
                        let q = last_index(a.entries@, k);
                        assert(a.entries@[q].key@ == k);
                    }
                    assert forall|k: Seq<char>| #[trigger] map_of(b.entries@).contains_key(k)
                        implies map_of(a.entries@).contains_key(k) by {
                        lemma_last_index(b.entries@, k);
                        let q = last_index(b.entries@, k);
                        assert(b.entries@[q].key@ == k);
                    }
                    assert(map_of(a.entries@) =~= map_of(b.entries@));
                }
                true
            },
            _ => false,
        }
    }

    /// The child that one step leads to.
    pub fn child(&self, step: &PropertyPathElement) -> (r: Option<&Property>)
        ensures
            match r {
                Some(c) => child(self@, step@) == Some(c@),
                None => child(self@, step@) is None,
            },
    {
        match (self, step) {
            (Property::Object(o), PropertyPathElement::Property(k)) => {
                proof {
                    lemma_last_index(o.entries@, k@);
                }
                match find_key(&o.entries, k) {
                    Some(i) => Some(&o.entries[i].value),
                    None => None,
                }
            },
            (Property::Array(a), PropertyPathElement::Index(i)) => {
                proof {
                    lemma_nodes_of(a@);
                }
                if *i < a.len() {
                    Some(&a[*i])
                } else {
                    None
                }
            },
            _ => None,
        }
    }

    /// The node that `path` leads to.
    pub fn get(&self, path: &PropertyPath) -> (r: Option<&Property>)
        ensures
            match r {
                Some(c) => node_at(self@, path@) == Some(c@),
                None => node_at(self@, path@) is None,
            },
    {
        let mut cur: &Property = self;
        let mut d: usize = 0;
        assert(path@.subrange(0, path@.len() as int) =~= path@);
        while d < path.elements.len()
            invariant
                d <= path@.len(),
                path@.len() == path.elements.len(),
                node_at(self@, path@) == node_at(cur@, path@.subrange(d as int, path@.len() as int)),
            decreases path.elements.len() - d,
        {
            proof {
                lemma_node_at_step(cur@, path@, d as int);
            }
            match cur.child(&path.elements[d]) {
                Some(c) => {
                    cur = c;
                },
                None => {
                    return None;
                },
            }
            d = d + 1;
        }
        assert(path@.subrange(d as int, path@.len() as int) =~= Seq::<PathStep>::empty());
        Some(cur)
    }
}

} // verus!
