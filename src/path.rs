use vstd::prelude::*;

verus! {

/// One step of a path into a property tree: the base URL of a property
/// type (a key of an object) or a position in an array.
#[derive(Debug)]
pub enum PropertyPathElement {
    Property(String),
    Index(usize),
}

/// The mathematical form of a path step.
pub ghost enum PathStep {
    Key(Seq<char>),
    Index(nat),
}

impl View for PropertyPathElement {
    type V = PathStep;

    open spec fn view(&self) -> PathStep {
        match self {
            PropertyPathElement::Property(k) => PathStep::Key(k@),
            PropertyPathElement::Index(i) => PathStep::Index(*i as nat),
        }
    }
}

/// An ordered sequence of path steps; the empty path addresses the root.
#[derive(Debug)]
pub struct PropertyPath {
    pub elements: Vec<PropertyPathElement>,
}

impl View for PropertyPath {
    type V = Seq<PathStep>;

    open spec fn view(&self) -> Seq<PathStep> {
        self.elements@.map_values(|e: PropertyPathElement| e@)
    }
}

/// `p` is `q` or an ancestor of `q`.
pub open spec fn is_prefix_of(p: Seq<PathStep>, q: Seq<PathStep>) -> bool {
    p.len() <= q.len() && q.subrange(0, p.len() as int) == p
}

/// `p` is a strict ancestor of `q`: `q` lies inside the subtree at `p`.
pub open spec fn is_proper_prefix_of(p: Seq<PathStep>, q: Seq<PathStep>) -> bool {
    p.len() < q.len() && is_prefix_of(p, q)
}

impl PropertyPathElement {
    pub fn clone_element(&self) -> (r: PropertyPathElement)
        ensures
            r@ == self@,
    {
        match self {
            PropertyPathElement::Property(k) => PropertyPathElement::Property(k.clone()),
            PropertyPathElement::Index(i) => PropertyPathElement::Index(*i),
        }
    }

    pub fn same_as(&self, other: &PropertyPathElement) -> (r: bool)
        ensures
            r == (self@ == other@),
    {
        match (self, other) {
            (PropertyPathElement::Property(a), PropertyPathElement::Property(b)) => a.eq(b),
            (PropertyPathElement::Index(a), PropertyPathElement::Index(b)) => a == b,
            _ => false,
        }
    }
}

impl PropertyPath {
    pub fn new() -> (r: PropertyPath)
        ensures
            r@ == Seq::<PathStep>::empty(),
    {
        let r = PropertyPath { elements: Vec::new() };
        assert(r@ =~= Seq::<PathStep>::empty());
        r
    }

    pub fn push(&mut self, element: PropertyPathElement)
        ensures
            final(self)@ == old(self)@.push(element@),
    {
        self.elements.push(element);
        assert(self@ =~= old(self)@.push(element@));
    }

    pub fn len(&self) -> (r: usize)
        ensures
            r == self@.len(),
    {
        self.elements.len()
    }

    pub fn clone_path(&self) -> (r: PropertyPath)
        ensures
            r@ == self@,
    {
        let mut elements: Vec<PropertyPathElement> = Vec::new();
        let mut i: usize = 0;
        while i < self.elements.len()
            invariant
                i <= self.elements.len(),
                elements@.len() == i,
                forall|j: int| 0 <= j < i ==> elements@[j]@ == self.elements@[j]@,
            decreases self.elements.len() - i,
        {
            elements.push(self.elements[i].clone_element());
            i = i + 1;
        }
        let r = PropertyPath { elements };
        assert(r@ =~= self@);
        r
    }

    /// Whether this path equals `other`.
    pub fn same_as(&self, other: &PropertyPath) -> (r: bool)
        ensures
            r == (self@ == other@),
    {
        if self.elements.len() != other.elements.len() {
            assert(self@.len() != other@.len());
            return false;
        }
        let mut i: usize = 0;
        while i < self.elements.len()
            invariant
                i <= self.elements.len(),
                self.elements.len() == other.elements.len(),
                forall|j: int| 0 <= j < i ==> self@[j] == other@[j],
            decreases self.elements.len() - i,
        {
            if !self.elements[i].same_as(&other.elements[i]) {
                assert(self@[i as int] != other@[i as int]);
                return false;
            }
            i = i + 1;
        }
        assert(self@ =~= other@);
        true
    }

    /// Whether this path is a strict ancestor of `other`.
    pub fn is_proper_prefix_of(&self, other: &PropertyPath) -> (r: bool)
        ensures
            r == is_proper_prefix_of(self@, other@),
    {
        self.elements.len() < other.elements.len() && self.is_prefix_of(other)
    }

    /// Whether this path is `other` or one of its ancestors.
    pub fn is_prefix_of(&self, other: &PropertyPath) -> (r: bool)
        ensures
            r == is_prefix_of(self@, other@),
    {
        if self.elements.len() > other.elements.len() {
            return false;
        }
        let mut i: usize = 0;
        while i < self.elements.len()
            invariant
                i <= self.elements.len() <= other.elements.len(),
                forall|j: int| 0 <= j < i ==> self@[j] == other@[j],
            decreases self.elements.len() - i,
        {
            if !self.elements[i].same_as(&other.elements[i]) {
                assert(other@.subrange(0, self@.len() as int)[i as int] != self@[i as int]);
                return false;
            }
            i = i + 1;
        }
        assert(other@.subrange(0, self@.len() as int) =~= self@);
        true
    }
}

} // verus!
