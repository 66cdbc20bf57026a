use vstd::prelude::*;

use crate::path::{PathStep, PropertyPath};

verus! {

/// The largest confidence, standing for certainty.
pub const CONFIDENCE_SCALE: u32 = 1_000_000;

/// A confidence score in [0, 1], held in millionths.
#[derive(Debug, Clone, Copy, PartialEq, Eq, Structural)]
pub struct Confidence {
    millionths: u32,
}

impl View for Confidence {
    type V = nat;

    closed spec fn view(&self) -> nat {
        self.millionths as nat
    }
}

impl Confidence {
    pub open spec fn wf(&self) -> bool {
        self@ <= CONFIDENCE_SCALE
    }

    /// The score `millionths / 1_000_000`, if that lies in [0, 1].
    pub fn new(millionths: u32) -> (r: Option<Confidence>)
        ensures
            millionths <= CONFIDENCE_SCALE ==> (r matches Some(c) && c@ == millionths && c.wf()),
            millionths > CONFIDENCE_SCALE ==> r is None,
    {
        if millionths <= CONFIDENCE_SCALE {
            Some(Confidence { millionths })
        } else {
            None
        }
    }

    pub fn millionths(&self) -> (r: u32)
        ensures
            r == self@,
    {
        self.millionths
    }
}

#[derive(Debug)]
pub struct ConfidenceEntry {
    pub path: PropertyPath,
    pub confidence: Confidence,
}

/// Confidence scores of the nodes of a property tree, keyed by path and kept
/// apart from the tree. Where a path occurs more than once, the last
/// occurrence counts.
#[derive(Debug)]
pub struct PropertyConfidence {
    pub entries: Vec<ConfidenceEntry>,
}

pub open spec fn confidence_map(s: Seq<ConfidenceEntry>) -> Map<Seq<PathStep>, nat>
    decreases s.len(),
{
    if s.len() == 0 {
        Map::empty()
    } else {
        confidence_map(s.subrange(0, s.len() - 1)).insert(
            s[s.len() - 1].path@,
            s[s.len() - 1].confidence@,
        )
    }
}

impl View for PropertyConfidence {
    type V = Map<Seq<PathStep>, nat>;

    open spec fn view(&self) -> Map<Seq<PathStep>, nat> {
        confidence_map(self.entries@)
    }
}

/// The map after the score at `p` is set to `c`, or cleared where `c` is
/// `None`.
pub open spec fn with_confidence(
    m: Map<Seq<PathStep>, nat>,
    p: Seq<PathStep>,
    c: Option<Confidence>,
) -> Map<Seq<PathStep>, nat> {
    match c {
        Some(c) => m.insert(p, c@),
        None => m.remove(p),
    }
}

proof fn lemma_confidence_map_push(s: Seq<ConfidenceEntry>, e: ConfidenceEntry)
    ensures
        confidence_map(s.push(e)) == confidence_map(s).insert(e.path@, e.confidence@),
{
    assert(s.push(e).subrange(0, s.len() as int) =~= s);
}

impl PropertyConfidence {
    pub fn new() -> (r: PropertyConfidence)
        ensures
            r@ == Map::<Seq<PathStep>, nat>::empty(),
    {
        PropertyConfidence { entries: Vec::new() }
    }

    pub fn deep_clone(&self) -> (r: PropertyConfidence)
        ensures
            r@ == self@,
    {
        let mut out: Vec<ConfidenceEntry> = Vec::new();
        let mut i: usize = 0;
        while i < self.entries.len()
            invariant
                i <= self.entries.len(),
                confidence_map(out@) == confidence_map(self.entries@.subrange(0, i as int)),
            decreases self.entries.len() - i,
        {
            let e = ConfidenceEntry {
                path: self.entries[i].path.clone_path(),
                confidence: self.entries[i].confidence,
            };
            proof {
                lemma_confidence_map_push(out@, e);
                lemma_confidence_map_push(self.entries@.subrange(0, i as int), self.entries@[i as int]);
                assert(self.entries@.subrange(0, i as int).push(self.entries@[i as int])
                    =~= self.entries@.subrange(0, i + 1));
            }
            out.push(e);
            i = i + 1;
        }
        assert(self.entries@.subrange(0, i as int) =~= self.entries@);
        PropertyConfidence { entries: out }
    }

    /// The score recorded for `path`.
    pub fn get(&self, path: &PropertyPath) -> (r: Option<Confidence>)
        ensures
            match r {
                Some(c) => self@.contains_key(path@) && self@[path@] == c@,
                None => !self@.contains_key(path@),
            },
    {
        let mut i: usize = self.entries.len();
        assert(self.entries@.subrange(0, i as int) =~= self.entries@);
        while i > 0
            invariant
                i <= self.entries.len(),
                self@.contains_key(path@) == confidence_map(
                    self.entries@.subrange(0, i as int),
                ).contains_key(path@),
                self@.contains_key(path@) ==> self@[path@] == confidence_map(
                    self.entries@.subrange(0, i as int),
                )[path@],
            decreases i,
        {
            let ghost t = self.entries@.subrange(0, i as int);
            assert(t.subrange(0, i - 1) =~= self.entries@.subrange(0, i - 1));
            if self.entries[i - 1].path.same_as(path) {
                return Some(self.entries[i - 1].confidence);
            }
            i = i - 1;
        }
        None
    }

    /// Sets the score at `path`, or clears it where `confidence` is `None`.
    pub fn set(&mut self, path: &PropertyPath, confidence: Option<Confidence>)
        ensures
            final(self)@ == with_confidence(old(self)@, path@, confidence),
    {
        self.remove(path);
        match confidence {
            Some(c) => {
                let e = ConfidenceEntry { path: path.clone_path(), confidence: c };
                proof {
                    lemma_confidence_map_push(self.entries@, e);
                }
                self.entries.push(e);
                assert(self@ =~= with_confidence(old(self)@, path@, confidence));
            },
            None => {},
        }
    }

    /// Clears the score at `path`.
    pub fn remove(&mut self, path: &PropertyPath)
        ensures
            final(self)@ == old(self)@.remove(path@),
    {
        let ghost s = self.entries@;
        let mut rest: Vec<ConfidenceEntry> = Vec::new();
        std::mem::swap(&mut rest, &mut self.entries);
        let mut out: Vec<ConfidenceEntry> = Vec::new();
        assert(s.subrange(0, 0) =~= Seq::<ConfidenceEntry>::empty());
        assert(s.subrange(0, s.len() as int) =~= s);
        assert(confidence_map(out@) =~= confidence_map(s.subrange(0, 0)).remove(path@));
        while rest.len() > 0
            invariant
                rest@.len() <= s.len(),
                rest@ == s.subrange(s.len() - rest@.len(), s.len() as int),
                confidence_map(out@) == confidence_map(s.subrange(0, s.len() - rest@.len())).remove(
                    path@,
                ),
            decreases rest.len(),
        {
            let ghost i = s.len() - rest@.len();
            let e = rest.remove(0);
            proof {
                assert(e == s[i]);
                lemma_confidence_map_push(s.subrange(0, i), s[i]);
                assert(s.subrange(0, i).push(s[i]) =~= s.subrange(0, i + 1));
                assert(rest@ =~= s.subrange(i + 1, s.len() as int));
            }
            if !e.path.same_as(path) {
                proof {
                    lemma_confidence_map_push(out@, e);
                }
                out.push(e);
                assert(confidence_map(out@) =~= confidence_map(s.subrange(0, i + 1)).remove(path@));
            } else {
                assert(confidence_map(out@) =~= confidence_map(s.subrange(0, i + 1)).remove(path@));
            }
        }
        self.entries = out;
    }
}

} // verus!
