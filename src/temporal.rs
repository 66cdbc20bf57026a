use vstd::prelude::*;

verus! {

/// A point in time, in microseconds since the Unix epoch.
pub type Timestamp = i64;

/// The time span `[start, end)`, unbounded above where `end` is `None`.
#[derive(Debug, Clone, Copy, PartialEq, Eq, Structural)]
pub struct LeftClosedTemporalInterval {
    pub start: Timestamp,
    pub end: Option<Timestamp>,
}

impl LeftClosedTemporalInterval {
    pub open spec fn contains_spec(&self, t: int) -> bool {
        self.start <= t && match self.end {
            Some(e) => t < e,
            None => true,
        }
    }

    /// The interval that starts at `start` and has no end.
    pub fn from_start(start: Timestamp) -> (r: LeftClosedTemporalInterval)
        ensures
            r.start == start,
            r.end is None,
    {
        LeftClosedTemporalInterval { start, end: None }
    }

    pub fn contains(&self, t: Timestamp) -> (r: bool)
        ensures
            r == self.contains_spec(t as int),
    {
        self.start <= t && match self.end {
            Some(e) => t < e,
            None => true,
        }
    }
}

/// Binds one edition of an entity (or of one of its drafts) to the time it
/// was held true and the time it was recorded.
#[derive(Debug, Clone, Copy, PartialEq, Eq, Structural)]
pub struct EntityTemporalMetadataRow {
    pub web_id: u128,
    pub entity_uuid: u128,
    pub draft_id: Option<u128>,
    pub entity_edition_id: u128,
    pub decision_time: LeftClosedTemporalInterval,
    pub transaction_time: LeftClosedTemporalInterval,
}

/// Why a new edition could not be recorded.
#[derive(Debug, Clone, Copy, PartialEq, Eq, Structural)]
pub enum TemporalError {
    /// Another write was recorded at or after the given time; the whole
    /// mutation has to be retried.
    TemporalOverlap,
    /// The edition is already part of the history.
    EditionExists,
}

/// The temporal history of one entity identity and draft: one row per
/// edition, in the order they were recorded.
#[derive(Debug)]
pub struct EntityHistory {
    rows: Vec<EntityTemporalMetadataRow>,
}

impl View for EntityHistory {
    type V = Seq<EntityTemporalMetadataRow>;

    closed spec fn view(&self) -> Seq<EntityTemporalMetadataRow> {
        self.rows@
    }
}

/// The transaction times of the rows follow each other without gap or
/// overlap, only the last is unbounded, all rows share one identity and
/// draft, and no edition occurs twice.
pub open spec fn history_wf(rows: Seq<EntityTemporalMetadataRow>) -> bool {
    &&& rows.len() > 0
    &&& forall|i: int| #![trigger rows[i]]
        0 <= i < rows.len() ==> rows[i].web_id == rows[0].web_id && rows[i].entity_uuid
            == rows[0].entity_uuid && rows[i].draft_id == rows[0].draft_id
    &&& forall|i: int|
        0 <= i < rows.len() - 1 ==> #[trigger] rows[i].transaction_time.end == Some(
            rows[i + 1].transaction_time.start,
        )
    &&& rows[rows.len() - 1].transaction_time.end is None
    &&& forall|i: int, j: int|
        0 <= i < j < rows.len() ==> #[trigger] rows[i].transaction_time.start
            < #[trigger] rows[j].transaction_time.start
    &&& forall|i: int, j: int|
        0 <= i < j < rows.len() ==> #[trigger] rows[i].entity_edition_id
            != #[trigger] rows[j].entity_edition_id
}

/// Whether some row records edition `e`.
pub open spec fn edition_recorded(rows: Seq<EntityTemporalMetadataRow>, e: u128) -> bool {
    exists|i: int| 0 <= i < rows.len() && #[trigger] rows[i].entity_edition_id == e
}

/// The rows after edition `e` is recorded at `now`: the last row is closed
/// at `now`, and a row for `e` with the same identity, open from `now` on and
/// held true from `decision_time` (by default from `now`), is added.
pub open spec fn with_edition(
    rows: Seq<EntityTemporalMetadataRow>,
    e: u128,
    now: Timestamp,
    decision_time: Option<Timestamp>,
) -> Seq<EntityTemporalMetadataRow> {
    let n = rows.len() - 1;
    let last = rows[n];
    rows.update(
        n,
        EntityTemporalMetadataRow {
            transaction_time: LeftClosedTemporalInterval {
                start: last.transaction_time.start,
                end: Some(now),
            },
            ..last
        },
    ).push(
        EntityTemporalMetadataRow {
            web_id: last.web_id,
            entity_uuid: last.entity_uuid,
            draft_id: last.draft_id,
            entity_edition_id: e,
            decision_time: LeftClosedTemporalInterval {
                start: match decision_time {
                    Some(d) => d,
                    None => now,
                },
                end: None,
            },
            transaction_time: LeftClosedTemporalInterval { start: now, end: None },
        },
    )
}

impl EntityHistory {
    pub open spec fn wf(&self) -> bool {
        history_wf(self@)
    }

    /// The history of a new entity: its first edition, recorded at `now`,
    /// held true from `decision_time` (by default from `now`) on.
    pub fn create(
        web_id: u128,
        entity_uuid: u128,
        draft_id: Option<u128>,
        entity_edition_id: u128,
        now: Timestamp,
        decision_time: Option<Timestamp>,
    ) -> (r: EntityHistory)
        ensures
            r.wf(),
            r@ == seq![
                EntityTemporalMetadataRow {
                    web_id,
                    entity_uuid,
                    draft_id,
                    entity_edition_id,
                    decision_time: LeftClosedTemporalInterval {
                        start: match decision_time {
                            Some(d) => d,
                            None => now,
                        },
                        end: None,
                    },
                    transaction_time: LeftClosedTemporalInterval { start: now, end: None },
                },
            ],
    {
        let decided = match decision_time {
            Some(d) => d,
            None => now,
        };
        let row = EntityTemporalMetadataRow {
            web_id,
            entity_uuid,
            draft_id,
            entity_edition_id,
            decision_time: LeftClosedTemporalInterval::from_start(decided),
            transaction_time: LeftClosedTemporalInterval::from_start(now),
        };
        let rows = vec![row];
        let r = EntityHistory { rows };
        assert(r@ =~= seq![row]);
        r
    }

    pub fn len(&self) -> (r: usize)
        ensures
            r == self@.len(),
    {
        self.rows.len()
    }

    /// The row at position `i`, oldest first.
    pub fn row(&self, i: usize) -> (r: &EntityTemporalMetadataRow)
        requires
            i < self@.len(),
        ensures
            *r == self@[i as int],
    {
        &self.rows[i]
    }

    /// The current row: the one whose transaction time is unbounded.
    pub fn current(&self) -> (r: &EntityTemporalMetadataRow)
        requires
            self.wf(),
        ensures
            *r == self@[self@.len() - 1],
            r.transaction_time.end is None,
    {
        &self.rows[self.rows.len() - 1]
    }

    /// Whether `e` is one of the editions of this history.
    pub fn has_edition(&self, e: u128) -> (r: bool)
        ensures
            r == edition_recorded(self@, e),
    {
        let mut i: usize = 0;
        while i < self.rows.len()
            invariant
                i <= self.rows.len(),
                forall|j: int| 0 <= j < i ==> self.rows@[j].entity_edition_id != e,
            decreases self.rows.len() - i,
        {
            if self.rows[i].entity_edition_id == e {
                return true;
            }
            i = i + 1;
        }
        false
    }

    /// Records a new edition at `now`: the current row is closed at `now` and
    /// a row for the new edition, open from `now` on, is added. A `now` that
    /// is not after the current row's start means that another write came
    /// first, and nothing is changed.
    pub fn record_edition(
        &mut self,
        entity_edition_id: u128,
        now: Timestamp,
        decision_time: Option<Timestamp>,
    ) -> (r: Result<(), TemporalError>)
        requires
            old(self).wf(),
        ensures
            final(self).wf(),
            now <= old(self)@[old(self)@.len() - 1].transaction_time.start ==> r == Err::<
                (),
                TemporalError,
            >(TemporalError::TemporalOverlap),
            now > old(self)@[old(self)@.len() - 1].transaction_time.start && edition_recorded(
                old(self)@,
                entity_edition_id,
            ) ==> r == Err::<(), TemporalError>(TemporalError::EditionExists),
            r is Err ==> final(self)@ == old(self)@,
            r is Ok <==> now > old(self)@[old(self)@.len() - 1].transaction_time.start
                && !edition_recorded(old(self)@, entity_edition_id),
            r is Ok ==> final(self)@ == with_edition(
                old(self)@,
                entity_edition_id,
                now,
                decision_time,
            ),
    {
        let n = self.rows.len() - 1;
        let last = self.rows[n];
        if now <= last.transaction_time.start {
            return Err(TemporalError::TemporalOverlap);
        }
        if self.has_edition(entity_edition_id) {
            return Err(TemporalError::EditionExists);
        }
        let closed = EntityTemporalMetadataRow {
            transaction_time: LeftClosedTemporalInterval {
                start: last.transaction_time.start,
                end: Some(now),
            },
            ..last
        };
        let decided = match decision_time {
            Some(d) => d,
            None => now,
        };
        let opened = EntityTemporalMetadataRow {
            web_id: last.web_id,
            entity_uuid: last.entity_uuid,
            draft_id: last.draft_id,
            entity_edition_id,
            decision_time: LeftClosedTemporalInterval::from_start(decided),
            transaction_time: LeftClosedTemporalInterval::from_start(now),
        };
        let ghost before = self.rows@;
        self.rows.set(n, closed);
        self.rows.push(opened);
        proof {
            let rows = self.rows@;
            assert(rows =~= before.update(n as int, closed).push(opened));
            assert forall|i: int, j: int| 0 <= i < j < rows.len() implies #[trigger] rows[i].entity_edition_id
                != #[trigger] rows[j].entity_edition_id by {
                if j == rows.len() - 1 {
                    assert(before[i].entity_edition_id == rows[i].entity_edition_id);
                } else {
                    assert(before[i].entity_edition_id == rows[i].entity_edition_id);
                    assert(before[j].entity_edition_id == rows[j].entity_edition_id);
                }
            }
            assert forall|i: int, j: int| 0 <= i < j < rows.len() implies #[trigger] rows[i].transaction_time.start
                < #[trigger] rows[j].transaction_time.start by {
                assert(before[i].transaction_time.start == rows[i].transaction_time.start);
                if j < rows.len() - 1 {
                    assert(before[j].transaction_time.start == rows[j].transaction_time.start);
                } else if i < n {
                    assert(before[i].transaction_time.start < before[n as int].transaction_time.start);
                }
            }
            assert forall|i: int| 0 <= i < rows.len() - 1 implies #[trigger] rows[i].transaction_time.end
                == Some(rows[i + 1].transaction_time.start) by {
                if i < n {
                    assert(rows[i] == before[i]);
                    assert(rows[i + 1].transaction_time.start == before[i + 1].transaction_time.start);
                }
            }
            assert forall|i: int| #![trigger rows[i]] 0 <= i < rows.len() implies rows[i].web_id
                == rows[0].web_id && rows[i].entity_uuid == rows[0].entity_uuid && rows[i].draft_id
                == rows[0].draft_id by {
                if i < n {
                    assert(rows[i] == before[i]);
                }
                if n > 0 {
                    assert(rows[0] == before[0]);
                }
            }
        }
        Ok(())
    }

    /// The row whose transaction time contains `t`: what was recorded as
    /// current at that time.
    pub fn row_at(&self, t: Timestamp) -> (r: Option<usize>)
        requires
            self.wf(),
        ensures
            match r {
                Some(i) => i < self@.len() && self@[i as int].transaction_time.contains_spec(
                    t as int,
                ),
                None => t < self@[0].transaction_time.start,
            },
    {
        let mut i: usize = self.rows.len();
        while i > 0
            invariant
                i <= self.rows.len(),
                self.wf(),
                i < self.rows.len() ==> t < self.rows@[i as int].transaction_time.start,
            decreases i,
        {
            if self.rows[i - 1].transaction_time.start <= t {
                return Some(i - 1);
            }
            i = i - 1;
        }
        None
    }
}

/// The transaction times of a history's rows are pairwise disjoint, leave no
/// gap between the first recording and now, and exactly one of them is
/// unbounded.
pub proof fn law_history_intervals(h: &EntityHistory)
    requires
        h.wf(),
    ensures
        forall|i: int, j: int|
            0 <= i < j < h@.len() ==> (#[trigger] h@[i]).transaction_time.end is Some
                && h@[i].transaction_time.end->Some_0 <= (#[trigger] h@[j]).transaction_time.start,
        forall|i: int|
            0 <= i < h@.len() - 1 ==> (#[trigger] h@[i]).transaction_time.end == Some(
                h@[i + 1].transaction_time.start,
            ),
        forall|i: int| 0 <= i < h@.len() ==> ((#[trigger] h@[i]).transaction_time.end is None <==> i
            == h@.len() - 1),
{
    let rows = h@;
    assert forall|i: int, j: int| 0 <= i < j < rows.len() implies (#[trigger] rows[i]).transaction_time.end is Some
        && rows[i].transaction_time.end->Some_0 <= (#[trigger] rows[j]).transaction_time.start by {
        assert(rows[i].transaction_time.end == Some(rows[i + 1].transaction_time.start));
        if i + 1 < j {
            assert(rows[i + 1].transaction_time.start < rows[j].transaction_time.start);
        }
    }
    assert forall|i: int| 0 <= i < rows.len() - 1 implies (#[trigger] rows[i]).transaction_time.end
        == Some(rows[i + 1].transaction_time.start) by {
        assert(rows[i].transaction_time.end == Some(rows[i + 1].transaction_time.start));
    }
    assert forall|i: int| 0 <= i < rows.len() implies ((#[trigger] rows[i]).transaction_time.end is None
        <==> i == rows.len() - 1) by {
        if i < rows.len() - 1 {
            assert(rows[i].transaction_time.end == Some(rows[i + 1].transaction_time.start));
        }
    }
}

} // verus!
