//! The persisted aggregate: a tracker document owning an ordered list of
//! embedded hikes, and the static list of peaks.
use vstd::prelude::*;

verus! {

/// Identifier of a document: the twelve bytes of a store object id.
pub type DocId = [u8; 12];

/// A hike, embedded in exactly one tracker. Timestamps are milliseconds
/// since the Unix epoch.
#[derive(Clone, Debug)]
pub struct HikeModel {
    pub name: String,
    pub rank: u8,
    pub created_at: i64,
    pub updated_at: i64,
}

/// The mathematical value of a hike.
pub struct HikeView {
    pub name: Seq<char>,
    pub rank: u8,
    pub created_at: i64,
    pub updated_at: i64,
}

impl View for HikeModel {
    type V = HikeView;

    open spec fn view(&self) -> HikeView {
        HikeView {
            name: self.name@,
            rank: self.rank,
            created_at: self.created_at,
            updated_at: self.updated_at,
        }
    }
}

/// The aggregate root: one user's log of hikes.
#[derive(Clone, Debug)]
pub struct HikeTrackerModel {
    pub _id: DocId,
    pub name: String,
    pub created_by_id: DocId,
    pub hikes: Vec<HikeModel>,
    pub created_at: i64,
    pub updated_at: i64,
}

/// The mathematical value of a tracker.
pub struct TrackerView {
    pub id: Seq<u8>,
    pub name: Seq<char>,
    pub created_by: Seq<u8>,
    pub hikes: Seq<HikeView>,
    pub created_at: i64,
    pub updated_at: i64,
}

impl View for HikeTrackerModel {
    type V = TrackerView;

    open spec fn view(&self) -> TrackerView {
        TrackerView {
            id: self._id@,
            name: self.name@,
            created_by: self.created_by_id@,
            hikes: self.hikes@.map_values(|h: HikeModel| h@),
            created_at: self.created_at,
            updated_at: self.updated_at,
        }
    }
}

impl HikeView {
    /// Timestamps never run backwards.
    pub open spec fn wf(self) -> bool {
        self.created_at <= self.updated_at
    }
}

impl TrackerView {
    /// Timestamps never run backwards, for the tracker and each of its hikes.
    pub open spec fn wf(self) -> bool {
        &&& self.created_at <= self.updated_at
        &&& forall|i: int| 0 <= i < self.hikes.len() ==> #[trigger] self.hikes[i].wf()
    }
}

/// A peak of the static list offered for hiking.
#[derive(Clone, Debug)]
pub struct HikePeak {
    pub name: String,
    pub elevation: u16,
}

/// Relies on bson's `ObjectId::new`, which draws an id from the clock, the
/// process and a counter: nothing about its value is promised.
#[verifier::external_body]
pub(crate) fn fresh_object_id() -> (r: DocId) {
    bson::oid::ObjectId::new().bytes()
}

/// Relies on chrono's `Utc::now` and `DateTime::timestamp_millis`: the
/// system time in milliseconds, of which nothing is promised.
#[verifier::external_body]
pub(crate) fn now_millis() -> (r: i64) {
    chrono::Utc::now().timestamp_millis()
}

/// Whether two ids are the same.
pub fn same_id(a: &DocId, b: &DocId) -> (r: bool)
    ensures
        r == (a@ == b@),
{
    let mut i: usize = 0;
    while i < 12
        invariant
            i <= 12,
            a@.len() == 12,
            b@.len() == 12,
            forall|j: int| 0 <= j < i ==> a@[j] == b@[j],
        decreases 12 - i,
    {
        if a[i] != b[i] {
            return false;
        }
        i = i + 1;
    }
    assert(a@ =~= b@);
    true
}

/// A new tracker named `name`, with no hikes, whose two timestamps are the
/// same instant `now`.
pub fn new_tracker(name: String, id: DocId, owner: DocId, now: i64) -> (r: HikeTrackerModel)
    ensures
        r@ == (TrackerView {
            id: id@,
            name: name@,
            created_by: owner@,
            hikes: Seq::empty(),
            created_at: now,
            updated_at: now,
        }),
        r@.wf(),
{
    let r = HikeTrackerModel {
        _id: id,
        name,
        created_by_id: owner,
        hikes: Vec::new(),
        created_at: now,
        updated_at: now,
    };
    assert(r@.hikes =~= Seq::empty());
    r
}

/// The later of two instants.
pub open spec fn later(a: i64, b: i64) -> i64 {
    if a >= b {
        a
    } else {
        b
    }
}

/// `t` renamed to `new_name` at `now`: its `updated_at` moves forward to
/// `now` unless it is later already; nothing else changes.
pub fn apply_rename(t: HikeTrackerModel, new_name: String, now: i64) -> (r: HikeTrackerModel)
    ensures
        r@ == (TrackerView { name: new_name@, updated_at: later(t@.updated_at, now), ..t@ }),
        t@.wf() ==> r@.wf(),
{
    let mut r = t;
    r.name = new_name;
    if now > r.updated_at {
        r.updated_at = now;
    }
    r
}

} // verus!
