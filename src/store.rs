//! The tracker store: a collection of tracker documents in which names and
//! ids are unique, with idempotent seeding, lookups and renaming.
use vstd::prelude::*;
use crate::model::{
    apply_rename, fresh_object_id, later, new_tracker, now_millis, same_id, DocId, HikeTrackerModel,
    TrackerView,
};

verus! {

/// Why a store operation did not apply.
#[derive(PartialEq, Eq, Structural, Clone, Copy, Debug)]
pub enum StoreError {
    /// No document has the requested key.
    NotFound,
    /// The write would give two documents the same name or id.
    Conflict,
    /// The store could not be reached.
    StoreUnavailable,
}

/// No two documents share a name or an id, and every document's timestamps
/// are in order.
pub open spec fn docs_wf(docs: Seq<TrackerView>) -> bool {
    &&& forall|i: int, j: int|
        0 <= i < docs.len() && 0 <= j < docs.len() && #[trigger] docs[i].name
            == #[trigger] docs[j].name ==> i == j
    &&& forall|i: int, j: int|
        0 <= i < docs.len() && 0 <= j < docs.len() && #[trigger] docs[i].id == #[trigger] docs[j].id
            ==> i == j
    &&& forall|i: int| 0 <= i < docs.len() ==> #[trigger] docs[i].wf()
}

pub open spec fn has_name(docs: Seq<TrackerView>, n: Seq<char>) -> bool {
    exists|i: int| 0 <= i < docs.len() && #[trigger] docs[i].name == n
}

pub open spec fn has_id(docs: Seq<TrackerView>, id: Seq<u8>) -> bool {
    exists|i: int| 0 <= i < docs.len() && #[trigger] docs[i].id == id
}

pub open spec fn index_of_name(docs: Seq<TrackerView>, n: Seq<char>) -> int {
    choose|i: int| 0 <= i < docs.len() && #[trigger] docs[i].name == n
}

pub open spec fn index_of_id(docs: Seq<TrackerView>, id: Seq<u8>) -> int {
    choose|i: int| 0 <= i < docs.len() && #[trigger] docs[i].id == id
}

/// The document named `n`, if any.
pub open spec fn lookup_name(docs: Seq<TrackerView>, n: Seq<char>) -> Option<TrackerView> {
    if has_name(docs, n) {
        Some(docs[index_of_name(docs, n)])
    } else {
        None
    }
}

/// The document with id `id`, if any.
pub open spec fn lookup_id(docs: Seq<TrackerView>, id: Seq<u8>) -> Option<TrackerView> {
    if has_id(docs, id) {
        Some(docs[index_of_id(docs, id)])
    } else {
        None
    }
}

/// What seeding `n` with the fresh id `id` answers: the id of the document
/// already named `n`, or `id` when it was inserted, or a conflict when `id`
/// is already taken.
pub open spec fn seed_outcome(docs: Seq<TrackerView>, n: Seq<char>, id: Seq<u8>) -> Result<
    Seq<u8>,
    StoreError,
> {
    if has_name(docs, n) {
        Ok(docs[index_of_name(docs, n)].id)
    } else if has_id(docs, id) {
        Err(StoreError::Conflict)
    } else {
        Ok(id)
    }
}

/// The documents after seeding `n`: unchanged when `n` is present or `id` is
/// taken, else with a new empty tracker appended.
pub open spec fn seeded(
    docs: Seq<TrackerView>,
    n: Seq<char>,
    id: Seq<u8>,
    owner: Seq<u8>,
    now: i64,
) -> Seq<TrackerView> {
    if has_name(docs, n) || has_id(docs, id) {
        docs
    } else {
        docs.push(
            TrackerView {
                id,
                name: n,
                created_by: owner,
                hikes: Seq::empty(),
                created_at: now,
                updated_at: now,
            },
        )
    }
}

/// Whether a document other than the one with id `id` is named `n`.
pub open spec fn name_held_by_other(docs: Seq<TrackerView>, id: Seq<u8>, n: Seq<char>) -> bool {
    exists|i: int| 0 <= i < docs.len() && #[trigger] docs[i].name == n && docs[i].id != id
}

/// What renaming the document `id` to `n` answers.
pub open spec fn rename_outcome(docs: Seq<TrackerView>, id: Seq<u8>, n: Seq<char>) -> Result<
    (),
    StoreError,
> {
    if !has_id(docs, id) {
        Err(StoreError::NotFound)
    } else if name_held_by_other(docs, id, n) {
        Err(StoreError::Conflict)
    } else {
        Ok(())
    }
}

/// The documents after renaming `id` to `n` at `now`: on success only that
/// document changes, in its name and its `updated_at`; on failure nothing
/// changes.
pub open spec fn renamed(docs: Seq<TrackerView>, id: Seq<u8>, n: Seq<char>, now: i64) -> Seq<
    TrackerView,
> {
    if rename_outcome(docs, id, n) is Ok {
        let i = index_of_id(docs, id);
        docs.update(
            i,
            TrackerView { name: n, updated_at: later(docs[i].updated_at, now), ..docs[i] },
        )
    } else {
        docs
    }
}

/// A collection of tracker documents.
pub struct TrackerStore {
    docs: Vec<HikeTrackerModel>,
}

impl View for TrackerStore {
    type V = Seq<TrackerView>;

    closed spec fn view(&self) -> Seq<TrackerView> {
        self.docs@.map_values(|t: HikeTrackerModel| t@)
    }
}

impl TrackerStore {
    /// An empty store.
    pub fn new() -> (r: TrackerStore)
        ensures
            r@ == Seq::<TrackerView>::empty(),
            docs_wf(r@),
    {
        let r = TrackerStore { docs: Vec::new() };
        assert(r@ =~= Seq::<TrackerView>::empty());
        r
    }

    /// The number of documents.
    pub fn len(&self) -> (r: usize)
        ensures
            r == self@.len(),
    {
        self.docs.len()
    }

    fn position_of_name(&self, name: &String) -> (r: Option<usize>)
        requires
            docs_wf(self@),
        ensures
            r is None <==> !has_name(self@, name@),
            r matches Some(i) ==> i < self@.len() && i == index_of_name(self@, name@),
    {
        let mut i: usize = 0;
        while i < self.docs.len()
            invariant
                i <= self.docs@.len(),
                self@.len() == self.docs@.len(),
                docs_wf(self@),
                forall|j: int| 0 <= j < i ==> #[trigger] self@[j].name != name@,
            decreases self.docs@.len() - i,
        {
            if self.docs[i].name == *name {
                proof {
                    assert(self@[i as int].name == name@);
                    let k = index_of_name(self@, name@);
                    assert(self@[k].name == name@);
                    assert(k == i);
                }
                return Some(i);
            }
            i = i + 1;
        }
        None
    }

    fn position_of_id(&self, id: &DocId) -> (r: Option<usize>)
        requires
            docs_wf(self@),
        ensures
            r is None <==> !has_id(self@, id@),
            r matches Some(i) ==> i < self@.len() && i == index_of_id(self@, id@),
    {
        let mut i: usize = 0;
        while i < self.docs.len()
            invariant
                i <= self.docs@.len(),
                self@.len() == self.docs@.len(),
                docs_wf(self@),
                forall|j: int| 0 <= j < i ==> #[trigger] self@[j].id != id@,
            decreases self.docs@.len() - i,
        {
            if same_id(&self.docs[i]._id, id) {
                proof {
                    assert(self@[i as int].id == id@);
                    let k = index_of_id(self@, id@);
                    assert(self@[k].id == id@);
                    assert(k == i);
                }
                return Some(i);
            }
            i = i + 1;
        }
        None
    }

    /// The tracker named `name`, or `None`.
    pub fn find_by_name(&self, name: &str) -> (r: Option<&HikeTrackerModel>)
        requires
            docs_wf(self@),
        ensures
            r matches Some(t) ==> lookup_name(self@, name@) == Some(t@),
            r is None ==> lookup_name(self@, name@) is None,
    {
        let key = String::from_str(name);
        match self.position_of_name(&key) {
            Some(i) => Some(&self.docs[i]),
            None => None,
        }
    }

    /// The tracker with id `id`, or `None`.
    pub fn find_by_id(&self, id: &DocId) -> (r: Option<&HikeTrackerModel>)
        requires
            docs_wf(self@),
        ensures
            r matches Some(t) ==> lookup_id(self@, id@) == Some(t@),
            r is None ==> lookup_id(self@, id@) is None,
    {
        match self.position_of_id(id) {
            Some(i) => Some(&self.docs[i]),
            None => None,
        }
    }

    /// Inserts a tracker named `name`, with id `id`, owner `owner` and both
    /// timestamps `now`, unless a tracker of that name exists: then nothing
    /// changes and its id is returned. An `id` already in use is a conflict.
    pub fn seed_with(&mut self, name: String, id: DocId, owner: DocId, now: i64) -> (r: Result<
        DocId,
        StoreError,
    >)
        requires
            docs_wf(old(self)@),
        ensures
            docs_wf(final(self)@),
            final(self)@ == seeded(old(self)@, name@, id@, owner@, now),
            id_result(r) == seed_outcome(old(self)@, name@, id@),
            r matches Ok(x) ==> (lookup_name(final(self)@, name@) matches Some(t) && t.id == x@),
    {
        if let Some(i) = self.position_of_name(&name) {
            proof {
                assert(self@[i as int].name == name@);
            }
            return Ok(self.docs[i]._id);
        }
        if self.position_of_id(&id).is_some() {
            return Err(StoreError::Conflict);
        }
        let t = new_tracker(name, id, owner, now);
        let ghost before = self@;
        self.docs.push(t);
        proof {
            assert(self@ =~= before.push(t@));
            lemma_seeded_wf(before, name@, id@, owner@, now);
            let n = before.len() as int;
            assert(self@[n].name == name@);
            let k = index_of_name(self@, name@);
            assert(self@[k].name == name@);
        }
        Ok(id)
    }

    /// Makes sure a tracker named `name` exists: when one does, nothing
    /// changes and its id is returned; else a new one, with no hikes, a fresh
    /// id and both timestamps the current time, is inserted. Should the fresh
    /// id already be in use, nothing changes and the answer is a conflict.
    pub fn seed_if_absent(&mut self, name: &str) -> (r: Result<DocId, StoreError>)
        requires
            docs_wf(old(self)@),
        ensures
            docs_wf(final(self)@),
            r matches Ok(x) ==> (lookup_name(final(self)@, name@) matches Some(t) && t.id == x@),
            has_name(old(self)@, name@) ==> final(self)@ == old(self)@ && id_result(r) == Ok::<
                Seq<u8>,
                StoreError,
            >(old(self)@[index_of_name(old(self)@, name@)].id),
            !has_name(old(self)@, name@) ==> match r {
                Ok(id) => exists|owner: Seq<u8>, now: i64|
                    final(self)@ == old(self)@.push(
                        TrackerView {
                            id: id@,
                            name: name@,
                            created_by: owner,
                            hikes: Seq::empty(),
                            created_at: now,
                            updated_at: now,
                        },
                    ),
                Err(e) => e == StoreError::Conflict && final(self)@ == old(self)@ && old(
                    self,
                )@.len() > 0,
            },
            exists|id: DocId, owner: DocId, now: i64|
                final(self)@ == seeded(old(self)@, name@, id@, owner@, now) && id_result(r)
                    == seed_outcome(old(self)@, name@, id@),
    {
        let id = fresh_object_id();
        let owner = fresh_object_id();
        let now = now_millis();
        let r = self.seed_with(String::from_str(name), id, owner, now);
        proof {
            if r is Err && !has_name(old(self)@, name@) {
                let k = index_of_id(old(self)@, id@);
                assert(old(self)@[k].id == id@);
            }
            if !has_name(old(self)@, name@) && r is Ok {
                assert(final(self)@ == old(self)@.push(
                    TrackerView {
                        id: id@,
                        name: name@,
                        created_by: owner@,
                        hikes: Seq::empty(),
                        created_at: now,
                        updated_at: now,
                    },
                ));
            }
        }
        r
    }

    /// Renames the tracker with id `id` to `new_name` at the instant `now`,
    /// moving its `updated_at` forward to `now` unless it is later already.
    /// Fails, changing nothing, with `NotFound` when no tracker has that id
    /// and with `Conflict` when another tracker is named `new_name`.
    pub fn rename_at(&mut self, id: &DocId, new_name: String, now: i64) -> (r: Result<
        (),
        StoreError,
    >)
        requires
            docs_wf(old(self)@),
        ensures
            docs_wf(final(self)@),
            r == rename_outcome(old(self)@, id@, new_name@),
            final(self)@ == renamed(old(self)@, id@, new_name@, now),
    {
        let i = match self.position_of_id(id) {
            Some(i) => i,
            None => {
                return Err(StoreError::NotFound);
            },
        };
        let mut j: usize = 0;
        while j < self.docs.len()
            invariant
                j <= self.docs@.len(),
                self@.len() == self.docs@.len(),
                docs_wf(self@),
                i < self@.len(),
                self@[i as int].id == id@,
                forall|k: int|
                    0 <= k < j ==> !(#[trigger] self@[k].name == new_name@ && self@[k].id != id@),
            decreases self.docs@.len() - j,
        {
            if self.docs[j].name == new_name && !same_id(&self.docs[j]._id, id) {
                assert(self@[j as int].name == new_name@ && self@[j as int].id != id@);
                return Err(StoreError::Conflict);
            }
            j = j + 1;
        }
        let ghost before = self@;
        let ghost before_docs = self.docs@;
        let t = self.docs.remove(i);
        let t = apply_rename(t, new_name, now);
        self.docs.insert(i, t);
        proof {
            assert(self.docs@ =~= before_docs.update(i as int, t));
            assert(self@ =~= before.update(i as int, t@));
            lemma_renamed_wf(before, id@, new_name@, now);
        }
        Ok(())
    }

    /// Renames the tracker with id `id` to `new_name`, stamping it with the
    /// current time; fails as `rename_at` does.
    pub fn rename(&mut self, id: &DocId, new_name: String) -> (r: Result<(), StoreError>)
        requires
            docs_wf(old(self)@),
        ensures
            docs_wf(final(self)@),
            r == rename_outcome(old(self)@, id@, new_name@),
            exists|now: i64| final(self)@ == renamed(old(self)@, id@, new_name@, now),
    {
        let now = now_millis();
        self.rename_at(id, new_name, now)
    }
}

/// The view of an id-or-error answer.
pub open spec fn id_result(r: Result<DocId, StoreError>) -> Result<Seq<u8>, StoreError> {
    match r {
        Ok(id) => Ok(id@),
        Err(e) => Err(e),
    }
}

/// Exactly one document is named `n`.
pub open spec fn exactly_one_named(docs: Seq<TrackerView>, n: Seq<char>) -> bool {
    exists|i: int|
        0 <= i < docs.len() && #[trigger] docs[i].name == n && forall|j: int|
            0 <= j < docs.len() && #[trigger] docs[j].name == n ==> j == i
}

/// Seeding keeps names and ids unique and timestamps in order.
pub proof fn lemma_seeded_wf(docs: Seq<TrackerView>, n: Seq<char>, id: Seq<u8>, owner: Seq<u8>, now: i64)
    requires
        docs_wf(docs),
    ensures
        docs_wf(seeded(docs, n, id, owner, now)),
{
    let d = seeded(docs, n, id, owner, now);
    let len = docs.len() as int;
    if !(has_name(docs, n) || has_id(docs, id)) {
        assert forall|a: int, b: int|
            0 <= a < d.len() && 0 <= b < d.len() && #[trigger] d[a].name == #[trigger] d[b].name
                implies a == b by {
            if a == len && b < len {
                assert(docs[b].name == n);
            } else if b == len && a < len {
                assert(docs[a].name == n);
            }
        }
        assert forall|a: int, b: int|
            0 <= a < d.len() && 0 <= b < d.len() && #[trigger] d[a].id == #[trigger] d[b].id
                implies a == b by {
            if a == len && b < len {
                assert(docs[b].id == id);
            } else if b == len && a < len {
                assert(docs[a].id == id);
            }
        }
        assert forall|a: int| 0 <= a < d.len() implies #[trigger] d[a].wf() by {
            if a < len {
                assert(docs[a].wf());
            }
        }
    }
}

/// Renaming keeps names and ids unique and timestamps in order.
pub proof fn lemma_renamed_wf(docs: Seq<TrackerView>, id: Seq<u8>, n: Seq<char>, now: i64)
    requires
        docs_wf(docs),
    ensures
        docs_wf(renamed(docs, id, n, now)),
{
    if rename_outcome(docs, id, n) is Ok {
        let d = renamed(docs, id, n, now);
        let i = index_of_id(docs, id);
        assert(docs[i].id == id);
        assert forall|a: int, b: int|
            0 <= a < d.len() && 0 <= b < d.len() && #[trigger] d[a].name == #[trigger] d[b].name
                implies a == b by {
            if a == i && b != i {
                assert(docs[b].name == n);
                assert(docs[b].id == id);
            } else if b == i && a != i {
                assert(docs[a].name == n);
                assert(docs[a].id == id);
            }
        }
        assert forall|a: int, b: int|
            0 <= a < d.len() && 0 <= b < d.len() && #[trigger] d[a].id == #[trigger] d[b].id
                implies a == b by {
            assert(docs[a].id == d[a].id);
            assert(docs[b].id == d[b].id);
        }
        assert forall|a: int| 0 <= a < d.len() implies #[trigger] d[a].wf() by {
            assert(docs[a].wf());
        }
    }
}

/// A well-formed collection that holds the name `n` holds exactly one
/// document of that name.
pub proof fn lemma_name_held_once(docs: Seq<TrackerView>, n: Seq<char>)
    requires
        docs_wf(docs),
        has_name(docs, n),
    ensures
        exactly_one_named(docs, n),
{
    let i = index_of_name(docs, n);
    assert(docs[i].name == n);
}

/// Seeding a name twice is idempotent: once either seed has gone through,
/// exactly one tracker carries the name, and a second seed after a first
/// that went through changes nothing and answers the same id.
pub proof fn lemma_seed_twice(
    docs: Seq<TrackerView>,
    n: Seq<char>,
    id1: Seq<u8>,
    owner1: Seq<u8>,
    now1: i64,
    id2: Seq<u8>,
    owner2: Seq<u8>,
    now2: i64,
)
    requires
        docs_wf(docs),
    ensures
        ({
            let d1 = seeded(docs, n, id1, owner1, now1);
            let d2 = seeded(d1, n, id2, owner2, now2);
            &&& (seed_outcome(docs, n, id1) is Ok || seed_outcome(d1, n, id2) is Ok)
                ==> exactly_one_named(d2, n)
            &&& seed_outcome(docs, n, id1) is Ok ==> d2 == d1 && seed_outcome(d1, n, id2)
                == seed_outcome(docs, n, id1)
        }),
{
    let d1 = seeded(docs, n, id1, owner1, now1);
    let d2 = seeded(d1, n, id2, owner2, now2);
    lemma_seeded_wf(docs, n, id1, owner1, now1);
    lemma_seeded_wf(d1, n, id2, owner2, now2);
    if seed_outcome(docs, n, id1) is Ok {
        if !has_name(docs, n) {
            assert(d1[docs.len() as int].name == n);
        }
        assert(has_name(d1, n));
        assert(d2 == d1);
        if !has_name(docs, n) {
            let k = index_of_name(d1, n);
            assert(d1[k].name == n);
            assert(d1[docs.len() as int].name == n);
            assert(k == docs.len());
        }
        lemma_name_held_once(d2, n);
    } else if seed_outcome(d1, n, id2) is Ok {
        if !has_name(d1, n) {
            assert(d2[d1.len() as int].name == n);
        }
        assert(has_name(d2, n));
        lemma_name_held_once(d2, n);
    }
}

/// Two renames of different trackers to the same name, applied one after
/// the other as the store applies its atomic updates: at most one of them
/// succeeds, and one that fails answers `Conflict` and changes nothing.
pub proof fn lemma_competing_renames(
    docs: Seq<TrackerView>,
    a: Seq<u8>,
    b: Seq<u8>,
    n: Seq<char>,
    now_a: i64,
    now_b: i64,
)
    requires
        docs_wf(docs),
        has_id(docs, a),
        has_id(docs, b),
        a != b,
    ensures
        ({
            let d1 = renamed(docs, a, n, now_a);
            let ra = rename_outcome(docs, a, n);
            let rb = rename_outcome(d1, b, n);
            &&& !(ra is Ok && rb is Ok)
            &&& ra is Err ==> ra == Err::<(), StoreError>(StoreError::Conflict) && d1 == docs
            &&& rb is Err ==> rb == Err::<(), StoreError>(StoreError::Conflict) && renamed(
                d1,
                b,
                n,
                now_b,
            ) == d1
        }),
{
    let d1 = renamed(docs, a, n, now_a);
    let j = index_of_id(docs, b);
    assert(docs[j].id == b);
    if rename_outcome(docs, a, n) is Ok {
        let i = index_of_id(docs, a);
        assert(docs[i].id == a);
        assert(d1[i].name == n && d1[i].id != b);
        assert(name_held_by_other(d1, b, n));
        if i == j {
        } else {
            assert(d1[j].id == b);
        }
        assert(has_id(d1, b));
    } else {
        assert(d1 == docs);
    }
}

/// Seeding a name that no tracker holds inserts a tracker that a lookup by
/// the answered id finds, under that name, with no hikes, and with its two
/// timestamps equal.
pub proof fn lemma_seeded_tracker_is_fresh(
    docs: Seq<TrackerView>,
    n: Seq<char>,
    id: Seq<u8>,
    owner: Seq<u8>,
    now: i64,
)
    requires
        docs_wf(docs),
        !has_name(docs, n),
    ensures
        seed_outcome(docs, n, id) matches Ok(x) ==> lookup_id(seeded(docs, n, id, owner, now), x)
            matches Some(t) && t.name == n && t.hikes.len() == 0 && t.created_at == t.updated_at,
{
    if seed_outcome(docs, n, id) is Ok {
        let d = seeded(docs, n, id, owner, now);
        lemma_seeded_wf(docs, n, id, owner, now);
        let len = docs.len() as int;
        assert(d[len].id == id);
        let k = index_of_id(d, id);
        assert(d[k].id == id);
        assert(k == len);
    }
}

/// What to insert when seeding the name `name`, given the tracker that a
/// lookup of that name found: nothing when one was found, else a new tracker
/// named `name` with no hikes, fresh ids, and both timestamps the current
/// time.
pub fn tracker_to_seed(found: Option<&HikeTrackerModel>, name: &str) -> (r: Option<HikeTrackerModel>)
    ensures
        found is Some ==> r is None,
        found is None ==> (r matches Some(t) && t@.name == name@ && t@.hikes.len() == 0
            && t@.created_at == t@.updated_at),
{
    match found {
        Some(_) => None,
        None => {
            let id = fresh_object_id();
            let owner = fresh_object_id();
            let now = now_millis();
            Some(new_tracker(String::from_str(name), id, owner, now))
        },
    }
}

/// A rename that succeeds moves the tracker to its new name: a lookup of the
/// new name finds it, and a lookup of its former name, if that differs,
/// finds nothing.
pub proof fn lemma_rename_moves_name(docs: Seq<TrackerView>, id: Seq<u8>, n: Seq<char>, now: i64)
    requires
        docs_wf(docs),
        rename_outcome(docs, id, n) is Ok,
    ensures
        ({
            let d = renamed(docs, id, n, now);
            let former = docs[index_of_id(docs, id)].name;
            &&& lookup_name(d, n) matches Some(t) && t.id == id
            &&& former != n ==> lookup_name(d, former) is None
        }),
{
    let d = renamed(docs, id, n, now);
    let i = index_of_id(docs, id);
    assert(docs[i].id == id);
    lemma_renamed_wf(docs, id, n, now);
    assert(d[i].name == n);
    let k = index_of_name(d, n);
    assert(d[k].name == n);
    let former = docs[i].name;
    if former != n {
        assert forall|j: int| 0 <= j < d.len() implies #[trigger] d[j].name != former by {
            if j != i && d[j].name == former {
                assert(docs[j].name == docs[i].name);
            }
        }
    }
}

} // verus!
