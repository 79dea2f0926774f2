use crate::db::{
    listed_pred, matching, ordered_matches, page_slice, text_of, VideoQuery,
};
use crate::order::{lemma_listing_total, listing_leq, precedes};
use vstd::relations::{sorted_by, total_ordering};
use vstd::seq_lib::lemma_multiset_commutative;
use crate::entity::{views, Model, VideoView};
use crate::error::{AppError, StorageError};
use crate::text::same_text;
use vstd::prelude::*;

verus! {

/// Position of the last record with this id, or -1.
pub open spec fn last_index(rows: Seq<VideoView>, id: int) -> int
    decreases rows.len(),
{
    if rows.len() == 0 {
        -1
    } else if rows.last().id == id {
        rows.len() - 1
    } else {
        last_index(rows.drop_last(), id)
    }
}

/// Position of the active record with this id, or -1.
pub open spec fn active_index(rows: Seq<VideoView>, id: int) -> int {
    let i = last_index(rows, id);
    if i >= 0 && rows[i].deleted_at is None {
        i
    } else {
        -1
    }
}

/// The active record with this id, if there is one.
pub open spec fn find_active(rows: Seq<VideoView>, id: int) -> Option<VideoView> {
    let i = active_index(rows, id);
    if i >= 0 {
        Some(rows[i])
    } else {
        None
    }
}

/// Whether a record other than the one at `except` holds this YouTube id.
pub open spec fn youtube_id_taken(rows: Seq<VideoView>, y: Seq<char>, except: int) -> bool {
    exists|j: int| 0 <= j < rows.len() && j != except && #[trigger] rows[j].youtube_id == y
}

/// The stamp that a write at clock reading `now` gives a record last
/// stamped `last`: `now` when it is later, else the next representable
/// instant after `last`, if any. A record's stamps thus strictly increase.
pub open spec fn next_stamp(last: int, now: int) -> Option<int> {
    if now > last {
        Some(now)
    } else if last < i64::MAX {
        Some(last + 1)
    } else {
        None
    }
}

/// A record after a partial update stamped `t`.
pub open spec fn apply_update(
    v: VideoView,
    title: Option<Seq<char>>,
    youtube_id: Option<Seq<char>>,
    t: int,
) -> VideoView {
    VideoView {
        id: v.id,
        title: match title {
            Some(x) => x,
            None => v.title,
        },
        youtube_id: match youtube_id {
            Some(x) => x,
            None => v.youtube_id,
        },
        created_at: v.created_at,
        updated_at: t,
        deleted_at: v.deleted_at,
    }
}

/// A record after a soft delete stamped `t`.
pub open spec fn apply_delete(v: VideoView, t: int) -> VideoView {
    VideoView { updated_at: t, deleted_at: Some(t), ..v }
}

/// A fresh record.
pub open spec fn new_record(id: int, title: Seq<char>, youtube_id: Seq<char>, t: int) -> VideoView {
    VideoView {
        id,
        title,
        youtube_id,
        created_at: t,
        updated_at: t,
        deleted_at: None,
    }
}

/// The invariant of the table: ids are unique, positive and below the next
/// id; YouTube ids are unique; no record was updated before it was created.
pub open spec fn table_ok(rows: Seq<VideoView>, next_id: int) -> bool {
    &&& 1 <= next_id <= i32::MAX + 1
    &&& forall|i: int| 0 <= i < rows.len() ==> 1 <= #[trigger] rows[i].id < next_id
    &&& forall|i: int, j: int|
        0 <= i < rows.len() && 0 <= j < rows.len() && i != j ==> #[trigger] rows[i].id
            != #[trigger] rows[j].id
    &&& forall|i: int, j: int|
        0 <= i < rows.len() && 0 <= j < rows.len() && i != j ==> #[trigger] rows[i].youtube_id
            != #[trigger] rows[j].youtube_id
    &&& forall|i: int| 0 <= i < rows.len() ==> (#[trigger] rows[i]).created_at <= rows[i].updated_at
}

pub proof fn lemma_last_index(rows: Seq<VideoView>, id: int)
    ensures
        -1 <= last_index(rows, id) < rows.len(),
        last_index(rows, id) >= 0 ==> rows[last_index(rows, id)].id == id,
        last_index(rows, id) == -1 ==> forall|i: int|
            0 <= i < rows.len() ==> #[trigger] rows[i].id != id,
    decreases rows.len(),
{
    if rows.len() > 0 {
        lemma_last_index(rows.drop_last(), id);
        if last_index(rows, id) == -1 {
            assert forall|i: int| 0 <= i < rows.len() implies #[trigger] rows[i].id != id by {
                if i < rows.len() - 1 {
                    assert(rows.drop_last()[i] == rows[i]);
                }
            }
        }
    }
}

/// Replacing the last record of an id by another of the same id keeps it the last.
pub proof fn lemma_last_index_update(rows: Seq<VideoView>, id: int, v: VideoView)
    requires
        last_index(rows, id) >= 0,
        v.id == id,
    ensures
        last_index(rows.update(last_index(rows, id), v), id) == last_index(rows, id),
    decreases rows.len(),
{
    let k = last_index(rows, id);
    let u = rows.update(k, v);
    lemma_last_index(rows, id);
    if k < rows.len() - 1 {
        assert(u.drop_last() =~= rows.drop_last().update(k, v));
        lemma_last_index_update(rows.drop_last(), id, v);
    }
}

/// Why a create on this table fails, if it does.
pub open spec fn create_fault(
    rows: Seq<VideoView>,
    next_id: int,
    youtube_id: Seq<char>,
) -> Option<StorageError> {
    if next_id > i32::MAX {
        Some(StorageError::IdsExhausted)
    } else if youtube_id_taken(rows, youtube_id, -1) {
        Some(StorageError::DuplicateYoutubeId)
    } else {
        None
    }
}

/// Why an update of the active record with id `id` fails, if it does.
pub open spec fn update_fault(
    rows: Seq<VideoView>,
    id: int,
    youtube_id: Option<Seq<char>>,
) -> Option<StorageError> {
    if active_index(rows, id) < 0 {
        None
    } else if youtube_id matches Some(y) && youtube_id_taken(rows, y, active_index(rows, id)) {
        Some(StorageError::DuplicateYoutubeId)
    } else if rows[active_index(rows, id)].updated_at == i64::MAX {
        Some(StorageError::ClockExhausted)
    } else {
        None
    }
}

/// Why a delete of the active record with id `id` fails, if it does.
pub open spec fn delete_fault(rows: Seq<VideoView>, id: int) -> Option<StorageError> {
    if active_index(rows, id) >= 0 && rows[active_index(rows, id)].updated_at == i64::MAX {
        Some(StorageError::ClockExhausted)
    } else {
        None
    }
}

proof fn lemma_insert_multiset<A>(s: Seq<A>, p: int, x: A)
    requires
        0 <= p <= s.len(),
    ensures
        s.insert(p, x).to_multiset() =~= s.to_multiset().insert(x),
{
    broadcast use vstd::seq_lib::group_to_multiset_ensures;

    let a = s.take(p);
    let b = s.skip(p);
    s.insert_ensures(p, x);
    assert(s =~= a + b);
    assert(s.insert(p, x) =~= a.push(x) + b);
    lemma_multiset_commutative(a, b);
    lemma_multiset_commutative(a.push(x), b);
}

/// Whether records read back from storage can form a table: ids in range
/// and unique, YouTube ids unique, and no record updated before it was created.
pub open spec fn restorable(rows: Seq<VideoView>) -> bool {
    &&& forall|i: int| 0 <= i < rows.len() ==> 1 <= #[trigger] rows[i].id <= i32::MAX
    &&& forall|i: int, j: int|
        0 <= i < rows.len() && 0 <= j < rows.len() && i != j ==> #[trigger] rows[i].id
            != #[trigger] rows[j].id
    &&& forall|i: int, j: int|
        0 <= i < rows.len() && 0 <= j < rows.len() && i != j ==> #[trigger] rows[i].youtube_id
            != #[trigger] rows[j].youtube_id
    &&& forall|i: int| 0 <= i < rows.len() ==> (#[trigger] rows[i]).created_at <= rows[i].updated_at
}

/// The latest instant chrono represents (December 31, 262142, 23:59:59.999999
/// UTC), in microseconds since the Unix epoch.
pub const MAX_TIME_MICROS: i64 = 8_210_266_876_799_999_999;

/// An upper bound on the stamp that a write whose clock reading lies within
/// chrono's range gives a record last stamped `last`: the stamp is the
/// reading or just after `last`.
pub open spec fn stamp_bound(last: int) -> int {
    if last + 1 > MAX_TIME_MICROS {
        last + 1
    } else {
        MAX_TIME_MICROS as int
    }
}

/// Relies on chrono::Utc::now and DateTime::timestamp_micros: the current UTC
/// time, as microseconds since the Unix epoch. `Utc::now` panics when the
/// system clock reads before the epoch, or past `DateTime::MAX_UTC` (it
/// unwraps `DateTime::from_timestamp`); when it returns, the value lies
/// between 0 and `MAX_TIME_MICROS`. Nothing else is promised of the value.
#[verifier::external_body]
fn now_micros() -> (r: i64)
    ensures
        0 <= r <= MAX_TIME_MICROS,
{
    chrono::Utc::now().timestamp_micros()
}

/// The table of videos: records in insertion order, soft-deleted ones kept.
pub struct VideoRepository {
    rows: Vec<Model>,
    next_id: i64,
}

impl VideoRepository {
    /// The records, in insertion order.
    pub closed spec fn table(&self) -> Seq<VideoView> {
        views(self.rows@)
    }

    /// The id the next record will get.
    pub closed spec fn next_id(&self) -> int {
        self.next_id as int
    }

    pub open spec fn wf(&self) -> bool {
        table_ok(self.table(), self.next_id())
    }

    /// An empty table.
    pub fn new() -> (r: VideoRepository)
        ensures
            r.wf(),
            r.table().len() == 0,
            r.next_id() == 1,
    {
        VideoRepository { rows: Vec::new(), next_id: 1 }
    }

    pub open spec fn unchanged_from(&self, other: &VideoRepository) -> bool {
        &&& self.table() == other.table()
        &&& self.next_id() == other.next_id()
    }

    /// The stamp that a write at clock reading `now` gives a record last
    /// stamped `last`.
    fn stamp(last: i64, now: i64) -> (r: Option<i64>)
        ensures
            match r {
                Some(t) => next_stamp(last as int, now as int) == Some(t as int),
                None => next_stamp(last as int, now as int) is None,
            },
    {
        if now > last {
            Some(now)
        } else if last < i64::MAX {
            Some(last + 1)
        } else {
            None
        }
    }

    /// Whether a record other than the one at `except` holds this YouTube id.
    fn youtube_id_in_use(&self, y: &String, except: Option<usize>) -> (r: bool)
        ensures
            r == youtube_id_taken(
                self.table(),
                y@,
                match except {
                    Some(k) => k as int,
                    None => -1,
                },
            ),
    {
        let ghost e: int = match except {
            Some(k) => k as int,
            None => -1,
        };
        let mut j: usize = 0;
        while j < self.rows.len()
            invariant
                j <= self.rows.len(),
                self.table().len() == self.rows.len(),
                e == match except {
                    Some(k) => k as int,
                    None => -1,
                },
                forall|k: int| 0 <= k < j && k != e ==> #[trigger] self.table()[k].youtube_id != y@,
            decreases self.rows.len() - j,
        {
            let skip = match except {
                Some(k) => k == j,
                None => false,
            };
            if !skip && same_text(self.rows[j].youtube_id.as_str(), y.as_str()) {
                assert(self.table()[j as int].youtube_id == y@);
                return true;
            }
            j = j + 1;
        }
        false
    }

    /// Inserts a new active record, created and updated at `now`, and returns it.
    pub fn create_at(&mut self, title: String, youtube_id: String, now: i64) -> (r: Result<Model, AppError>)
        requires
            old(self).wf(),
        ensures
            final(self).wf(),
            match create_fault(old(self).table(), old(self).next_id(), youtube_id@) {
                Some(f) => r == Err::<Model, AppError>(AppError::Database(f)) && final(self).unchanged_from(old(self)),
                None => r matches Ok(m) && {
                    &&& m@ == new_record(old(self).next_id(), title@, youtube_id@, now as int)
                    &&& final(self).table() == old(self).table().push(m@)
                    &&& final(self).next_id() == old(self).next_id() + 1
                },
            },
    {
        if self.next_id > i32::MAX as i64 {
            return Err(AppError::Database(StorageError::IdsExhausted));
        }
        if self.youtube_id_in_use(&youtube_id, None) {
            return Err(AppError::Database(StorageError::DuplicateYoutubeId));
        }
        let m = Model {
            id: self.next_id as i32,
            title,
            youtube_id,
            created_at: now,
            updated_at: now,
            deleted_at: None,
        };
        let ghost v = m@;
        let ghost before = self.table();
        self.rows.push(m.duplicate());
        self.next_id = self.next_id + 1;
        assert(self.table() =~= before.push(v));
        Ok(m)
    }

    /// Inserts a new active record, created and updated at the current time.
    pub fn create(&mut self, title: String, youtube_id: String) -> (r: Result<Model, AppError>)
        requires
            old(self).wf(),
        ensures
            final(self).wf(),
            match create_fault(old(self).table(), old(self).next_id(), youtube_id@) {
                Some(f) => r == Err::<Model, AppError>(AppError::Database(f)) && final(self).unchanged_from(old(self)),
                None => r matches Ok(m) && {
                    &&& 0 <= m@.created_at <= MAX_TIME_MICROS
                    &&& m@ == new_record(old(self).next_id(), title@, youtube_id@, m@.created_at)
                    &&& final(self).table() == old(self).table().push(m@)
                    &&& final(self).next_id() == old(self).next_id() + 1
                },
            },
    {
        let now = now_micros();
        self.create_at(title, youtube_id, now)
    }

    /// Applies the given fields to the active record with this id, stamped
    /// at `now`, or just after the record's last stamp if `now` is not later.
    /// `Ok(None)` when there is no such record.
    pub fn update_at(
        &mut self,
        id: i32,
        title: Option<String>,
        youtube_id: Option<String>,
        now: i64,
    ) -> (r: Result<Option<Model>, AppError>)
        requires
            old(self).wf(),
        ensures
            final(self).wf(),
            match update_fault(old(self).table(), id as int, text_of(youtube_id)) {
                Some(f) => r == Err::<Option<Model>, AppError>(AppError::Database(f))
                    && final(self).unchanged_from(old(self)),
                None => if active_index(old(self).table(), id as int) < 0 {
                    r == Ok::<Option<Model>, AppError>(None) && final(self).unchanged_from(old(self))
                } else {
                    r matches Ok(Some(m)) && {
                        let k = active_index(old(self).table(), id as int);
                        &&& next_stamp(old(self).table()[k].updated_at, now as int) == Some(m@.updated_at)
                        &&& m@ == apply_update(old(self).table()[k], text_of(title), text_of(youtube_id), m@.updated_at)
                        &&& final(self).table() == old(self).table().update(k, m@)
                        &&& final(self).next_id() == old(self).next_id()
                    }
                },
            },
    {
        proof {
            lemma_last_index(self.table(), id as int);
        }
        let i = match self.position(id) {
            Some(i) => i,
            None => {
                return Ok(None);
            },
        };
        if self.rows[i].deleted_at.is_some() {
            return Ok(None);
        }
        if let Some(y) = &youtube_id {
            if self.youtube_id_in_use(y, Some(i)) {
                return Err(AppError::Database(StorageError::DuplicateYoutubeId));
            }
        }
        let t = match VideoRepository::stamp(self.rows[i].updated_at, now) {
            Some(t) => t,
            None => {
                return Err(AppError::Database(StorageError::ClockExhausted));
            },
        };
        let current = self.rows[i].duplicate();
        let new_title = match title {
            Some(x) => x,
            None => current.title,
        };
        let new_youtube_id = match youtube_id {
            Some(x) => x,
            None => current.youtube_id,
        };
        let m = Model {
            id: current.id,
            title: new_title,
            youtube_id: new_youtube_id,
            created_at: current.created_at,
            updated_at: t,
            deleted_at: current.deleted_at,
        };
        let ghost v = m@;
        let ghost before = self.table();
        self.rows[i] = m.duplicate();
        assert(self.table() =~= before.update(i as int, v));
        Ok(Some(m))
    }

    /// Applies the given fields to the active record with this id, stamped
    /// with the current time, or just after the record's last stamp if the clock has
    /// not moved past it. `Ok(None)` when there is no such record.
    pub fn update(
        &mut self,
        id: i32,
        title: Option<String>,
        youtube_id: Option<String>,
    ) -> (r: Result<Option<Model>, AppError>)
        requires
            old(self).wf(),
        ensures
            final(self).wf(),
            match update_fault(old(self).table(), id as int, text_of(youtube_id)) {
                Some(f) => r == Err::<Option<Model>, AppError>(AppError::Database(f))
                    && final(self).unchanged_from(old(self)),
                None => if active_index(old(self).table(), id as int) < 0 {
                    r == Ok::<Option<Model>, AppError>(None) && final(self).unchanged_from(old(self))
                } else {
                    r matches Ok(Some(m)) && {
                        let k = active_index(old(self).table(), id as int);
                        &&& old(self).table()[k].updated_at < m@.updated_at <= stamp_bound(old(self).table()[k].updated_at)
                        &&& m@ == apply_update(old(self).table()[k], text_of(title), text_of(youtube_id), m@.updated_at)
                        &&& final(self).table() == old(self).table().update(k, m@)
                        &&& final(self).next_id() == old(self).next_id()
                    }
                },
            },
    {
        let now = now_micros();
        self.update_at(id, title, youtube_id, now)
    }

    /// Soft-deletes the active record with this id, stamped at `now`, or just
    /// after the record's last stamp if `now` is not later. `Ok(false)` when
    /// there is no such record.
    pub fn delete_at(&mut self, id: i32, now: i64) -> (r: Result<bool, AppError>)
        requires
            old(self).wf(),
        ensures
            final(self).wf(),
            match delete_fault(old(self).table(), id as int) {
                Some(f) => r == Err::<bool, AppError>(AppError::Database(f)) && final(self).unchanged_from(old(self)),
                None => if active_index(old(self).table(), id as int) < 0 {
                    r == Ok::<bool, AppError>(false) && final(self).unchanged_from(old(self))
                } else {
                    let k = active_index(old(self).table(), id as int);
                    &&& r == Ok::<bool, AppError>(true)
                    &&& next_stamp(old(self).table()[k].updated_at, now as int) == Some(final(self).table()[k].updated_at)
                    &&& final(self).table() == old(self).table().update(k, apply_delete(old(self).table()[k], final(self).table()[k].updated_at))
                    &&& final(self).next_id() == old(self).next_id()
                },
            },
    {
        proof {
            lemma_last_index(self.table(), id as int);
        }
        let i = match self.position(id) {
            Some(i) => i,
            None => {
                return Ok(false);
            },
        };
        if self.rows[i].deleted_at.is_some() {
            return Ok(false);
        }
        let t = match VideoRepository::stamp(self.rows[i].updated_at, now) {
            Some(t) => t,
            None => {
                return Err(AppError::Database(StorageError::ClockExhausted));
            },
        };
        let current = self.rows[i].duplicate();
        let m = Model { updated_at: t, deleted_at: Some(t), ..current };
        let ghost v = m@;
        let ghost before = self.table();
        self.rows[i] = m;
        assert(self.table() =~= before.update(i as int, v));
        Ok(true)
    }

    /// Soft-deletes the active record with this id, stamped with the current
    /// time, or just after the record's last stamp if the clock has not moved
    /// past it. `Ok(false)` when there is no such record.
    pub fn delete(&mut self, id: i32) -> (r: Result<bool, AppError>)
        requires
            old(self).wf(),
        ensures
            final(self).wf(),
            match delete_fault(old(self).table(), id as int) {
                Some(f) => r == Err::<bool, AppError>(AppError::Database(f)) && final(self).unchanged_from(old(self)),
                None => if active_index(old(self).table(), id as int) < 0 {
                    r == Ok::<bool, AppError>(false) && final(self).unchanged_from(old(self))
                } else {
                    let k = active_index(old(self).table(), id as int);
                    &&& r == Ok::<bool, AppError>(true)
                    &&& old(self).table()[k].updated_at < final(self).table()[k].updated_at <= stamp_bound(old(self).table()[k].updated_at)
                    &&& final(self).table() == old(self).table().update(k, apply_delete(old(self).table()[k], final(self).table()[k].updated_at))
                    &&& final(self).next_id() == old(self).next_id()
                },
            },
    {
        let now = now_micros();
        self.delete_at(id, now)
    }

    /// A table holding records read back from storage, in that order. The
    /// next id follows the largest id.
    pub fn restore(rows: Vec<Model>) -> (r: Result<VideoRepository, AppError>)
        ensures
            r is Ok <==> restorable(views(rows@)),
            match r {
                Ok(repo) => repo.wf() && repo.table() == views(rows@),
                Err(e) => e is Internal,
            },
    {
        let ghost t = views(rows@);
        let mut i: usize = 0;
        while i < rows.len()
            invariant
                i <= rows.len(),
                t == views(rows@),
                forall|k: int| 0 <= k < i ==> 1 <= #[trigger] t[k].id <= i32::MAX,
                forall|k: int| 0 <= k < i ==> (#[trigger] t[k]).created_at <= t[k].updated_at,
                forall|a: int, b: int| 0 <= a < i && 0 <= b < i && a != b ==> #[trigger] t[a].id != #[trigger] t[b].id,
                forall|a: int, b: int|
                    0 <= a < i && 0 <= b < i && a != b ==> #[trigger] t[a].youtube_id != #[trigger] t[b].youtube_id,
            decreases rows.len() - i,
        {
            if rows[i].id < 1 {
                assert(!(1 <= t[i as int].id));
                return Err(AppError::Internal(String::from_str("stored record has an invalid id")));
            }
            if rows[i].created_at > rows[i].updated_at {
                assert(!(t[i as int].created_at <= t[i as int].updated_at));
                return Err(AppError::Internal(String::from_str("stored record was updated before it was created")));
            }
            let mut j: usize = 0;
            while j < i
                invariant
                    j <= i < rows.len(),
                    t == views(rows@),
                    forall|b: int| 0 <= b < j ==> #[trigger] t[b].id != t[i as int].id,
                    forall|b: int| 0 <= b < j ==> #[trigger] t[b].youtube_id != t[i as int].youtube_id,
                decreases i - j,
            {
                if rows[j].id == rows[i].id {
                    assert(t[j as int].id == t[i as int].id);
                    return Err(AppError::Internal(String::from_str("stored records share an id")));
                }
                if same_text(rows[j].youtube_id.as_str(), rows[i].youtube_id.as_str()) {
                    assert(t[j as int].youtube_id == t[i as int].youtube_id);
                    return Err(AppError::Internal(String::from_str("stored records share a YouTube id")));
                }
                j = j + 1;
            }
            i = i + 1;
        }
        let mut next_id: i64 = 1;
        let mut k: usize = 0;
        while k < rows.len()
            invariant
                k <= rows.len(),
                t == views(rows@),
                restorable(t),
                1 <= next_id <= i32::MAX + 1,
                forall|a: int| 0 <= a < k ==> #[trigger] t[a].id < next_id,
            decreases rows.len() - k,
        {
            assert(1 <= t[k as int].id <= i32::MAX);
            if rows[k].id as i64 >= next_id {
                next_id = rows[k].id as i64 + 1;
            }
            k = k + 1;
        }
        Ok(VideoRepository { rows, next_id })
    }

    /// The last record with this id, active or deleted.
    pub fn record(&self, id: i32) -> (r: Option<Model>)
        ensures
            match r {
                Some(m) => last_index(self.table(), id as int) >= 0
                    && m@ == self.table()[last_index(self.table(), id as int)],
                None => last_index(self.table(), id as int) == -1,
            },
    {
        proof {
            lemma_last_index(self.table(), id as int);
        }
        match self.position(id) {
            Some(i) => Some(self.rows[i].duplicate()),
            None => None,
        }
    }

    /// Position of the last record with this id.
    fn position(&self, id: i32) -> (r: Option<usize>)
        ensures
            match r {
                Some(i) => i as int == last_index(self.table(), id as int),
                None => last_index(self.table(), id as int) == -1,
            },
    {
        let ghost t = self.table();
        let mut i: usize = self.rows.len();
        assert(t.take(i as int) =~= t);
        while i > 0
            invariant
                i <= self.rows.len(),
                t == self.table(),
                t.len() == self.rows.len(),
                last_index(t.take(i as int), id as int) == last_index(t, id as int),
            decreases i,
        {
            i = i - 1;
            assert(t.take(i + 1).drop_last() =~= t.take(i as int));
            assert(t.take(i + 1).last() == t[i as int]);
            if self.rows[i].id == id {
                return Some(i);
            }
        }
        None
    }

    /// The active record with this id, if any.
    pub fn find_by_id(&self, id: i32) -> (r: Option<Model>)
        ensures
            match r {
                Some(m) => find_active(self.table(), id as int) == Some(m@),
                None => find_active(self.table(), id as int) is None,
            },
    {
        proof {
            lemma_last_index(self.table(), id as int);
        }
        match self.position(id) {
            Some(i) => {
                if self.rows[i].deleted_at.is_none() {
                    Some(self.rows[i].duplicate())
                } else {
                    None
                }
            },
            None => None,
        }
    }

    /// The records that a query lists: active ones that its search admits,
    /// in its order, cut to its page; with the number of such records across
    /// all pages. A page or page size of 0 is refused.
    pub fn list(&self, query: &VideoQuery) -> (r: Result<(Vec<Model>, u64), AppError>)
        ensures
            match r {
                Ok((videos, total)) => {
                    &&& query.page_or_default() >= 1
                    &&& query.per_page_or_default() >= 1
                    &&& total == matching(self.table(), text_of(query.search)).len()
                    &&& views(videos@) == page_slice(
                        ordered_matches(
                            self.table(),
                            text_of(query.search),
                            text_of(query.order_by),
                            text_of(query.order_direction),
                        ),
                        query.page_or_default(),
                        query.per_page_or_default(),
                    )
                },
                Err(e) => {
                    &&& query.page_or_default() == 0 || query.per_page_or_default() == 0
                    &&& e is BadRequest
                },
            },
    {
        let page = query.page_number();
        let per_page = query.page_size();
        if page == 0 {
            return Err(AppError::BadRequest(String::from_str("page must be at least 1")));
        }
        if per_page == 0 {
            return Err(AppError::BadRequest(String::from_str("per_page must be at least 1")));
        }
        let field = query.sort_field();
        let descending = query.is_descending();
        let ghost search = text_of(query.search);
        let ghost pred = listed_pred(search);
        let ghost leq = listing_leq(field, descending);
        let ghost t = self.table();

        let mut matched: Vec<Model> = Vec::new();
        let mut i: usize = 0;
        while i < self.rows.len()
            invariant
                i <= self.rows.len(),
                t == self.table(),
                t.len() == self.rows.len(),
                pred == listed_pred(search),
                search == text_of(query.search),
                views(matched@) == t.take(i as int).filter(pred),
            decreases self.rows.len() - i,
        {
            let ghost before = views(matched@);
            if query.admits(&self.rows[i]) {
                matched.push(self.rows[i].duplicate());
                assert(views(matched@) =~= before.push(t[i as int]));
            }
            proof {
                reveal(Seq::filter);
                assert(t.take(i + 1).drop_last() =~= t.take(i as int));
                assert(t.take(i + 1).last() == t[i as int]);
            }
            assert(views(matched@) =~= t.take(i + 1).filter(pred));
            i = i + 1;
        }
        assert(t.take(t.len() as int) =~= t);
        let ghost filtered = views(matched@);

        proof {
            lemma_listing_total(field, descending);
        }
        let mut sorted: Vec<Model> = Vec::new();
        let mut j: usize = 0;
        assert(views(sorted@) =~= filtered.take(0));
        while j < matched.len()
            invariant
                j <= matched.len(),
                leq == listing_leq(field, descending),
                total_ordering(leq),
                filtered == views(matched@),
                sorted_by(views(sorted@), leq),
                views(sorted@).to_multiset() == filtered.take(j as int).to_multiset(),
            decreases matched.len() - j,
        {
            let x = matched[j].duplicate();
            let ghost s = views(sorted@);
            let mut p: usize = 0;
            while p < sorted.len()
                invariant
                    p <= sorted.len(),
                    s == views(sorted@),
                    leq == listing_leq(field, descending),
                    total_ordering(leq),
                    forall|k: int| 0 <= k < p ==> #[trigger] leq(s[k], x@),
                ensures
                    p <= sorted.len(),
                    forall|k: int| 0 <= k < p ==> #[trigger] leq(s[k], x@),
                    p < sorted.len() ==> leq(x@, s[p as int]),
                decreases sorted.len() - p,
            {
                if precedes(field, descending, &x, &sorted[p]) {
                    break;
                }
                assert(leq(s[p as int], x@));
                p = p + 1;
            }
            let ghost xv = x@;
            sorted.insert(p, x);
            proof {
                s.insert_ensures(p as int, xv);
                let n = s.insert(p as int, xv);
                assert(views(sorted@) =~= n);
                assert forall|a: int, b: int| 0 <= a < b < n.len() implies #[trigger] leq(n[a], n[b]) by {
                    if b < p {
                    } else if b == p {
                    } else if a < p {
                        assert(leq(s[a], s[b - 1]));
                    } else if a == p {
                        if b - 1 > p {
                            assert(leq(s[p as int], s[b - 1]));
                        }
                    } else {
                        assert(leq(s[a - 1], s[b - 1]));
                    }
                }
                lemma_insert_multiset(s, p as int, xv);
                assert(filtered.take(j + 1) =~= filtered.take(j as int).push(xv));
                broadcast use vstd::seq_lib::group_to_multiset_ensures;
            }
            j = j + 1;
        }
        proof {
            assert(filtered.take(filtered.len() as int) =~= filtered);
            filtered.lemma_sort_by_ensures(leq);
            vstd::seq_lib::lemma_sorted_unique(views(sorted@), filtered.sort_by(leq), leq);
        }
        let ghost ordered = views(sorted@);
        proof {
            broadcast use vstd::seq_lib::group_to_multiset_ensures;
            assert(ordered.len() == ordered.to_multiset().len());
            assert(filtered.len() == filtered.to_multiset().len());
        }
        assert(ordered == ordered_matches(t, search, text_of(query.order_by), text_of(query.order_direction)));

        let n = sorted.len();
        let total = n as u64;
        assert((page - 1) as u128 * per_page as u128 <= u128::MAX) by (nonlinear_arith)
            requires
                page <= u64::MAX,
                per_page <= u64::MAX,
                page >= 1,
        ;
        let offset: u128 = (page - 1) as u128 * per_page as u128;
        let mut videos: Vec<Model> = Vec::new();
        if offset < n as u128 {
            let start = offset as usize;
            let remaining = n - start;
            let count: usize = if (remaining as u64) < per_page {
                remaining
            } else {
                per_page as usize
            };
            let end = start + count;
            let mut k: usize = start;
            while k < end
                invariant
                    start <= k <= end <= n,
                    n == sorted.len(),
                    ordered == views(sorted@),
                    views(videos@) =~= ordered.subrange(start as int, k as int),
                decreases end - k,
            {
                let ghost before = views(videos@);
                videos.push(sorted[k].duplicate());
                assert(views(videos@) =~= before.push(ordered[k as int]));
                assert(ordered.subrange(start as int, k + 1) =~= ordered.subrange(start as int, k as int).push(ordered[k as int]));
                k = k + 1;
            }
        }
        Ok((videos, total))
    }
}

} // verus!
