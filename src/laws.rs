//! Properties that relate several operations of the video table.
use crate::db::{
    descending_of, listed_pred, matching, ordered_matches, page_slice, search_admits, sort_field_of,
};
use crate::entity::VideoView;
use crate::order::{lemma_listing_total, listing_leq};
use crate::repository::{
    active_index, apply_delete, apply_update, delete_fault, find_active, lemma_last_index,
    lemma_last_index_update, new_record, next_stamp, table_ok,
};
use crate::text::contains_chars;
use vstd::prelude::*;

verus! {

/// Reading a record right after creating it gives back that record: same
/// id, title and YouTube id.
pub proof fn law_get_after_create(
    rows: Seq<VideoView>,
    next_id: int,
    title: Seq<char>,
    youtube_id: Seq<char>,
    t: int,
)
    requires
        table_ok(rows, next_id),
    ensures
        find_active(rows.push(new_record(next_id, title, youtube_id, t)), next_id) == Some(
            new_record(next_id, title, youtube_id, t),
        ),
        new_record(next_id, title, youtube_id, t).id == next_id,
        new_record(next_id, title, youtube_id, t).title == title,
        new_record(next_id, title, youtube_id, t).youtube_id == youtube_id,
{
    let v = new_record(next_id, title, youtube_id, t);
    assert(rows.push(v).last() == v);
}

/// An id that no record holds is never found.
pub proof fn law_get_unknown(rows: Seq<VideoView>, id: int)
    requires
        forall|i: int| 0 <= i < rows.len() ==> #[trigger] rows[i].id != id,
    ensures
        find_active(rows, id) is None,
{
    lemma_last_index(rows, id);
}

/// Updating only the title of an active record, with clock reading `now`,
/// changes the title alone, keeps the YouTube id, stamps it after its
/// creation (with `now` itself when `now` is later than the record's own
/// stamps), and a read then sees the updated record.
pub proof fn law_update_title_only(
    rows: Seq<VideoView>,
    next_id: int,
    id: int,
    title: Seq<char>,
    now: int,
    t: int,
)
    requires
        table_ok(rows, next_id),
        active_index(rows, id) >= 0,
        next_stamp(rows[active_index(rows, id)].updated_at, now) == Some(t),
    ensures
        ({
            let k = active_index(rows, id);
            let u = apply_update(rows[k], Some(title), None, t);
            &&& now > rows[k].updated_at ==> u.updated_at == now
            &&& u.title == title
            &&& u.youtube_id == rows[k].youtube_id
            &&& u.id == rows[k].id
            &&& u.created_at == rows[k].created_at
            &&& u.updated_at > u.created_at
            &&& find_active(rows.update(k, u), id) == Some(u)
        }),
{
    let k = active_index(rows, id);
    let u = apply_update(rows[k], Some(title), None, t);
    lemma_last_index(rows, id);
    assert(rows[k].created_at <= rows[k].updated_at);
    lemma_last_index_update(rows, id, u);
}

/// After a soft delete the record is no longer found, and a second delete
/// finds nothing to delete and cannot fail otherwise.
pub proof fn law_delete_hides(rows: Seq<VideoView>, next_id: int, id: int, t: int)
    requires
        table_ok(rows, next_id),
        active_index(rows, id) >= 0,
    ensures
        ({
            let k = active_index(rows, id);
            let after = rows.update(k, apply_delete(rows[k], t));
            &&& find_active(after, id) is None
            &&& active_index(after, id) < 0
            &&& delete_fault(after, id) is None
        }),
{
    let k = active_index(rows, id);
    lemma_last_index(rows, id);
    lemma_last_index_update(rows, id, apply_delete(rows[k], t));
}

/// A record created (stamped `t0`) and then updated with no fields, with
/// clock reading `now`, keeps every field but `updated_at`, which strictly
/// increases, and is `now` itself when `now` is later than `t0`.
pub proof fn law_empty_update_round_trip(
    rows: Seq<VideoView>,
    next_id: int,
    title: Seq<char>,
    youtube_id: Seq<char>,
    t0: int,
    now: int,
    t1: int,
)
    requires
        table_ok(rows, next_id),
        next_stamp(t0, now) == Some(t1),
    ensures
        now > t0 ==> t1 == now,
        ({
            let v = new_record(next_id, title, youtube_id, t0);
            let created = rows.push(v);
            let k = active_index(created, next_id);
            let u = apply_update(created[k], None, None, t1);
            &&& k == rows.len()
            &&& u.id == v.id
            &&& u.title == v.title
            &&& u.youtube_id == v.youtube_id
            &&& u.created_at == v.created_at
            &&& u.deleted_at == v.deleted_at
            &&& u.updated_at > v.updated_at
        }),
{
    let v = new_record(next_id, title, youtube_id, t0);
    assert(rows.push(v).last() == v);
}

/// Every record of a listing with a non-empty search holds the search text
/// in its title or its YouTube id.
pub proof fn law_search_filters(
    rows: Seq<VideoView>,
    search: Seq<char>,
    order_by: Option<Seq<char>>,
    direction: Option<Seq<char>>,
    page: int,
    per_page: int,
    v: VideoView,
)
    requires
        search.len() > 0,
        page >= 1,
        per_page >= 1,
        page_slice(ordered_matches(rows, Some(search), order_by, direction), page, per_page).contains(v),
    ensures
        contains_chars(v.title, search) || contains_chars(v.youtube_id, search),
        v.deleted_at is None,
{
    let leq = listing_leq(sort_field_of(order_by), descending_of(direction));
    let m = matching(rows, Some(search));
    let o = ordered_matches(rows, Some(search), order_by, direction);
    let s = page_slice(o, page, per_page);
    let i = choose|i: int| 0 <= i < s.len() && s[i] == v;
    let offset = (page - 1) * per_page;
    assert(o.contains(v)) by {
        assert(offset < o.len());
        assert(o[offset + i] == v);
    }
    lemma_listing_total(sort_field_of(order_by), descending_of(direction));
    m.lemma_sort_by_ensures(leq);
    assert(m.contains(v));
    let j = choose|j: int| 0 <= j < m.len() && m[j] == v;
    rows.lemma_filter_pred(listed_pred(Some(search)), j);
    assert(search_admits(Some(search), v));
}

} // verus!
