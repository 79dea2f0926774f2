use crate::entity::{stamp_view, Model, VideoView};
use crate::text::compare_text;
use vstd::prelude::*;
use vstd::relations::total_ordering;

verus! {

/// The field a listing is ordered by.
#[derive(Debug, Clone, Copy, PartialEq, Eq, Structural)]
pub enum SortField {
    Title,
    YoutubeId,
    CreatedAt,
}

/// Three-way comparison of integers: -1, 0 or 1.
pub open spec fn cmp_int(a: int, b: int) -> int {
    if a < b {
        -1
    } else if a > b {
        1
    } else {
        0
    }
}

/// Lexicographic three-way comparison of character sequences (by code point).
pub open spec fn cmp_chars(a: Seq<char>, b: Seq<char>) -> int
    decreases a.len(),
{
    if a.len() == 0 {
        if b.len() == 0 {
            0
        } else {
            -1
        }
    } else if b.len() == 0 {
        1
    } else if a[0] < b[0] {
        -1
    } else if a[0] > b[0] {
        1
    } else {
        cmp_chars(a.drop_first(), b.drop_first())
    }
}

/// Absent stamps come before present ones.
pub open spec fn cmp_stamp(a: Option<int>, b: Option<int>) -> int {
    match (a, b) {
        (None, None) => 0,
        (None, Some(_)) => -1,
        (Some(_), None) => 1,
        (Some(x), Some(y)) => cmp_int(x, y),
    }
}

/// The first comparison, unless it is a tie.
pub open spec fn tie_break(first: int, rest: int) -> int {
    if first != 0 {
        first
    } else {
        rest
    }
}

pub open spec fn cmp_key(field: SortField, a: VideoView, b: VideoView) -> int {
    match field {
        SortField::Title => cmp_chars(a.title, b.title),
        SortField::YoutubeId => cmp_chars(a.youtube_id, b.youtube_id),
        SortField::CreatedAt => cmp_int(a.created_at, b.created_at),
    }
}

/// Ascending order of records: by the sort field, then by id. The remaining
/// fields only break ties between records that share an id, which makes the
/// order total on all values.
pub open spec fn cmp_rows(field: SortField, a: VideoView, b: VideoView) -> int {
    tie_break(
        cmp_key(field, a, b),
        tie_break(
            cmp_int(a.id, b.id),
            tie_break(
                cmp_chars(a.title, b.title),
                tie_break(
                    cmp_chars(a.youtube_id, b.youtube_id),
                    tie_break(
                        cmp_int(a.created_at, b.created_at),
                        tie_break(
                            cmp_int(a.updated_at, b.updated_at),
                            cmp_stamp(a.deleted_at, b.deleted_at),
                        ),
                    ),
                ),
            ),
        ),
    )
}

/// Whether `a` may stand before `b` in a listing ordered by `field`,
/// ascending or descending.
pub open spec fn listing_leq(field: SortField, descending: bool) -> spec_fn(VideoView, VideoView) -> bool {
    |a: VideoView, b: VideoView|
        if descending {
            cmp_rows(field, b, a) <= 0
        } else {
            cmp_rows(field, a, b) <= 0
        }
}

pub proof fn lemma_cmp_chars(a: Seq<char>, b: Seq<char>, c: Seq<char>)
    ensures
        cmp_chars(a, b) == -cmp_chars(b, a),
        -1 <= cmp_chars(a, b) <= 1,
        cmp_chars(a, b) == 0 ==> a == b,
        cmp_chars(a, b) < 0 && cmp_chars(b, c) < 0 ==> cmp_chars(a, c) < 0,
    decreases a.len(),
{
    if a.len() > 0 && b.len() > 0 && c.len() > 0 {
        lemma_cmp_chars(a.drop_first(), b.drop_first(), c.drop_first());
        if cmp_chars(a, b) == 0 {
            assert(a =~= seq![a[0]] + a.drop_first());
            assert(b =~= seq![b[0]] + b.drop_first());
        }
    } else if a.len() > 0 && b.len() > 0 {
        lemma_cmp_chars(a.drop_first(), b.drop_first(), c);
        if cmp_chars(a, b) == 0 {
            assert(a =~= seq![a[0]] + a.drop_first());
            assert(b =~= seq![b[0]] + b.drop_first());
        }
    } else if a.len() == 0 && b.len() == 0 {
        assert(a =~= b);
    }
}

proof fn lemma_cmp_rows(field: SortField, a: VideoView, b: VideoView, c: VideoView)
    ensures
        cmp_rows(field, a, b) == -cmp_rows(field, b, a),
        cmp_rows(field, a, b) == 0 ==> a == b,
        cmp_rows(field, a, b) <= 0 && cmp_rows(field, b, c) <= 0 ==> cmp_rows(field, a, c) <= 0,
{
    lemma_cmp_chars(a.title, b.title, c.title);
    lemma_cmp_chars(b.title, c.title, a.title);
    lemma_cmp_chars(a.title, c.title, b.title);
    lemma_cmp_chars(a.youtube_id, b.youtube_id, c.youtube_id);
    lemma_cmp_chars(b.youtube_id, c.youtube_id, a.youtube_id);
    lemma_cmp_chars(a.youtube_id, c.youtube_id, b.youtube_id);
}

/// Every listing order is a total order on records.
pub proof fn lemma_listing_total(field: SortField, descending: bool)
    ensures
        total_ordering(listing_leq(field, descending)),
{
    let leq = listing_leq(field, descending);
    assert forall|x: VideoView| #[trigger] leq(x, x) by {
        lemma_cmp_rows(field, x, x, x);
    }
    assert forall|x: VideoView, y: VideoView| #[trigger] leq(x, y) && #[trigger] leq(y, x) implies x
        == y by {
        lemma_cmp_rows(field, x, y, x);
    }
    assert forall|x: VideoView, y: VideoView, z: VideoView| #[trigger]
        leq(x, y) && #[trigger] leq(y, z) implies leq(x, z) by {
        lemma_cmp_rows(field, x, y, z);
        lemma_cmp_rows(field, z, y, x);
    }
    assert forall|x: VideoView, y: VideoView| #[trigger] leq(x, y) || #[trigger] leq(y, x) by {
        lemma_cmp_rows(field, x, y, x);
    }
}

fn compare_int(a: i64, b: i64) -> (r: i8)
    ensures
        r as int == cmp_int(a as int, b as int),
{
    if a < b {
        -1
    } else if a > b {
        1
    } else {
        0
    }
}

fn compare_stamp(a: Option<i64>, b: Option<i64>) -> (r: i8)
    ensures
        r as int == cmp_stamp(stamp_view(a), stamp_view(b)),
{
    match (a, b) {
        (None, None) => 0,
        (None, Some(_)) => -1,
        (Some(_), None) => 1,
        (Some(x), Some(y)) => compare_int(x, y),
    }
}

/// Three-way comparison of two records in ascending listing order.
pub fn compare_rows(field: SortField, a: &Model, b: &Model) -> (r: i8)
    ensures
        r as int == cmp_rows(field, a@, b@),
{
    let key = match field {
        SortField::Title => compare_text(a.title.as_str(), b.title.as_str()),
        SortField::YoutubeId => compare_text(a.youtube_id.as_str(), b.youtube_id.as_str()),
        SortField::CreatedAt => compare_int(a.created_at, b.created_at),
    };
    if key != 0 {
        return key;
    }
    let c = compare_int(a.id as i64, b.id as i64);
    if c != 0 {
        return c;
    }
    let c = compare_text(a.title.as_str(), b.title.as_str());
    if c != 0 {
        return c;
    }
    let c = compare_text(a.youtube_id.as_str(), b.youtube_id.as_str());
    if c != 0 {
        return c;
    }
    let c = compare_int(a.created_at, b.created_at);
    if c != 0 {
        return c;
    }
    let c = compare_int(a.updated_at, b.updated_at);
    if c != 0 {
        return c;
    }
    compare_stamp(a.deleted_at, b.deleted_at)
}

/// Whether `a` may stand before `b` in the listing order.
pub fn precedes(field: SortField, descending: bool, a: &Model, b: &Model) -> (r: bool)
    ensures
        r == listing_leq(field, descending)(a@, b@),
{
    if descending {
        compare_rows(field, b, a) <= 0
    } else {
        compare_rows(field, a, b) <= 0
    }
}

} // verus!
