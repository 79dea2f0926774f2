use crate::entity::{Model, VideoView};
use crate::order::{listing_leq, SortField};
use crate::text::{contains_chars, contains_text, same_text};
use vstd::prelude::*;

verus! {

/// Filter, order and page of a listing. Absent values take their defaults.
#[derive(Debug)]
pub struct VideoQuery {
    pub page: Option<u64>,
    pub per_page: Option<u64>,
    pub search: Option<String>,
    pub order_by: Option<String>,
    pub order_direction: Option<String>,
}

pub const DEFAULT_PAGE: u64 = 1;

pub const DEFAULT_PER_PAGE: u64 = 10;

pub open spec fn text_of(s: Option<String>) -> Option<Seq<char>> {
    match s {
        Some(t) => Some(t@),
        None => None,
    }
}

/// Whether a record's title or YouTube id contains the search text. An
/// absent or empty search admits every record.
pub open spec fn search_admits(search: Option<Seq<char>>, v: VideoView) -> bool {
    match search {
        None => true,
        Some(s) => s.len() == 0 || contains_chars(v.title, s) || contains_chars(v.youtube_id, s),
    }
}

/// Whether a record belongs to a listing: it is active and the search admits it.
pub open spec fn is_listed(search: Option<Seq<char>>, v: VideoView) -> bool {
    v.deleted_at is None && search_admits(search, v)
}

pub open spec fn sort_field_of(order_by: Option<Seq<char>>) -> SortField {
    if order_by == Some("title"@) {
        SortField::Title
    } else if order_by == Some("youtube_id"@) {
        SortField::YoutubeId
    } else {
        SortField::CreatedAt
    }
}

/// Whether a direction text is `asc` in any letter case.
pub open spec fn is_asc(d: Seq<char>) -> bool {
    &&& d.len() == 3
    &&& (d[0] == 'a' || d[0] == 'A')
    &&& (d[1] == 's' || d[1] == 'S')
    &&& (d[2] == 'c' || d[2] == 'C')
}

/// Every direction but `asc` (in any letter case) is descending.
pub open spec fn descending_of(direction: Option<Seq<char>>) -> bool {
    !(direction matches Some(d) && is_asc(d))
}

/// Number of pages of `per_page` records that hold `total` records.
pub open spec fn pages_for(total: int, per_page: int) -> int
    recommends
        per_page > 0,
{
    (total + per_page - 1) / per_page
}

/// The records of page `page` (from 1) of `s`, `per_page` to a page.
pub open spec fn page_slice(s: Seq<VideoView>, page: int, per_page: int) -> Seq<VideoView> {
    let offset = (page - 1) * per_page;
    if offset >= s.len() {
        Seq::empty()
    } else if offset + per_page >= s.len() {
        s.subrange(offset, s.len() as int)
    } else {
        s.subrange(offset, offset + per_page)
    }
}

pub open spec fn listed_pred(search: Option<Seq<char>>) -> spec_fn(VideoView) -> bool {
    |v: VideoView| is_listed(search, v)
}

/// The records of a table that a search lists, in table order.
pub open spec fn matching(rows: Seq<VideoView>, search: Option<Seq<char>>) -> Seq<VideoView> {
    rows.filter(listed_pred(search))
}

/// The records of a table that a listing shows, in listing order, before paging.
pub open spec fn ordered_matches(
    rows: Seq<VideoView>,
    search: Option<Seq<char>>,
    order_by: Option<Seq<char>>,
    direction: Option<Seq<char>>,
) -> Seq<VideoView> {
    matching(rows, search).sort_by(
        listing_leq(sort_field_of(order_by), descending_of(direction)),
    )
}

/// Whether a direction text is `asc` in any letter case.
fn asc_text(d: &str) -> (r: bool)
    ensures
        r == is_asc(d@),
{
    if d.unicode_len() != 3 {
        return false;
    }
    let a = d.get_char(0);
    let s = d.get_char(1);
    let c = d.get_char(2);
    (a == 'a' || a == 'A') && (s == 's' || s == 'S') && (c == 'c' || c == 'C')
}

impl VideoQuery {
    pub open spec fn page_or_default(&self) -> int {
        match self.page {
            Some(p) => p as int,
            None => DEFAULT_PAGE as int,
        }
    }

    pub open spec fn per_page_or_default(&self) -> int {
        match self.per_page {
            Some(p) => p as int,
            None => DEFAULT_PER_PAGE as int,
        }
    }

    /// The page asked for, 1 when absent.
    pub fn page_number(&self) -> (r: u64)
        ensures
            r == self.page_or_default(),
    {
        match self.page {
            Some(p) => p,
            None => DEFAULT_PAGE,
        }
    }

    /// The page size asked for, 10 when absent.
    pub fn page_size(&self) -> (r: u64)
        ensures
            r == self.per_page_or_default(),
    {
        match self.per_page {
            Some(p) => p,
            None => DEFAULT_PER_PAGE,
        }
    }

    /// The field to order by: `title`, `youtube_id`, else `created_at`.
    pub fn sort_field(&self) -> (r: SortField)
        ensures
            r == sort_field_of(text_of(self.order_by)),
    {
        match &self.order_by {
            Some(s) => {
                if same_text(s.as_str(), "title") {
                    SortField::Title
                } else if same_text(s.as_str(), "youtube_id") {
                    SortField::YoutubeId
                } else {
                    SortField::CreatedAt
                }
            },
            None => SortField::CreatedAt,
        }
    }

    /// Whether the order is descending: anything but `asc`, in any letter
    /// case, is.
    pub fn is_descending(&self) -> (r: bool)
        ensures
            r == descending_of(text_of(self.order_direction)),
    {
        match &self.order_direction {
            Some(s) => !asc_text(s.as_str()),
            None => true,
        }
    }

    /// Whether a record belongs to the listing this query asks for.
    pub fn admits(&self, m: &Model) -> (r: bool)
        ensures
            r == is_listed(text_of(self.search), m@),
    {
        if m.deleted_at.is_some() {
            return false;
        }
        match &self.search {
            None => true,
            Some(s) => {
                s.as_str().unicode_len() == 0 || contains_text(m.title.as_str(), s.as_str())
                    || contains_text(m.youtube_id.as_str(), s.as_str())
            },
        }
    }
}

impl Default for VideoQuery {
    fn default() -> (r: VideoQuery)
        ensures
            r.page == Some(DEFAULT_PAGE),
            r.per_page == Some(DEFAULT_PER_PAGE),
            r.search is None,
            text_of(r.order_by) == Some("created_at"@),
            text_of(r.order_direction) == Some("desc"@),
    {
        VideoQuery {
            page: Some(DEFAULT_PAGE),
            per_page: Some(DEFAULT_PER_PAGE),
            search: None,
            order_by: Some(String::from_str("created_at")),
            order_direction: Some(String::from_str("desc")),
        }
    }
}

/// Number of pages of `per_page` records that hold `total` records, rounded up.
pub fn total_pages(total: u64, per_page: u64) -> (r: u64)
    requires
        per_page > 0,
    ensures
        r == pages_for(total as int, per_page as int),
{
    let q = total / per_page;
    if total % per_page == 0 {
        proof {
            assert(pages_for(total as int, per_page as int) == q) by (nonlinear_arith)
                requires
                    per_page > 0,
                    total % per_page == 0,
                    q == total / per_page,
            ;
        }
        q
    } else {
        proof {
            assert(pages_for(total as int, per_page as int) == q + 1) by (nonlinear_arith)
                requires
                    per_page > 0,
                    total % per_page != 0,
                    q == total / per_page,
            ;
            assert(q < u64::MAX) by (nonlinear_arith)
                requires
                    per_page > 1,
                    q == total / per_page,
                    total <= u64::MAX,
            ;
        }
        q + 1
    }
}

} // verus!
