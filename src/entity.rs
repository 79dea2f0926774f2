use vstd::prelude::*;

verus! {

/// A stored video record. Timestamps are microseconds since the Unix epoch, UTC.
#[derive(Debug, Clone)]
pub struct Model {
    pub id: i32,
    pub title: String,
    pub youtube_id: String,
    pub created_at: i64,
    pub updated_at: i64,
    pub deleted_at: Option<i64>,
}

/// The mathematical value of a record.
pub struct VideoView {
    pub id: int,
    pub title: Seq<char>,
    pub youtube_id: Seq<char>,
    pub created_at: int,
    pub updated_at: int,
    pub deleted_at: Option<int>,
}

pub open spec fn stamp_view(t: Option<i64>) -> Option<int> {
    match t {
        Some(x) => Some(x as int),
        None => None,
    }
}

impl View for Model {
    type V = VideoView;

    open spec fn view(&self) -> VideoView {
        VideoView {
            id: self.id as int,
            title: self.title@,
            youtube_id: self.youtube_id@,
            created_at: self.created_at as int,
            updated_at: self.updated_at as int,
            deleted_at: stamp_view(self.deleted_at),
        }
    }
}

/// The views of a sequence of records, position by position.
pub open spec fn views(s: Seq<Model>) -> Seq<VideoView> {
    s.map_values(|m: Model| m@)
}

impl Model {
    /// A copy of the record, field for field.
    pub fn duplicate(&self) -> (r: Model)
        ensures
            r@ == self@,
    {
        Model {
            id: self.id,
            title: self.title.clone(),
            youtube_id: self.youtube_id.clone(),
            created_at: self.created_at,
            updated_at: self.updated_at,
            deleted_at: self.deleted_at,
        }
    }
}

} // verus!
