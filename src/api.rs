use crate::entity::{stamp_view, Model, VideoView};
use crate::error::InvalidFields;
use crate::validation::{check_title, check_youtube_id, title_ok, youtube_id_ok};
use vstd::prelude::*;

verus! {

/// The fields of a new video.
#[derive(Debug)]
pub struct CreateVideoRequest {
    pub title: String,
    pub youtube_id: String,
}

/// The fields to change on a video; absent fields stay as they are.
#[derive(Debug)]
pub struct UpdateVideoRequest {
    pub title: Option<String>,
    pub youtube_id: Option<String>,
}

/// A video as the service answers it.
#[derive(Debug)]
pub struct VideoResponse {
    pub id: i32,
    pub title: String,
    pub youtube_id: String,
    pub created_at: i64,
    pub updated_at: i64,
    pub deleted_at: Option<i64>,
}

/// One page of a listing, as the service answers it.
#[derive(Debug)]
pub struct PaginatedVideoResponse {
    pub videos: Vec<VideoResponse>,
    pub total: u64,
    pub page: u64,
    pub per_page: u64,
    pub total_pages: u64,
}

pub open spec fn opt_title_ok(t: Option<String>) -> bool {
    match t {
        Some(x) => title_ok(x@),
        None => true,
    }
}

pub open spec fn opt_youtube_id_ok(y: Option<String>) -> bool {
    match y {
        Some(x) => youtube_id_ok(x@),
        None => true,
    }
}

impl CreateVideoRequest {
    pub open spec fn is_valid(&self) -> bool {
        title_ok(self.title@) && youtube_id_ok(self.youtube_id@)
    }

    /// Checks both fields; the error names each field that breaks its rule.
    pub fn validate(&self) -> (r: Result<(), InvalidFields>)
        ensures
            r is Ok <==> self.is_valid(),
            r matches Err(f) ==> f == (InvalidFields {
                title: !title_ok(self.title@),
                youtube_id: !youtube_id_ok(self.youtube_id@),
            }),
    {
        let t = check_title(&self.title);
        let y = check_youtube_id(&self.youtube_id);
        if t && y {
            Ok(())
        } else {
            Err(InvalidFields { title: !t, youtube_id: !y })
        }
    }
}

impl UpdateVideoRequest {
    pub open spec fn is_valid(&self) -> bool {
        opt_title_ok(self.title) && opt_youtube_id_ok(self.youtube_id)
    }

    /// Checks the fields that are present; the error names each field that
    /// breaks its rule.
    pub fn validate(&self) -> (r: Result<(), InvalidFields>)
        ensures
            r is Ok <==> self.is_valid(),
            r matches Err(f) ==> f == (InvalidFields {
                title: !opt_title_ok(self.title),
                youtube_id: !opt_youtube_id_ok(self.youtube_id),
            }),
    {
        let t = match &self.title {
            Some(x) => check_title(x),
            None => true,
        };
        let y = match &self.youtube_id {
            Some(x) => check_youtube_id(x),
            None => true,
        };
        if t && y {
            Ok(())
        } else {
            Err(InvalidFields { title: !t, youtube_id: !y })
        }
    }
}

impl View for VideoResponse {
    type V = VideoView;

    open spec fn view(&self) -> VideoView {
        VideoView {
            id: self.id as int,
            title: self.title@,
            youtube_id: self.youtube_id@,
            created_at: self.created_at as int,
            updated_at: self.updated_at as int,
            deleted_at: stamp_view(self.deleted_at),
        }
    }
}

/// The views of a sequence of responses, position by position.
pub open spec fn response_views(s: Seq<VideoResponse>) -> Seq<VideoView> {
    s.map_values(|r: VideoResponse| r@)
}

impl VideoResponse {
    /// The response for a stored record.
    pub fn from_model(m: Model) -> (r: VideoResponse)
        ensures
            r@ == m@,
    {
        VideoResponse {
            id: m.id,
            title: m.title,
            youtube_id: m.youtube_id,
            created_at: m.created_at,
            updated_at: m.updated_at,
            deleted_at: m.deleted_at,
        }
    }
}

} // verus!
