use crate::api::{
    response_views, CreateVideoRequest, PaginatedVideoResponse, UpdateVideoRequest, VideoResponse,
    opt_title_ok, opt_youtube_id_ok,
};
use crate::db::{matching, ordered_matches, page_slice, pages_for, text_of, total_pages, VideoQuery};
use crate::entity::views;
use crate::error::{AppError, AppResult, InvalidFields};
use crate::repository::{
    active_index, stamp_bound, MAX_TIME_MICROS, apply_delete, apply_update, create_fault, delete_fault, find_active, new_record,
    update_fault, VideoRepository,
};
use crate::validation::{title_ok, youtube_id_ok};
use vstd::prelude::*;

verus! {

/// Validation, not-found rules and response shaping over the video table.
pub struct VideoService {
    repository: VideoRepository,
}

impl VideoService {
    /// The table the service works on.
    pub closed spec fn store(&self) -> VideoRepository {
        self.repository
    }

    pub open spec fn wf(&self) -> bool {
        self.store().wf()
    }

    pub open spec fn unchanged_from(&self, other: &VideoService) -> bool {
        self.store().unchanged_from(&other.store())
    }

    pub fn new(repository: VideoRepository) -> (r: VideoService)
        requires
            repository.wf(),
        ensures
            r.wf(),
            r.store() == repository,
    {
        VideoService { repository }
    }

    /// The table behind the service.
    pub fn repository(&self) -> (r: &VideoRepository)
        ensures
            *r == self.store(),
    {
        &self.repository
    }

    /// Validates the request and stores a new active record.
    pub fn create_video(&mut self, req: CreateVideoRequest) -> (r: AppResult<VideoResponse>)
        requires
            old(self).wf(),
        ensures
            final(self).wf(),
            !req.is_valid() ==> r == Err::<VideoResponse, AppError>(AppError::Validation(InvalidFields {
                title: !title_ok(req.title@),
                youtube_id: !youtube_id_ok(req.youtube_id@),
            })) && final(self).unchanged_from(old(self)),
            req.is_valid() ==> match create_fault(
                old(self).store().table(),
                old(self).store().next_id(),
                req.youtube_id@,
            ) {
                Some(f) => r == Err::<VideoResponse, AppError>(AppError::Database(f))
                    && final(self).unchanged_from(old(self)),
                None => r matches Ok(v) && {
                    &&& 0 <= v@.created_at <= MAX_TIME_MICROS
                    &&& v@ == new_record(old(self).store().next_id(), req.title@, req.youtube_id@, v@.created_at)
                    &&& final(self).store().table() == old(self).store().table().push(v@)
                    &&& final(self).store().next_id() == old(self).store().next_id() + 1
                },
            },
            r matches Ok(v) ==> v.id > 0 && v.created_at == v.updated_at && v.deleted_at is None,
    {
        if let Err(f) = req.validate() {
            return Err(AppError::Validation(f));
        }
        let video = self.repository.create(req.title, req.youtube_id)?;
        Ok(VideoResponse::from_model(video))
    }

    /// The active record with this id.
    pub fn get_video(&self, id: i32) -> (r: AppResult<VideoResponse>)
        ensures
            match find_active(self.store().table(), id as int) {
                Some(v) => r matches Ok(x) && x@ == v,
                None => r == Err::<VideoResponse, AppError>(AppError::NotFound(id)),
            },
    {
        match self.repository.find_by_id(id) {
            Some(video) => Ok(VideoResponse::from_model(video)),
            None => Err(AppError::NotFound(id)),
        }
    }

    /// Validates the fields present and applies them to the active record
    /// with this id.
    pub fn update_video(&mut self, id: i32, req: UpdateVideoRequest) -> (r: AppResult<VideoResponse>)
        requires
            old(self).wf(),
        ensures
            final(self).wf(),
            !req.is_valid() ==> r == Err::<VideoResponse, AppError>(AppError::Validation(InvalidFields {
                title: !opt_title_ok(req.title),
                youtube_id: !opt_youtube_id_ok(req.youtube_id),
            })) && final(self).unchanged_from(old(self)),
            req.is_valid() ==> match update_fault(
                old(self).store().table(),
                id as int,
                text_of(req.youtube_id),
            ) {
                Some(f) => r == Err::<VideoResponse, AppError>(AppError::Database(f))
                    && final(self).unchanged_from(old(self)),
                None => if active_index(old(self).store().table(), id as int) < 0 {
                    r == Err::<VideoResponse, AppError>(AppError::NotFound(id))
                        && final(self).unchanged_from(old(self))
                } else {
                    r matches Ok(v) && {
                        let k = active_index(old(self).store().table(), id as int);
                        &&& old(self).store().table()[k].updated_at < v@.updated_at <= stamp_bound(
                            old(self).store().table()[k].updated_at,
                        )
                        &&& v@ == apply_update(
                            old(self).store().table()[k],
                            text_of(req.title),
                            text_of(req.youtube_id),
                            v@.updated_at,
                        )
                        &&& final(self).store().table() == old(self).store().table().update(k, v@)
                        &&& final(self).store().next_id() == old(self).store().next_id()
                    }
                },
            },
    {
        if let Err(f) = req.validate() {
            return Err(AppError::Validation(f));
        }
        match self.repository.update(id, req.title, req.youtube_id)? {
            Some(video) => Ok(VideoResponse::from_model(video)),
            None => Err(AppError::NotFound(id)),
        }
    }

    /// Soft-deletes the active record with this id. Deleting a missing or
    /// already deleted record is an error.
    pub fn delete_video(&mut self, id: i32) -> (r: AppResult<bool>)
        requires
            old(self).wf(),
        ensures
            final(self).wf(),
            match delete_fault(old(self).store().table(), id as int) {
                Some(f) => r == Err::<bool, AppError>(AppError::Database(f))
                    && final(self).unchanged_from(old(self)),
                None => if active_index(old(self).store().table(), id as int) < 0 {
                    r == Err::<bool, AppError>(AppError::NotFound(id)) && final(self).unchanged_from(old(self))
                } else {
                    let k = active_index(old(self).store().table(), id as int);
                    &&& r == Ok::<bool, AppError>(true)
                    &&& old(self).store().table()[k].updated_at < final(self).store().table()[k].updated_at
                        <= stamp_bound(old(self).store().table()[k].updated_at)
                    &&& final(self).store().table() == old(self).store().table().update(
                        k,
                        apply_delete(old(self).store().table()[k], final(self).store().table()[k].updated_at),
                    )
                    &&& final(self).store().next_id() == old(self).store().next_id()
                },
            },
    {
        let deleted = self.repository.delete(id)?;
        if !deleted {
            return Err(AppError::NotFound(id));
        }
        Ok(true)
    }

    /// One page of the records a query lists, with the totals.
    pub fn list_videos(&self, query: VideoQuery) -> (r: AppResult<PaginatedVideoResponse>)
        ensures
            match r {
                Ok(p) => {
                    &&& p.page == query.page_or_default() >= 1
                    &&& p.per_page == query.per_page_or_default() >= 1
                    &&& p.total == matching(self.store().table(), text_of(query.search)).len()
                    &&& p.total_pages == pages_for(p.total as int, p.per_page as int)
                    &&& response_views(p.videos@) == page_slice(
                        ordered_matches(
                            self.store().table(),
                            text_of(query.search),
                            text_of(query.order_by),
                            text_of(query.order_direction),
                        ),
                        p.page as int,
                        p.per_page as int,
                    )
                },
                Err(e) => {
                    &&& query.page_or_default() == 0 || query.per_page_or_default() == 0
                    &&& e is BadRequest
                },
            },
    {
        let (videos, total) = self.repository.list(&query)?;
        let page = query.page_number();
        let per_page = query.page_size();
        let pages = total_pages(total, per_page);
        let ghost listed = views(videos@);
        let mut out: Vec<VideoResponse> = Vec::new();
        let mut k: usize = 0;
        while k < videos.len()
            invariant
                k <= videos.len(),
                listed == views(videos@),
                response_views(out@) =~= listed.take(k as int),
            decreases videos.len() - k,
        {
            let ghost before = response_views(out@);
            out.push(VideoResponse::from_model(videos[k].duplicate()));
            assert(response_views(out@) =~= before.push(listed[k as int]));
            assert(listed.take(k + 1) =~= listed.take(k as int).push(listed[k as int]));
            k = k + 1;
        }
        assert(listed.take(videos.len() as int) =~= listed);
        Ok(PaginatedVideoResponse { videos: out, total, page, per_page, total_pages: pages })
    }
}

} // verus!
