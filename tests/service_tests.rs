use video_api::api::{CreateVideoRequest, UpdateVideoRequest};
use video_api::db::VideoQuery;
use video_api::error::{AppError, InvalidFields, StorageError};
use video_api::repository::VideoRepository;
use video_api::service::VideoService;

fn service() -> VideoService {
    VideoService::new(VideoRepository::new())
}

fn request(title: &str, youtube_id: &str) -> CreateVideoRequest {
    CreateVideoRequest { title: title.to_string(), youtube_id: youtube_id.to_string() }
}

fn query(page: u64, per_page: u64, search: Option<&str>) -> VideoQuery {
    VideoQuery {
        page: Some(page),
        per_page: Some(per_page),
        search: search.map(|s| s.to_string()),
        order_by: None,
        order_direction: None,
    }
}

#[test]
fn video_service_test_create_video() {
    let mut service = service();
    let request = request("Test Video", "dQw4w9WgXcQ");
    let result = service.create_video(request);
    assert!(result.is_ok());
}

#[test]
fn api_test_create_video() {
    let mut service = service();
    let video = service.create_video(request("Test Video", "dQw4w9WgXcQ")).unwrap();
    assert_eq!(video.title, "Test Video");
    assert_eq!(video.youtube_id, "dQw4w9WgXcQ");
    assert!(video.id > 0);
    assert!(video.created_at <= chrono::Utc::now().timestamp_micros());
    assert!(video.updated_at <= chrono::Utc::now().timestamp_micros());
    assert!(video.deleted_at.is_none());
}

#[test]
fn test_get_video() {
    let mut service = service();
    let video = service.create_video(request("Test Video", "dQw4w9WgXcQ")).unwrap();
    let result = service.get_video(video.id);
    assert!(result.is_ok());
}

#[test]
fn test_list_videos() {
    let mut service = service();
    for i in 0..3 {
        let request = request(&format!("Test Video {}", i), &format!("dQw4w9WgXc{}", i));
        service.create_video(request).unwrap();
    }
    let result = service.list_videos(VideoQuery::default());
    assert!(result.is_ok());
    let videos = result.unwrap();
    assert_eq!(videos.videos.len(), 3);
}

#[test]
fn test_update_video() {
    let mut service = service();
    let video = service.create_video(request("Test Video", "dQw4w9WgXcQ")).unwrap();
    let update_request = UpdateVideoRequest {
        title: Some("Updated Video".to_string()),
        youtube_id: Some("xQc9WgXw4Qd".to_string()),
    };
    let result = service.update_video(video.id, update_request);
    assert!(result.is_ok());
    let updated = service.get_video(video.id).unwrap();
    assert_eq!(updated.title, "Updated Video");
    assert_eq!(updated.youtube_id, "xQc9WgXw4Qd");
}

#[test]
fn test_delete_video() {
    let mut service = service();
    let video = service.create_video(request("Test Video", "dQw4w9WgXcQ")).unwrap();
    let result = service.delete_video(video.id);
    assert!(result.is_ok());
    let get_result = service.get_video(video.id);
    assert!(get_result.is_err());
}

#[test]
fn test_empty_videos_returns_empty_array() {
    let service = service();
    let page = service.list_videos(VideoQuery::default()).unwrap();
    assert!(page.videos.is_empty());
    assert_eq!(page.total, 0);
    assert_eq!(page.page, 1);
    assert_eq!(page.per_page, 10);
    assert_eq!(page.total_pages, 0);
}

#[test]
fn create_valid_gives_positive_id_and_equal_stamps() {
    let mut service = service();
    let v = service.create_video(request("A", "abcdefghijk")).unwrap();
    assert!(v.id > 0);
    assert_eq!(v.created_at, v.updated_at);
    assert_eq!(v.deleted_at, None);
    let long_title = "t".repeat(100);
    let w = service.create_video(request(&long_title, "bbcdefghijk")).unwrap();
    assert_eq!(w.title.chars().count(), 100);
    assert!(w.id > v.id);
}

#[test]
fn create_empty_title_is_rejected_and_stores_nothing() {
    let mut service = service();
    let err = service.create_video(request("", "dQw4w9WgXcQ")).unwrap_err();
    assert_eq!(err, AppError::Validation(InvalidFields { title: true, youtube_id: false }));
    assert_eq!(err.status_code(), 400);
    assert_eq!(service.list_videos(VideoQuery::default()).unwrap().total, 0);
}

#[test]
fn create_wrong_youtube_id_length_is_rejected() {
    let mut service = service();
    let short = service.create_video(request("Fine", "short")).unwrap_err();
    assert_eq!(short, AppError::Validation(InvalidFields { title: false, youtube_id: true }));
    let long = service.create_video(request("Fine", "dQw4w9WgXcQQ")).unwrap_err();
    assert_eq!(long, AppError::Validation(InvalidFields { title: false, youtube_id: true }));
    let both = service.create_video(request(&"x".repeat(101), "")).unwrap_err();
    assert_eq!(both, AppError::Validation(InvalidFields { title: true, youtube_id: true }));
    assert_eq!(service.list_videos(VideoQuery::default()).unwrap().total, 0);
}

#[test]
fn lengths_count_characters_not_bytes() {
    let mut service = service();
    // eleven characters, more than eleven bytes
    let v = service.create_video(request("é", "ééééééééééé"));
    assert!(v.is_ok());
}

#[test]
fn get_after_create_returns_same_fields() {
    let mut service = service();
    let v = service.create_video(request("My Awesome Video", "dQw4w9WgXcQ")).unwrap();
    let g = service.get_video(v.id).unwrap();
    assert_eq!(g.id, v.id);
    assert_eq!(g.title, "My Awesome Video");
    assert_eq!(g.youtube_id, "dQw4w9WgXcQ");
}

#[test]
fn get_unknown_id_is_not_found() {
    let mut service = service();
    service.create_video(request("One", "dQw4w9WgXcQ")).unwrap();
    let err = service.get_video(42).unwrap_err();
    assert_eq!(err, AppError::NotFound(42));
    assert_eq!(err.status_code(), 404);
    assert!(err.is_public());
}

#[test]
fn update_title_only_keeps_youtube_id() {
    let mut service = service();
    let v = service.create_video(request("Old", "dQw4w9WgXcQ")).unwrap();
    let u = service
        .update_video(v.id, UpdateVideoRequest { title: Some("X".to_string()), youtube_id: None })
        .unwrap();
    assert_eq!(u.id, v.id);
    assert_eq!(u.title, "X");
    assert_eq!(u.youtube_id, "dQw4w9WgXcQ");
    assert_eq!(u.created_at, v.created_at);
    assert!(u.updated_at > u.created_at);
}

#[test]
fn update_invalid_fields_is_rejected() {
    let mut service = service();
    let v = service.create_video(request("Old", "dQw4w9WgXcQ")).unwrap();
    let err = service
        .update_video(v.id, UpdateVideoRequest { title: Some(String::new()), youtube_id: Some("abc".to_string()) })
        .unwrap_err();
    assert_eq!(err, AppError::Validation(InvalidFields { title: true, youtube_id: true }));
    assert_eq!(service.get_video(v.id).unwrap().title, "Old");
}

#[test]
fn update_missing_or_deleted_is_not_found() {
    let mut service = service();
    let none = UpdateVideoRequest { title: None, youtube_id: None };
    assert_eq!(service.update_video(7, none).unwrap_err(), AppError::NotFound(7));
    let v = service.create_video(request("Old", "dQw4w9WgXcQ")).unwrap();
    service.delete_video(v.id).unwrap();
    let none = UpdateVideoRequest { title: Some("New".to_string()), youtube_id: None };
    assert_eq!(service.update_video(v.id, none).unwrap_err(), AppError::NotFound(v.id));
}

#[test]
fn update_to_taken_youtube_id_is_a_storage_error() {
    let mut service = service();
    let a = service.create_video(request("A", "aaaaaaaaaaa")).unwrap();
    service.create_video(request("B", "bbbbbbbbbbb")).unwrap();
    let err = service
        .update_video(a.id, UpdateVideoRequest { title: None, youtube_id: Some("bbbbbbbbbbb".to_string()) })
        .unwrap_err();
    assert_eq!(err, AppError::Database(StorageError::DuplicateYoutubeId));
    assert_eq!(err.status_code(), 500);
    assert!(!err.is_public());
    // keeping its own id is no conflict
    let same = service
        .update_video(a.id, UpdateVideoRequest { title: None, youtube_id: Some("aaaaaaaaaaa".to_string()) });
    assert!(same.is_ok());
}

#[test]
fn create_duplicate_youtube_id_is_a_storage_error() {
    let mut service = service();
    let v = service.create_video(request("A", "aaaaaaaaaaa")).unwrap();
    service.delete_video(v.id).unwrap();
    let err = service.create_video(request("B", "aaaaaaaaaaa")).unwrap_err();
    assert_eq!(err, AppError::Database(StorageError::DuplicateYoutubeId));
}

#[test]
fn delete_then_get_is_not_found() {
    let mut service = service();
    let v = service.create_video(request("A", "aaaaaaaaaaa")).unwrap();
    assert_eq!(service.delete_video(v.id), Ok(true));
    assert_eq!(service.get_video(v.id).unwrap_err(), AppError::NotFound(v.id));
}

#[test]
fn delete_twice_is_not_found() {
    let mut service = service();
    let v = service.create_video(request("A", "aaaaaaaaaaa")).unwrap();
    assert_eq!(service.delete_video(v.id), Ok(true));
    assert_eq!(service.delete_video(v.id), Err(AppError::NotFound(v.id)));
}

#[test]
fn deleted_records_leave_listings() {
    let mut service = service();
    let a = service.create_video(request("A", "aaaaaaaaaaa")).unwrap();
    service.create_video(request("B", "bbbbbbbbbbb")).unwrap();
    service.delete_video(a.id).unwrap();
    let page = service.list_videos(VideoQuery::default()).unwrap();
    assert_eq!(page.total, 1);
    assert_eq!(page.videos[0].title, "B");
}

#[test]
fn list_three_records_two_per_page() {
    let mut service = service();
    for i in 0..3 {
        service.create_video(request(&format!("Video {}", i), &format!("abcdefghij{}", i))).unwrap();
    }
    let page = service.list_videos(query(1, 2, None)).unwrap();
    assert_eq!(page.videos.len(), 2);
    assert_eq!(page.total, 3);
    assert_eq!(page.total_pages, 2);
    // newest first by default
    assert_eq!(page.videos[0].title, "Video 2");
    assert_eq!(page.videos[1].title, "Video 1");
    let second = service.list_videos(query(2, 2, None)).unwrap();
    assert_eq!(second.videos.len(), 1);
    assert_eq!(second.videos[0].title, "Video 0");
    let beyond = service.list_videos(query(3, 2, None)).unwrap();
    assert!(beyond.videos.is_empty());
    assert_eq!(beyond.total, 3);
}

#[test]
fn list_search_matches_title_or_youtube_id() {
    let mut service = service();
    service.create_video(request("An awesome clip", "aaaaaaaaaaa")).unwrap();
    service.create_video(request("Boring", "xxawesomexx")).unwrap();
    service.create_video(request("Awesome in capitals", "ccccccccccc")).unwrap();
    service.create_video(request("Nothing", "ddddddddddd")).unwrap();
    let page = service.list_videos(query(1, 10, Some("awesome"))).unwrap();
    assert_eq!(page.total, 2);
    for v in &page.videos {
        assert!(v.title.contains("awesome") || v.youtube_id.contains("awesome"));
    }
    let empty = service.list_videos(query(1, 10, Some(""))).unwrap();
    assert_eq!(empty.total, 4);
}

#[test]
fn list_zero_page_or_size_is_bad_request() {
    let service = service();
    let err = service.list_videos(query(0, 10, None)).unwrap_err();
    assert!(matches!(err, AppError::BadRequest(_)));
    assert_eq!(err.status_code(), 400);
    let err = service.list_videos(query(1, 0, None)).unwrap_err();
    assert!(matches!(err, AppError::BadRequest(_)));
}

#[test]
fn list_orders_by_title_ascending() {
    let mut service = service();
    service.create_video(request("Cherry", "ccccccccccc")).unwrap();
    service.create_video(request("Apple", "aaaaaaaaaaa")).unwrap();
    service.create_video(request("Banana", "bbbbbbbbbbb")).unwrap();
    let q = VideoQuery {
        page: None,
        per_page: None,
        search: None,
        order_by: Some("title".to_string()),
        order_direction: Some("asc".to_string()),
    };
    let page = service.list_videos(q).unwrap();
    let titles: Vec<&str> = page.videos.iter().map(|v| v.title.as_str()).collect();
    assert_eq!(titles, vec!["Apple", "Banana", "Cherry"]);
    assert_eq!(page.page, 1);
    assert_eq!(page.per_page, 10);
    assert_eq!(page.total_pages, 1);
}

#[test]
fn list_orders_by_youtube_id_descending_and_unknown_fields_fall_back() {
    let mut service = service();
    service.create_video(request("One", "bbbbbbbbbbb")).unwrap();
    service.create_video(request("Two", "ccccccccccc")).unwrap();
    service.create_video(request("Three", "aaaaaaaaaaa")).unwrap();
    let q = VideoQuery {
        page: None,
        per_page: None,
        search: None,
        order_by: Some("youtube_id".to_string()),
        order_direction: Some("sideways".to_string()),
    };
    let ids: Vec<String> = service.list_videos(q).unwrap().videos.into_iter().map(|v| v.youtube_id).collect();
    assert_eq!(ids, vec!["ccccccccccc", "bbbbbbbbbbb", "aaaaaaaaaaa"]);
    let q = VideoQuery {
        page: None,
        per_page: None,
        search: None,
        order_by: Some("views".to_string()),
        order_direction: Some("asc".to_string()),
    };
    let titles: Vec<String> = service.list_videos(q).unwrap().videos.into_iter().map(|v| v.title).collect();
    assert_eq!(titles, vec!["One", "Two", "Three"]);
}

#[test]
fn empty_update_round_trip_only_moves_updated_at() {
    let mut service = service();
    let v = service.create_video(request("Keep", "kkkkkkkkkkk")).unwrap();
    let u = service.update_video(v.id, UpdateVideoRequest { title: None, youtube_id: None }).unwrap();
    assert_eq!(u.id, v.id);
    assert_eq!(u.title, v.title);
    assert_eq!(u.youtube_id, v.youtube_id);
    assert_eq!(u.created_at, v.created_at);
    assert_eq!(u.deleted_at, v.deleted_at);
    assert!(u.updated_at > v.updated_at);
}

#[test]
fn list_direction_ignores_letter_case() {
    let mut service = service();
    service.create_video(request("First", "aaaaaaaaaaa")).unwrap();
    service.create_video(request("Second", "bbbbbbbbbbb")).unwrap();
    for direction in ["ASC", "Asc", "asc"] {
        let q = VideoQuery {
            page: None,
            per_page: None,
            search: None,
            order_by: None,
            order_direction: Some(direction.to_string()),
        };
        let titles: Vec<String> = service.list_videos(q).unwrap().videos.into_iter().map(|v| v.title).collect();
        assert_eq!(titles, vec!["First", "Second"]);
    }
    let q = VideoQuery {
        page: None,
        per_page: None,
        search: None,
        order_by: None,
        order_direction: Some("DESC".to_string()),
    };
    let titles: Vec<String> = service.list_videos(q).unwrap().videos.into_iter().map(|v| v.title).collect();
    assert_eq!(titles, vec!["Second", "First"]);
}

#[test]
fn create_stamps_with_the_current_time() {
    let before = chrono::Utc::now().timestamp_micros();
    let mut service = service();
    let v = service.create_video(request("Now", "nnnnnnnnnnn")).unwrap();
    let after = chrono::Utc::now().timestamp_micros();
    assert!(before <= v.created_at && v.created_at <= after);
}
