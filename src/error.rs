use vstd::prelude::*;

verus! {

/// A fault of the video table.
#[derive(Debug, Clone, PartialEq, Eq)]
pub enum StorageError {
    /// Another record, active or deleted, already holds this YouTube id.
    DuplicateYoutubeId,
    /// Every id that a record can take has been handed out.
    IdsExhausted,
    /// No timestamp later than the record's last stamp can be represented.
    ClockExhausted,
    /// A fault reported by the persistence backend.
    Backend(String),
}

/// Which fields of a request break their length rule.
#[derive(Debug, Clone, Copy, PartialEq, Eq, Structural)]
pub struct InvalidFields {
    pub title: bool,
    pub youtube_id: bool,
}

/// The errors of the video service.
#[derive(Debug, Clone, PartialEq, Eq)]
pub enum AppError {
    Database(StorageError),
    Validation(InvalidFields),
    /// No active record has this id.
    NotFound(i32),
    BadRequest(String),
    Internal(String),
}

pub type AppResult<T> = Result<T, AppError>;

/// The HTTP status that stands for an error.
pub open spec fn status_of(e: AppError) -> int {
    match e {
        AppError::Database(_) => 500,
        AppError::Validation(_) => 400,
        AppError::NotFound(_) => 404,
        AppError::BadRequest(_) => 400,
        AppError::Internal(_) => 500,
    }
}

impl AppError {
    /// The HTTP status code of the response for this error.
    pub fn status_code(&self) -> (r: u16)
        ensures
            r as int == status_of(*self),
    {
        match self {
            AppError::Database(_) => 500,
            AppError::Validation(_) => 400,
            AppError::NotFound(_) => 404,
            AppError::BadRequest(_) => 400,
            AppError::Internal(_) => 500,
        }
    }

    /// Whether the client may see the error's detail. Storage and internal
    /// faults are answered with a generic message only.
    pub fn is_public(&self) -> (r: bool)
        ensures
            r == (status_of(*self) != 500),
    {
        match self {
            AppError::Database(_) => false,
            AppError::Internal(_) => false,
            _ => true,
        }
    }
}

} // verus!
