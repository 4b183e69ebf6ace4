use vstd::prelude::*;

verus! {

/// The kinds of failure that the upload service reports.
#[derive(Debug, Clone, Copy, PartialEq, Eq, Hash, Structural)]
pub enum AppErrorType {
    TooMuchItems,
    InternalServerError,
    InvalidFile,
    MimeTypeNotAllowed,
    ToLarge,
    UploadFaild,
    NotFound,
}

/// The name of each kind as it appears in a JSON error body.
pub open spec fn error_code_of(t: AppErrorType) -> Seq<char> {
    match t {
        AppErrorType::TooMuchItems => "too_much_items"@,
        AppErrorType::InternalServerError => "internal_server_error"@,
        AppErrorType::InvalidFile => "invalid_file"@,
        AppErrorType::MimeTypeNotAllowed => "mime_type_not_allowed"@,
        AppErrorType::ToLarge => "to_large"@,
        AppErrorType::UploadFaild => "upload_faild"@,
        AppErrorType::NotFound => "not_found"@,
    }
}

/// The name of each kind as it appears in a log line or error text.
pub open spec fn error_label_of(t: AppErrorType) -> Seq<char> {
    match t {
        AppErrorType::TooMuchItems => "TooMuchItems"@,
        AppErrorType::InternalServerError => "InternalServerError"@,
        AppErrorType::InvalidFile => "InvalidFile"@,
        AppErrorType::MimeTypeNotAllowed => "MimeTypeNotAllowed"@,
        AppErrorType::ToLarge => "ToLarge"@,
        AppErrorType::UploadFaild => "UploadFaild"@,
        AppErrorType::NotFound => "NotFound"@,
    }
}

impl AppErrorType {
    /// The snake-case code of this kind.
    pub fn code(&self) -> (r: &'static str)
        ensures
            r@ == error_code_of(*self),
    {
        match self {
            AppErrorType::TooMuchItems => {
                proof { reveal_strlit("too_much_items"); }
                "too_much_items"
            },
            AppErrorType::InternalServerError => {
                proof { reveal_strlit("internal_server_error"); }
                "internal_server_error"
            },
            AppErrorType::InvalidFile => {
                proof { reveal_strlit("invalid_file"); }
                "invalid_file"
            },
            AppErrorType::MimeTypeNotAllowed => {
                proof { reveal_strlit("mime_type_not_allowed"); }
                "mime_type_not_allowed"
            },
            AppErrorType::ToLarge => {
                proof { reveal_strlit("to_large"); }
                "to_large"
            },
            AppErrorType::UploadFaild => {
                proof { reveal_strlit("upload_faild"); }
                "upload_faild"
            },
            AppErrorType::NotFound => {
                proof { reveal_strlit("not_found"); }
                "not_found"
            },
        }
    }

    /// The variant name of this kind.
    pub fn label(&self) -> (r: &'static str)
        ensures
            r@ == error_label_of(*self),
    {
        match self {
            AppErrorType::TooMuchItems => {
                proof { reveal_strlit("TooMuchItems"); }
                "TooMuchItems"
            },
            AppErrorType::InternalServerError => {
                proof { reveal_strlit("InternalServerError"); }
                "InternalServerError"
            },
            AppErrorType::InvalidFile => {
                proof { reveal_strlit("InvalidFile"); }
                "InvalidFile"
            },
            AppErrorType::MimeTypeNotAllowed => {
                proof { reveal_strlit("MimeTypeNotAllowed"); }
                "MimeTypeNotAllowed"
            },
            AppErrorType::ToLarge => {
                proof { reveal_strlit("ToLarge"); }
                "ToLarge"
            },
            AppErrorType::UploadFaild => {
                proof { reveal_strlit("UploadFaild"); }
                "UploadFaild"
            },
            AppErrorType::NotFound => {
                proof { reveal_strlit("NotFound"); }
                "NotFound"
            },
        }
    }
}

/// An error of the upload service: its kind and a human-readable cause.
pub struct AppError {
    pub error_type: AppErrorType,
    pub inner: String,
}

/// The HTTP status that every error kind is answered with.
pub const ERROR_STATUS: u16 = 500;

impl AppError {
    /// An error of the given kind whose cause is the kind's own name.
    pub fn of_type(error_type: AppErrorType) -> (r: AppError)
        ensures
            r.error_type == error_type,
            r.inner@ == error_label_of(error_type),
    {
        AppError { error_type, inner: error_type.label().to_string() }
    }

    /// An error of the given kind with an explicit cause.
    pub fn with_cause(error_type: AppErrorType, inner: String) -> (r: AppError)
        ensures
            r.error_type == error_type,
            r.inner == inner,
    {
        AppError { error_type, inner }
    }

    /// The HTTP status of this error: every kind is reported as an internal
    /// server error.
    pub fn status_code(&self) -> (r: u16)
        ensures
            r == ERROR_STATUS,
            r == 500,
    {
        ERROR_STATUS
    }
}

} // verus!
