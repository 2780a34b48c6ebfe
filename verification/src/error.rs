use vstd::prelude::*;
use crate::text;

verus! {

/// Errors raised by the library. Most variants carry a human-readable message.
#[derive(Debug, Clone)]
pub enum FuseError {
    InternalError(String),
    ValidationError(String),
    ModelNotFound(String),
    FeatureDisabled(String),
    InferenceError(String),
    DownloadError(String),
    /// The files to download do not fit on the disk.
    InsufficientDiskSpace { required_bytes: u64, available_bytes: u64 },
}

/// The text an error is reported with.
pub open spec fn error_message(e: FuseError) -> Seq<char> {
    match e {
        FuseError::InternalError(m) => m@,
        FuseError::ValidationError(m) => m@,
        FuseError::ModelNotFound(m) => m@,
        FuseError::FeatureDisabled(m) => m@,
        FuseError::InferenceError(m) => m@,
        FuseError::DownloadError(m) => m@,
        FuseError::InsufficientDiskSpace { required_bytes, available_bytes } =>
            "Insufficient disk space: required "@ + text::decimal(required_bytes as nat)
                + " bytes, available "@ + text::decimal(available_bytes as nat) + " bytes"@,
    }
}

impl FuseError {
    /// The text the error is reported with.
    pub fn message(&self) -> (r: String)
        ensures
            r@ == error_message(*self),
    {
        match self {
            FuseError::InternalError(m) => text::owned(m.as_str()),
            FuseError::ValidationError(m) => text::owned(m.as_str()),
            FuseError::ModelNotFound(m) => text::owned(m.as_str()),
            FuseError::FeatureDisabled(m) => text::owned(m.as_str()),
            FuseError::InferenceError(m) => text::owned(m.as_str()),
            FuseError::DownloadError(m) => text::owned(m.as_str()),
            FuseError::InsufficientDiskSpace { required_bytes, available_bytes } => {
                let a = text::u64_to_decimal(*required_bytes);
                let b = text::u64_to_decimal(*available_bytes);
                let mut r = text::concat4(
                    "Insufficient disk space: required ",
                    a.as_str(),
                    " bytes, available ",
                    b.as_str(),
                );
                r.append(" bytes");
                r
            },
        }
    }
}

} // verus!
