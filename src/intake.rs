use vstd::prelude::*;
use crate::error::AppErrorType;
use crate::feed::ProgressFeed;
use crate::registry::{ProgressReceiver, ProgressRegistry};

verus! {

/// The content type and file name of an uploaded form field; `InvalidFile`
/// when either is missing.
pub fn check_field(content_type: Option<String>, filename: Option<String>) -> (r: Result<
    (String, String),
    AppErrorType,
>)
    ensures
        r is Ok <==> content_type is Some && filename is Some,
        r matches Ok((ct, name)) ==> content_type == Some(ct) && filename == Some(name),
        r matches Err(e) ==> e == AppErrorType::InvalidFile,
{
    match content_type {
        None => Err(AppErrorType::InvalidFile),
        Some(ct) => match filename {
            None => Err(AppErrorType::InvalidFile),
            Some(name) => Ok((ct, name)),
        },
    }
}

/// Opens a progress feed on the in-flight upload `file_hash`: the feed and a
/// receiver on the channel of the upload's entry, or `NotFound` exactly when
/// no upload with that identifier is in flight.
pub fn open_feed(registry: &ProgressRegistry, file_hash: &str) -> (r: Result<
    (ProgressFeed, ProgressReceiver),
    AppErrorType,
>)
    requires
        registry.wf(),
    ensures
        r is Ok <==> registry@.contains_key(file_hash@),
        r matches Ok((feed, rx)) ==> {
            &&& rx.channel() == registry.channel_of(file_hash@)
            &&& feed.file_hash@ == file_hash@
            &&& feed.total_bytes == registry@[file_hash@]
            &&& !feed.finished
            &&& !feed.completed
        },
        r matches Err(e) ==> e == AppErrorType::NotFound,
{
    match registry.subscribe(file_hash) {
        Ok((total_bytes, rx)) => Ok((ProgressFeed::new(file_hash.to_owned(), total_bytes), rx)),
        Err(e) => Err(e),
    }
}

} // verus!
