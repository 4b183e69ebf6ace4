use vstd::prelude::*;

verus! {

/// Answer to an upload request: the identifier of each uploaded file, in
/// the order of the form's fields.
pub struct UploadFileResponse {
    pub file_hashes: Vec<String>,
}

/// Path parameters of a progress request: the identifier of the upload, as
/// the upload response returned it.
pub struct GetUploadProgress {
    pub file_hash: String,
}

/// One progress snapshot of an upload.
pub struct GetUploadProgressResponse {
    pub total_bytes: u64,
    pub bytes_uploaded: u64,
    pub file_hash: String,
}

/// The server-sent-event frame that carries `payload`.
pub open spec fn sse_frame_of(payload: Seq<char>) -> Seq<char> {
    "data: "@ + payload + "\n\n"@
}

/// Frames `payload` as one server-sent event: `data: `, the payload, and a
/// blank line.
pub fn sse_frame(payload: &str) -> (r: String)
    ensures
        r@ == sse_frame_of(payload@),
{
    let mut out = String::from_str("data: ");
    out.append(payload);
    out.append("\n\n");
    out
}

} // verus!
